//! Client-side logic of the LetsConnectDreams terminal client: the wire
//! framing of its TCP protocol, the parsing of user commands, the decisions
//! taken for each command, STUN binding requests and responses, the
//! configuration file and the RSA key handling.

pub mod frame;
pub mod stun;
pub mod command;
pub mod config;
pub mod crypto;
pub mod session;

pub use command::Command;
pub use config::{load_config, try_load_config, Config};
pub use crypto::{
    generate_rsa_keypair, get_rsa_keypair, rsa_decrypt_message, rsa_encrypt_message,
    try_rsa_decrypt_message, try_rsa_encrypt_message,
};
pub use session::{check_auth, CLI_VERSION, PROTOCOL_VERSION};
