//! The commands that a user types at the prompt: how a line of input
//! becomes a command, and how a command is written back as text.

use vstd::prelude::*;
use vstd::string::*;

verus! {

/// A command typed by the user.
#[derive(Debug, Clone, PartialEq, Eq)]
pub enum Command {
    /// Show the client and protocol versions.
    Version(),
    /// Send the text to the server and check that it comes back unchanged.
    Echooo(String),
    /// Close the connection to the signaling server.
    Disconnect(),
    /// Open a connection to the signaling server.
    Connect(),
}

/// The mathematical value of a [`Command`].
pub enum CommandSpec {
    Version,
    Echooo(Seq<char>),
    Disconnect,
    Connect,
}

impl View for Command {
    type V = CommandSpec;

    open spec fn view(&self) -> CommandSpec {
        match self {
            Command::Version() => CommandSpec::Version,
            Command::Echooo(n) => CommandSpec::Echooo(n@),
            Command::Disconnect() => CommandSpec::Disconnect,
            Command::Connect() => CommandSpec::Connect,
        }
    }
}

pub open spec fn version_word() -> Seq<char> {
    seq!['v', 'e', 'r', 's', 'i', 'o', 'n']
}

pub open spec fn echooo_word() -> Seq<char> {
    seq!['e', 'c', 'h', 'o', 'o', 'o']
}

pub open spec fn disconnect_word() -> Seq<char> {
    seq!['d', 'i', 's', 'c', 'o', 'n', 'n', 'e', 'c', 't']
}

pub open spec fn connect_word() -> Seq<char> {
    seq!['c', 'o', 'n', 'n', 'e', 'c', 't']
}

/// The text form of a command: its keyword, and for `Echooo` a space and
/// the text to echo.
pub open spec fn command_text(c: CommandSpec) -> Seq<char> {
    match c {
        CommandSpec::Version => version_word(),
        CommandSpec::Echooo(n) => echooo_word() + seq![' '] + n,
        CommandSpec::Disconnect => disconnect_word(),
        CommandSpec::Connect => connect_word(),
    }
}

/// The characters with the Unicode property White_Space.
pub open spec fn is_white_space(c: char) -> bool {
    ||| c == ' '
    ||| '\x09' <= c <= '\x0d'
    ||| c == '\u{85}'
    ||| c == '\u{a0}'
    ||| c == '\u{1680}'
    ||| '\u{2000}' <= c <= '\u{200a}'
    ||| c == '\u{2028}'
    ||| c == '\u{2029}'
    ||| c == '\u{202f}'
    ||| c == '\u{205f}'
    ||| c == '\u{3000}'
}

/// The ASCII whitespace characters that separate words: space, tab, line
/// feed, form feed and carriage return.
pub open spec fn is_word_separator(c: char) -> bool {
    c == ' ' || c == '\t' || c == '\n' || c == '\x0c' || c == '\r'
}

/// `s` without its leading whitespace.
pub open spec fn trim_start(s: Seq<char>) -> Seq<char>
    decreases s.len(),
{
    if s.len() > 0 && is_white_space(s[0]) {
        trim_start(s.drop_first())
    } else {
        s
    }
}

/// `s` without its trailing whitespace.
pub open spec fn trim_end(s: Seq<char>) -> Seq<char>
    decreases s.len(),
{
    if s.len() > 0 && is_white_space(s.last()) {
        trim_end(s.drop_last())
    } else {
        s
    }
}

/// `s` without its leading and trailing whitespace.
pub open spec fn spec_trim(s: Seq<char>) -> Seq<char> {
    trim_end(trim_start(s))
}

/// One step of the split into words: the completed words and the word
/// being read, after reading `c`.
pub open spec fn split_step(state: (Seq<Seq<char>>, Seq<char>), c: char) -> (
    Seq<Seq<char>>,
    Seq<char>,
) {
    if is_word_separator(c) {
        if state.1.len() > 0 {
            (state.0.push(state.1), Seq::empty())
        } else {
            (state.0, Seq::empty())
        }
    } else {
        (state.0, state.1.push(c))
    }
}

/// The completed words and the word being read after reading all of `s`.
pub open spec fn split_state(s: Seq<char>) -> (Seq<Seq<char>>, Seq<char>)
    decreases s.len(),
{
    if s.len() == 0 {
        (Seq::empty(), Seq::empty())
    } else {
        split_step(split_state(s.drop_last()), s.last())
    }
}

/// The maximal runs of characters of `s` that hold no word separator, in order.
pub open spec fn spec_words(s: Seq<char>) -> Seq<Seq<char>> {
    let (done, current) = split_state(s);
    if current.len() > 0 {
        done.push(current)
    } else {
        done
    }
}

/// The character sequences of a sequence of strings.
pub open spec fn strings_view(v: Seq<String>) -> Seq<Seq<char>> {
    v.map_values(|s: String| s@)
}

/// The words of an input line: the line without its leading and trailing
/// whitespace, split at ASCII whitespace.
pub open spec fn spec_line_words(line: Seq<char>) -> Seq<Seq<char>> {
    spec_words(spec_trim(line))
}

/// The words of a line that a command can be read from: there is a first
/// word, and after the keyword `echooo` a second one.
pub open spec fn words_name_command(words: Seq<Seq<char>>) -> bool {
    &&& words.len() >= 1
    &&& words[0] == echooo_word() ==> words.len() >= 2
}

/// The command that the words of a line name, or `None` for an unknown keyword.
pub open spec fn spec_command_from_words(words: Seq<Seq<char>>) -> Option<CommandSpec> {
    if words[0] == version_word() {
        Some(CommandSpec::Version)
    } else if words[0] == echooo_word() {
        Some(CommandSpec::Echooo(words[1]))
    } else if words[0] == disconnect_word() {
        Some(CommandSpec::Disconnect)
    } else if words[0] == connect_word() {
        Some(CommandSpec::Connect)
    } else {
        None
    }
}

/// `str::trim`: `s` without leading and trailing characters that have the
/// Unicode White_Space property, as its documentation says.
#[verifier::external_body]
fn trim_white_space(s: &str) -> (r: &str)
    ensures
        r@ == spec_trim(s@),
{
    s.trim()
}

fn is_separator(c: char) -> (r: bool)
    ensures
        r == is_word_separator(c),
{
    c == ' ' || c == '\t' || c == '\n' || c == '\x0c' || c == '\r'
}

/// Splits a line of input into words: the line is trimmed of whitespace,
/// then split at ASCII whitespace.
pub fn command_words(line: &str) -> (words: Vec<String>)
    ensures
        strings_view(words@) == spec_line_words(line@),
{
    let t = trim_white_space(line);
    let n = t.unicode_len();
    let mut words: Vec<String> = Vec::new();
    let mut start: usize = 0;
    let mut i: usize = 0;
    while i < n
        invariant
            n == t@.len(),
            start <= i <= n,
            split_state(t@.take(i as int)) == (strings_view(words@), t@.subrange(
                start as int,
                i as int,
            )),
        decreases n - i,
    {
        let c = t.get_char(i);
        let ghost before = split_state(t@.take(i as int));
        assert(t@.take(i + 1).drop_last() =~= t@.take(i as int));
        if is_separator(c) {
            if start < i {
                let w = t.substring_char(start, i).to_owned();
                words.push(w);
                assert(strings_view(words@) =~= before.0.push(before.1));
            }
            start = i + 1;
            assert(t@.subrange(start as int, i + 1) =~= Seq::<char>::empty());
        } else {
            assert(t@.subrange(start as int, i + 1) =~= before.1.push(c));
        }
        i = i + 1;
    }
    assert(t@.take(n as int) =~= t@);
    if start < n {
        let w = t.substring_char(start, n).to_owned();
        let ghost done = strings_view(words@);
        words.push(w);
        assert(strings_view(words@) =~= done.push(t@.subrange(start as int, n as int)));
    }
    words
}

fn str_equals(a: &str, b: &str) -> (r: bool)
    ensures
        r == (a@ == b@),
{
    let n = a.unicode_len();
    if n != b.unicode_len() {
        return false;
    }
    let mut i: usize = 0;
    while i < n
        invariant
            n == a@.len() == b@.len(),
            i <= n,
            a@.take(i as int) == b@.take(i as int),
        decreases n - i,
    {
        if a.get_char(i) != b.get_char(i) {
            return false;
        }
        assert(a@.take(i + 1) =~= a@.take(i as int).push(a@[i as int]));
        assert(b@.take(i + 1) =~= b@.take(i as int).push(b@[i as int]));
        i = i + 1;
    }
    assert(a@ =~= a@.take(n as int));
    assert(b@ =~= b@.take(n as int));
    true
}

/// The command that the words of a line name; `None` when the first word
/// is no keyword (the line is an incorrect command).
pub fn command_from_words(words: &Vec<String>) -> (r: Option<Command>)
    requires
        words_name_command(strings_view(words@)),
    ensures
        r matches Some(c) ==> spec_command_from_words(strings_view(words@)) == Some(c@),
        r is None ==> spec_command_from_words(strings_view(words@)) is None,
{
    proof {
        reveal_strlit("version");
        reveal_strlit("echooo");
        reveal_strlit("disconnect");
        reveal_strlit("connect");
        assert("version"@ =~= version_word());
        assert("echooo"@ =~= echooo_word());
        assert("disconnect"@ =~= disconnect_word());
        assert("connect"@ =~= connect_word());
    }
    let ghost ws = strings_view(words@);
    assert(ws[0] == words@[0]@);
    let first = words[0].as_str();
    if str_equals(first, "version") {
        Some(Command::Version())
    } else if str_equals(first, "echooo") {
        assert(ws[1] == words@[1]@);
        Some(Command::Echooo(words[1].clone()))
    } else if str_equals(first, "disconnect") {
        Some(Command::Disconnect())
    } else if str_equals(first, "connect") {
        Some(Command::Connect())
    } else {
        None
    }
}

/// Reading more characters that hold no word separator only extends the
/// word being read.
proof fn lemma_split_extends_word(p: Seq<char>, q: Seq<char>)
    requires
        forall|k: int| 0 <= k < q.len() ==> !is_word_separator(#[trigger] q[k]),
    ensures
        split_state(p + q) == (split_state(p).0, split_state(p).1 + q),
    decreases q.len(),
{
    if q.len() == 0 {
        assert(p + q =~= p);
        assert(split_state(p).1 + q =~= split_state(p).1);
    } else {
        let q0 = q.drop_last();
        lemma_split_extends_word(p, q0);
        assert((p + q).drop_last() =~= p + q0);
        assert((p + q).last() == q.last());
        assert(split_state(p).1 + q0 + seq![q.last()] =~= split_state(p).1 + q);
    }
}

/// A text that `command_words` keeps as a single word: not empty, free of
/// ASCII whitespace, and not ending in whitespace.
pub open spec fn is_single_word(n: Seq<char>) -> bool {
    &&& n.len() > 0
    &&& forall|k: int| 0 <= k < n.len() ==> !is_word_separator(#[trigger] n[k])
    &&& !is_white_space(n.last())
}

proof fn lemma_keyword_words(w: Seq<char>)
    requires
        is_single_word(w),
        !is_white_space(w[0]),
    ensures
        spec_line_words(w) == seq![w],
{
    assert(trim_start(w) == w);
    assert(trim_end(w) == w);
    lemma_split_extends_word(Seq::empty(), w);
    assert(Seq::<char>::empty() + w =~= w);
    assert(Seq::<Seq<char>>::empty().push(w) =~= seq![w]);
}

/// Writing a command as text and reading that text back as a line gives
/// the same command, whenever the text of an `Echooo` command is a single
/// word.
pub proof fn lemma_command_text_roundtrip(c: CommandSpec)
    requires
        c matches CommandSpec::Echooo(n) ==> is_single_word(n),
    ensures
        words_name_command(spec_line_words(command_text(c))),
        spec_command_from_words(spec_line_words(command_text(c))) == Some(c),
{
    match c {
        CommandSpec::Version => {
            lemma_keyword_words(version_word());
        },
        CommandSpec::Disconnect => {
            lemma_keyword_words(disconnect_word());
        },
        CommandSpec::Connect => {
            lemma_keyword_words(connect_word());
        },
        CommandSpec::Echooo(n) => {
            let e = echooo_word();
            let s = e + seq![' '] + n;
            assert(s.last() == n.last());
            assert(trim_start(s) == s);
            assert(trim_end(s) == s);
            lemma_split_extends_word(Seq::empty(), e);
            assert(Seq::<char>::empty() + e =~= e);
            assert((e + seq![' ']).drop_last() =~= e);
            assert(split_state(e + seq![' ']) == (seq![e], Seq::<char>::empty())) by {
                assert(Seq::<Seq<char>>::empty().push(e) =~= seq![e]);
            }
            lemma_split_extends_word(e + seq![' '], n);
            assert(Seq::<char>::empty() + n =~= n);
            assert(spec_line_words(s) =~= seq![e, n]);
            assert(e != version_word()) by {
                assert(e.len() != version_word().len());
            }
        },
    }
}

/// A command is named by the first word of its line, and for `echooo` by
/// the second word as well; words after those are ignored. A line whose
/// first word is `version`, `disconnect` or `connect` names that command
/// whatever words follow; one whose first word is `echooo` names the echo of
/// its second word; and appending words to a line that names a command
/// never changes the command.
pub proof fn lemma_command_named_by_leading_words(ws: Seq<Seq<char>>, extra: Seq<Seq<char>>)
    requires
        words_name_command(ws),
    ensures
        ws[0] == version_word() ==> spec_command_from_words(ws) == Some(CommandSpec::Version),
        ws[0] == disconnect_word() ==> spec_command_from_words(ws) == Some(
            CommandSpec::Disconnect,
        ),
        ws[0] == connect_word() ==> spec_command_from_words(ws) == Some(CommandSpec::Connect),
        ws[0] == echooo_word() ==> spec_command_from_words(ws) == Some(
            CommandSpec::Echooo(ws[1]),
        ),
        words_name_command(ws + extra),
        spec_command_from_words(ws + extra) == spec_command_from_words(ws),
{
    assert(version_word() != echooo_word()) by {
        assert(version_word().len() != echooo_word().len());
    }
    assert(version_word() != disconnect_word()) by {
        assert(version_word().len() != disconnect_word().len());
    }
    assert(version_word() != connect_word()) by {
        assert(version_word()[0] != connect_word()[0]);
    }
    assert(echooo_word() != disconnect_word()) by {
        assert(echooo_word().len() != disconnect_word().len());
    }
    assert(echooo_word() != connect_word()) by {
        assert(echooo_word().len() != connect_word().len());
    }
    assert(disconnect_word() != connect_word()) by {
        assert(disconnect_word().len() != connect_word().len());
    }
    assert((ws + extra)[0] == ws[0]);
    if ws[0] == echooo_word() {
        assert((ws + extra)[1] == ws[1]);
    }
}

/// Words are separated by every ASCII whitespace character: space, tab,
/// line feed, form feed and carriage return. Two words that hold none of
/// these, with one of them between, are read as exactly those two words.
pub proof fn lemma_ascii_whitespace_separates_words(a: Seq<char>, c: char, b: Seq<char>)
    requires
        c == ' ' || c == '\t' || c == '\n' || c == '\x0c' || c == '\r',
        a.len() > 0,
        b.len() > 0,
        forall|k: int|
            0 <= k < a.len() ==> !(#[trigger] a[k] == ' ' || a[k] == '\t' || a[k] == '\n' || a[k]
                == '\x0c' || a[k] == '\r'),
        forall|k: int|
            0 <= k < b.len() ==> !(#[trigger] b[k] == ' ' || b[k] == '\t' || b[k] == '\n' || b[k]
                == '\x0c' || b[k] == '\r'),
        !is_white_space(a[0]),
        !is_white_space(b.last()),
    ensures
        spec_line_words(a + seq![c] + b) == seq![a, b],
{
    let s = a + seq![c] + b;
    assert(s[0] == a[0]);
    assert(s.last() == b.last());
    assert(trim_start(s) == s);
    assert(trim_end(s) == s);
    assert(forall|k: int| 0 <= k < a.len() ==> !is_word_separator(#[trigger] a[k]));
    assert(forall|k: int| 0 <= k < b.len() ==> !is_word_separator(#[trigger] b[k]));
    lemma_split_extends_word(Seq::empty(), a);
    assert(Seq::<char>::empty() + a =~= a);
    assert((a + seq![c]).drop_last() =~= a);
    assert(split_state(a + seq![c]) == (seq![a], Seq::<char>::empty())) by {
        assert(Seq::<Seq<char>>::empty().push(a) =~= seq![a]);
    }
    lemma_split_extends_word(a + seq![c], b);
    assert(Seq::<char>::empty() + b =~= b);
    assert(spec_line_words(s) =~= seq![a, b]);
}

impl Command {
    /// The text form of the command, as the server protocol names it.
    pub fn try_into(self) -> (r: Result<String, ()>)
        ensures
            r matches Ok(s) && s@ == command_text(self@),
    {
        proof {
            reveal_strlit("version");
            reveal_strlit("echooo ");
            reveal_strlit("disconnect");
            reveal_strlit("connect");
        }
        match self {
            Command::Version() => {
                let s = String::from_str("version");
                assert(s@ =~= version_word());
                Ok(s)
            },
            Command::Echooo(n) => {
                let s = String::from_str("echooo ").concat(n.as_str());
                assert(s@ =~= echooo_word() + seq![' '] + n@);
                Ok(s)
            },
            Command::Disconnect() => {
                let s = String::from_str("disconnect");
                assert(s@ =~= disconnect_word());
                Ok(s)
            },
            Command::Connect() => {
                let s = String::from_str("connect");
                assert(s@ =~= connect_word());
                Ok(s)
            },
        }
    }
}

} // verus!
