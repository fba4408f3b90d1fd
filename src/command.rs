//! Shell commands and the escaping of their arguments.
use std::borrow::Cow;
use vstd::prelude::*;
use vstd::string::*;
use crate::text::push_char;

verus! {

/// Characters that make an argument need quoting for the device shell.
pub open spec fn is_special(c: char) -> bool {
    c == ' ' || c == '\t' || c == '\n' || c == '\r' || c == '"' || c == '\'' || c == '\\'
        || c == '$' || c == '`' || c == '(' || c == ')' || c == '{' || c == '}' || c == '['
        || c == ']' || c == '|' || c == '&' || c == ';' || c == '<' || c == '>' || c == '?'
        || c == '*' || c == '~'
}

/// Characters that are escaped with a backslash inside double quotes.
pub open spec fn is_escaped_in_quotes(c: char) -> bool {
    c == '"' || c == '\\' || c == '$' || c == '`'
}

/// Whether some character of `s` is special.
pub open spec fn needs_quoting(s: Seq<char>) -> bool {
    exists|i: int| 0 <= i < s.len() && is_special(#[trigger] s[i])
}

/// The characters of `s` as they stand between double quotes.
pub open spec fn quoted_body(s: Seq<char>) -> Seq<char>
    decreases s.len(),
{
    if s.len() == 0 {
        Seq::empty()
    } else {
        let c = s.last();
        quoted_body(s.drop_last()) + if is_escaped_in_quotes(c) {
            seq!['\\', c]
        } else {
            seq![c]
        }
    }
}

/// One argument as written on a shell command line: `""` when empty,
/// verbatim when no character is special, else between double quotes with
/// `"`, `\`, `$` and `` ` `` escaped.
pub open spec fn escape_arg(s: Seq<char>) -> Seq<char> {
    if s.len() == 0 {
        seq!['"', '"']
    } else if !needs_quoting(s) {
        s
    } else {
        seq!['"'] + quoted_body(s) + seq!['"']
    }
}

/// The escaped arguments joined by single spaces.
pub open spec fn escape_args(args: Seq<Seq<char>>) -> Seq<char>
    decreases args.len(),
{
    if args.len() == 0 {
        Seq::empty()
    } else if args.len() == 1 {
        escape_arg(args[0])
    } else {
        escape_args(args.drop_last()) + seq![' '] + escape_arg(args.last())
    }
}

fn is_special_char(c: char) -> (r: bool)
    ensures
        r == is_special(c),
{
    c == ' ' || c == '\t' || c == '\n' || c == '\r' || c == '"' || c == '\'' || c == '\\'
        || c == '$' || c == '`' || c == '(' || c == ')' || c == '{' || c == '}' || c == '['
        || c == ']' || c == '|' || c == '&' || c == ';' || c == '<' || c == '>' || c == '?'
        || c == '*' || c == '~'
}

/// Escapes one argument for the device shell.
pub fn escape_shell_arg(arg: &str) -> (r: String)
    ensures
        r@ == escape_arg(arg@),
{
    let n = arg.unicode_len();
    if n == 0 {
        proof {
            reveal_strlit("\"\"");
        }
        return String::from_str("\"\"");
    }
    let mut special = false;
    let mut i: usize = 0;
    while i < n
        invariant
            n == arg@.len(),
            i <= n,
            special == exists|j: int| 0 <= j < i && is_special(#[trigger] arg@[j]),
        decreases n - i,
    {
        if is_special_char(arg.get_char(i)) {
            special = true;
        }
        i = i + 1;
    }
    if !special {
        return String::from_str(arg);
    }
    let mut out = String::new();
    push_char(&mut out, '"');
    let mut k: usize = 0;
    while k < n
        invariant
            n == arg@.len(),
            k <= n,
            out@ == seq!['"'] + quoted_body(arg@.subrange(0, k as int)),
        decreases n - k,
    {
        let c = arg.get_char(k);
        assert(arg@.subrange(0, k + 1).drop_last() =~= arg@.subrange(0, k as int));
        if c == '"' || c == '\\' || c == '$' || c == '`' {
            push_char(&mut out, '\\');
        }
        push_char(&mut out, c);
        k = k + 1;
        assert(out@ =~= seq!['"'] + quoted_body(arg@.subrange(0, k as int)));
    }
    push_char(&mut out, '"');
    assert(arg@.subrange(0, n as int) =~= arg@);
    out
}

/// Escapes each argument and joins them with single spaces.
pub fn list2cmdline(args: &[&str]) -> (r: String)
    ensures
        r@ == escape_args(strs_of(args@)),
{
    let ghost views = strs_of(args@);
    let mut out = String::new();
    let mut i: usize = 0;
    while i < args.len()
        invariant
            i <= args@.len(),
            views == strs_of(args@),
            out@ == escape_args(views.subrange(0, i as int)),
        decreases args@.len() - i,
    {
        let piece = escape_shell_arg(args[i]);
        if i > 0 {
            out.append(" ");
            proof {
                reveal_strlit(" ");
            }
        }
        out.append(piece.as_str());
        i = i + 1;
        assert(views.subrange(0, i as int).drop_last() =~= views.subrange(0, i - 1));
        assert(out@ =~= escape_args(views.subrange(0, i as int)));
    }
    assert(views.subrange(0, args@.len() as int) =~= views);
    out
}

/// A shell command: one string sent as it is, or arguments that are each
/// escaped and joined with spaces.
#[derive(Debug, PartialEq, Eq, PartialOrd, Ord)]
pub enum AdbCommand {
    Single(String),
    Multiple(Vec<String>),
}

/// The arguments of a command, as texts.
pub open spec fn texts_of(v: Seq<String>) -> Seq<Seq<char>> {
    Seq::new(v.len(), |i: int| v[i]@)
}

/// Borrowed texts, as texts.
pub open spec fn strs_of(v: Seq<&str>) -> Seq<Seq<char>> {
    Seq::new(v.len(), |i: int| v[i]@)
}

impl AdbCommand {
    /// The command line that is sent for this command.
    pub open spec fn line(&self) -> Seq<char> {
        match self {
            AdbCommand::Single(s) => s@,
            AdbCommand::Multiple(parts) => escape_args(texts_of(parts@)),
        }
    }

    /// A command sent verbatim.
    pub fn single(cmd: &str) -> (r: AdbCommand)
        ensures
            r matches AdbCommand::Single(s) && s@ == cmd@,
    {
        AdbCommand::Single(String::from_str(cmd))
    }

    /// A command made of arguments.
    pub fn multiple(args: &[&str]) -> (r: AdbCommand)
        ensures
            r matches AdbCommand::Multiple(v) && texts_of(v@) == strs_of(args@),
    {
        let mut v: Vec<String> = Vec::new();
        let mut i: usize = 0;
        while i < args.len()
            invariant
                i <= args@.len(),
                texts_of(v@) == strs_of(args@.subrange(0, i as int)),
            decreases args@.len() - i,
        {
            let ghost prev = v@;
            let s = String::from_str(args[i]);
            v.push(s);
            i = i + 1;
            assert(v@ == prev.push(s));
            assert(texts_of(prev).len() == prev.len());
            assert(prev.len() == i - 1);
            assert(v@.len() == i);
            assert forall|j: int| 0 <= j < i implies #[trigger] texts_of(v@)[j] == strs_of(
                args@.subrange(0, i as int),
            )[j] by {
                if j < i - 1 {
                    assert(texts_of(prev)[j] == strs_of(args@.subrange(0, i - 1))[j]);
                }
            }
            assert(texts_of(v@) =~= strs_of(args@.subrange(0, i as int)));
        }
        assert(args@.subrange(0, args@.len() as int) =~= args@);
        AdbCommand::Multiple(v)
    }

    /// The full command line.
    pub fn get_command(&self) -> (r: String)
        ensures
            r@ == self.line(),
    {
        match self {
            AdbCommand::Single(s) => s.clone(),
            AdbCommand::Multiple(parts) => shell_escape_args(parts),
        }
    }

    /// The full command line, borrowed when no escaping is needed.
    pub fn get_command_cow(&self) -> (r: Cow<'_, str>)
        ensures
            r@ == self.line(),
            self is Single <==> r is Borrowed,
    {
        match self {
            AdbCommand::Single(s) => Cow::Borrowed(s.as_str()),
            AdbCommand::Multiple(parts) => Cow::Owned(shell_escape_args(parts)),
        }
    }
}

/// Escapes each owned argument and joins them with single spaces.
pub fn shell_escape_args(args: &Vec<String>) -> (r: String)
    ensures
        r@ == escape_args(texts_of(args@)),
{
    let ghost views = texts_of(args@);
    let mut out = String::new();
    let mut i: usize = 0;
    while i < args.len()
        invariant
            i <= args@.len(),
            views == texts_of(args@),
            out@ == escape_args(views.subrange(0, i as int)),
        decreases args@.len() - i,
    {
        let piece = escape_shell_arg(args[i].as_str());
        if i > 0 {
            out.append(" ");
            proof {
                reveal_strlit(" ");
            }
        }
        out.append(piece.as_str());
        i = i + 1;
        assert(views.subrange(0, i as int).drop_last() =~= views.subrange(0, i - 1));
        assert(out@ =~= escape_args(views.subrange(0, i as int)));
    }
    assert(views.subrange(0, args@.len() as int) =~= views);
    out
}

/// Escapes one argument; the same rule as `escape_shell_arg`.
pub fn shell_escape_arg(arg: &str) -> (r: String)
    ensures
        r@ == escape_arg(arg@),
{
    escape_shell_arg(arg)
}

impl From<&str> for AdbCommand {
    fn from(s: &str) -> AdbCommand {
        AdbCommand::single(s)
    }
}

// The conversions promise nothing beyond what `single` and `multiple` state.
impl vstd::std_specs::convert::FromSpecImpl<&str> for AdbCommand {
    open spec fn obeys_from_spec() -> bool {
        false
    }

    open spec fn from_spec(v: &str) -> AdbCommand {
        arbitrary()
    }
}

impl From<Vec<&str>> for AdbCommand {
    fn from(args: Vec<&str>) -> AdbCommand {
        AdbCommand::multiple(args.as_slice())
    }
}

impl vstd::std_specs::convert::FromSpecImpl<Vec<&str>> for AdbCommand {
    open spec fn obeys_from_spec() -> bool {
        false
    }

    open spec fn from_spec(v: Vec<&str>) -> AdbCommand {
        arbitrary()
    }
}

impl<const N: usize> From<[&str; N]> for AdbCommand {
    fn from(args: [&str; N]) -> AdbCommand {
        AdbCommand::multiple(args.as_slice())
    }
}

impl<const N: usize> vstd::std_specs::convert::FromSpecImpl<[&str; N]> for AdbCommand {
    open spec fn obeys_from_spec() -> bool {
        false
    }

    open spec fn from_spec(v: [&str; N]) -> AdbCommand {
        arbitrary()
    }
}

impl<const N: usize> From<&[&str; N]> for AdbCommand {
    fn from(args: &[&str; N]) -> AdbCommand {
        AdbCommand::multiple(args.as_slice())
    }
}

impl<const N: usize> vstd::std_specs::convert::FromSpecImpl<&[&str; N]> for AdbCommand {
    open spec fn obeys_from_spec() -> bool {
        false
    }

    open spec fn from_spec(v: &[&str; N]) -> AdbCommand {
        arbitrary()
    }
}

} // verus!
