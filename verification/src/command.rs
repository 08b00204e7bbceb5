//! Parsing of one input line into a protocol command.
//!
//! The grammar is one case-sensitive verb, then whitespace-separated
//! arguments; `PRIVMSG` takes a channel and a trailing `:`-prefixed text.
//! Parsing never fails and never panics: a line that fits no rule becomes
//! `Unknown`, and a `PRIVMSG` whose trailing part is missing or malformed
//! carries empty text, which the dispatcher rejects as an invalid argument.

use vstd::prelude::*;

verus! {

/// One decoded command, as the dispatcher consumes it.
#[derive(Debug, PartialEq, Eq)]
pub enum Command {
    /// `NICK <name>`: claim or change a nickname (name may be empty).
    Nick(String),
    /// `USER <..>`: complete registration; everything after the verb is
    /// ignored.
    User,
    /// `JOIN <channel>`: join a room.
    Join(String),
    /// `PRIVMSG <channel> :<text>`: broadcast text to a room.
    Privmsg(String, String),
    /// `QUIT [:reason]`: leave; the reason is ignored.
    Quit,
    /// `CAP <..>`: capability negotiation, deliberately ignored.
    Cap,
    /// Anything else; carries the unrecognized verb.
    Unknown(String),
}

/// The mathematical image of a command.
#[verifier::ext_equal]
pub enum CommandV {
    Nick(Seq<char>),
    User,
    Join(Seq<char>),
    Privmsg(Seq<char>, Seq<char>),
    Quit,
    Cap,
    Unknown(Seq<char>),
}

impl View for Command {
    type V = CommandV;

    open spec fn view(&self) -> CommandV {
        match self {
            Command::Nick(n) => CommandV::Nick(n@),
            Command::User => CommandV::User,
            Command::Join(c) => CommandV::Join(c@),
            Command::Privmsg(c, t) => CommandV::Privmsg(c@, t@),
            Command::Quit => CommandV::Quit,
            Command::Cap => CommandV::Cap,
            Command::Unknown(v) => CommandV::Unknown(v@),
        }
    }
}

/// The index of the first space in `s`, or `s.len()` if there is none.
pub open spec fn first_space(s: Seq<char>) -> int
    decreases s.len(),
{
    if s.len() == 0 {
        0
    } else if s[0] == ' ' {
        0
    } else {
        1 + first_space(s.drop_first())
    }
}

/// `first_space` is the unique index that is in bounds, has no space before
/// it, and sits on a space or at the end.
pub proof fn lemma_first_space_is(s: Seq<char>, i: int)
    requires
        0 <= i <= s.len(),
        forall|j: int| 0 <= j < i ==> s[j] != ' ',
        i == s.len() || s[i] == ' ',
    ensures
        first_space(s) == i,
    decreases s.len(),
{
    if s.len() == 0 {
    } else if s[0] == ' ' {
        assert(i == 0);
    } else {
        assert(i >= 1);
        let t = s.drop_first();
        assert(forall|j: int| 0 <= j < i - 1 ==> t[j] == s[j + 1] && t[j] != ' ');
        assert(i - 1 == t.len() || t[i - 1] == ' ');
        lemma_first_space_is(t, i - 1);
    }
}

/// The verb of a line: everything before the first space.
pub open spec fn verb_of(line: Seq<char>) -> Seq<char> {
    line.subrange(0, first_space(line))
}

/// The arguments of a line: everything after the first space, or empty if
/// there is none.
pub open spec fn args_of(line: Seq<char>) -> Seq<char> {
    if first_space(line) < line.len() {
        line.subrange(first_space(line) + 1, line.len() as int)
    } else {
        Seq::empty()
    }
}

/// The channel argument of a `PRIVMSG` argument list: everything before
/// the first space.
pub open spec fn privmsg_channel(args: Seq<char>) -> Seq<char> {
    args.subrange(0, first_space(args))
}

/// The text of a `PRIVMSG` argument list: everything after the `:` that
/// follows the channel, or empty if that marker is missing.
pub open spec fn privmsg_text(args: Seq<char>) -> Seq<char> {
    let k = first_space(args);
    if k + 1 < args.len() && args[k + 1] == ':' {
        args.subrange(k + 2, args.len() as int)
    } else {
        Seq::empty()
    }
}

/// What one input line means.
pub open spec fn parse_spec(line: Seq<char>) -> CommandV {
    let verb = verb_of(line);
    let args = args_of(line);
    if verb == "NICK"@ {
        CommandV::Nick(args)
    } else if verb == "USER"@ {
        CommandV::User
    } else if verb == "JOIN"@ {
        CommandV::Join(args)
    } else if verb == "PRIVMSG"@ {
        CommandV::Privmsg(privmsg_channel(args), privmsg_text(args))
    } else if verb == "QUIT"@ {
        CommandV::Quit
    } else if verb == "CAP"@ {
        CommandV::Cap
    } else {
        CommandV::Unknown(verb)
    }
}

/// The index of the first space of `s`, or its length if there is none.
fn find_space(s: &str) -> (r: usize)
    ensures
        r == first_space(s@),
        r <= s@.len(),
{
    let n = s.unicode_len();
    let mut i: usize = 0;
    while i < n && s.get_char(i) != ' '
        invariant
            i <= n,
            n == s@.len(),
            forall|j: int| 0 <= j < i ==> s@[j] != ' ',
        decreases n - i,
    {
        i += 1;
    }
    proof {
        lemma_first_space_is(s@, i as int);
    }
    i
}

/// Whether two string slices hold the same characters.
pub fn str_eq(a: &str, b: &str) -> (r: bool)
    ensures
        r == (a@ == b@),
{
    let na = a.unicode_len();
    let nb = b.unicode_len();
    if na != nb {
        return false;
    }
    let mut i: usize = 0;
    while i < na
        invariant
            i <= na,
            na == a@.len(),
            na == b@.len(),
            forall|j: int| 0 <= j < i ==> a@[j] == b@[j],
        decreases na - i,
    {
        if a.get_char(i) != b.get_char(i) {
            return false;
        }
        i += 1;
    }
    proof {
        assert(a@ =~= b@);
    }
    true
}

/// Splits a line into its verb and its argument part.
fn split_verb<'a>(line: &'a str) -> (r: (&'a str, &'a str))
    ensures
        r.0@ == verb_of(line@),
        r.1@ == args_of(line@),
{
    let n = line.unicode_len();
    let k = find_space(line);
    let verb = line.substring_char(0, k);
    if k < n {
        let args = line.substring_char(k + 1, n);
        proof {
            assert(args@ =~= args_of(line@));
        }
        (verb, args)
    } else {
        let args = line.substring_char(n, n);
        proof {
            assert(args@ =~= args_of(line@));
        }
        (verb, args)
    }
}

/// Parses one input line.  Total: every line decodes to some command.
pub fn parse_line(line: &str) -> (c: Command)
    ensures
        c@ == parse_spec(line@),
{
    let (verb, args) = split_verb(line);
    if str_eq(verb, "NICK") {
        Command::Nick(args.to_owned())
    } else if str_eq(verb, "USER") {
        Command::User
    } else if str_eq(verb, "JOIN") {
        Command::Join(args.to_owned())
    } else if str_eq(verb, "PRIVMSG") {
        let m = args.unicode_len();
        let k = find_space(args);
        let channel = args.substring_char(0, k);
        let text: &str = if k < m && k + 1 < m {
            if args.get_char(k + 1) == ':' {
                args.substring_char(k + 2, m)
            } else {
                args.substring_char(m, m)
            }
        } else {
            args.substring_char(m, m)
        };
        proof {
            assert(channel@ == privmsg_channel(args@));
            assert(text@ =~= privmsg_text(args@));
        }
        Command::Privmsg(channel.to_owned(), text.to_owned())
    } else if str_eq(verb, "QUIT") {
        Command::Quit
    } else if str_eq(verb, "CAP") {
        Command::Cap
    } else {
        Command::Unknown(verb.to_owned())
    }
}

} // verus!
