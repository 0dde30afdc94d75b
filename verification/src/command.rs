//! The command grammar.
//!
//! A command message is a '/' followed by the command word, an optional
//! '@'-mention of the agent's own name, and, for `/add` and `/sub`, exactly
//! one argument token.  The command word is matched without regard to ASCII
//! case; a mention addressed to another name makes the text no command, as
//! does a missing or extra argument.  `parse_command_spec` states the grammar;
//! `Command::parse` is proved to accept exactly that.

use vstd::prelude::*;
use vstd::string::StrSliceExecFns;

verus! {

/// First index in [from, to) holding character c, else to.
pub open spec fn find_in(s: Seq<char>, from: int, to: int, c: char) -> int
    decreases to - from,
{
    if from < 0 || from >= to || to > s.len() {
        to
    } else if s[from] == c {
        from
    } else {
        find_in(s, from + 1, to, c)
    }
}

/// `find_in` is the first occurrence: in bounds, hits c when short of `to`,
/// and nothing before it is c.
pub proof fn lemma_find_in(s: Seq<char>, from: int, to: int, c: char)
    requires
        0 <= from <= to <= s.len(),
    ensures
        from <= find_in(s, from, to, c) <= to,
        find_in(s, from, to, c) < to ==> s[find_in(s, from, to, c)] == c,
        forall|j: int| from <= j < find_in(s, from, to, c) ==> s[j] != c,
    decreases to - from,
{
    if from < to && s[from] != c {
        lemma_find_in(s, from + 1, to, c);
    }
}

/// First index in [from, to) holding anything but a space, else to.
pub open spec fn first_non_space(s: Seq<char>, from: int, to: int) -> int
    decreases to - from,
{
    if from < 0 || from >= to || to > s.len() {
        to
    } else if s[from] != ' ' {
        from
    } else {
        first_non_space(s, from + 1, to)
    }
}

pub proof fn lemma_first_non_space(s: Seq<char>, from: int, to: int)
    requires
        0 <= from <= to <= s.len(),
    ensures
        from <= first_non_space(s, from, to) <= to,
        first_non_space(s, from, to) < to ==> s[first_non_space(s, from, to)] != ' ',
        forall|j: int| from <= j < first_non_space(s, from, to) ==> s[j] == ' ',
    decreases to - from,
{
    if from < to && s[from] == ' ' {
        lemma_first_non_space(s, from + 1, to);
    }
}

/// Whether [from, to) is spaces only.
pub open spec fn spaces_only(s: Seq<char>, from: int, to: int) -> bool {
    forall|j: int| from <= j < to ==> #[trigger] s[j] == ' '
}

/// The ASCII lower-case counterpart of a character.
pub open spec fn lower_char(c: char) -> char {
    if c == 'A' {
        'a'
    } else if c == 'B' {
        'b'
    } else if c == 'C' {
        'c'
    } else if c == 'D' {
        'd'
    } else if c == 'E' {
        'e'
    } else if c == 'F' {
        'f'
    } else if c == 'G' {
        'g'
    } else if c == 'H' {
        'h'
    } else if c == 'I' {
        'i'
    } else if c == 'J' {
        'j'
    } else if c == 'K' {
        'k'
    } else if c == 'L' {
        'l'
    } else if c == 'M' {
        'm'
    } else if c == 'N' {
        'n'
    } else if c == 'O' {
        'o'
    } else if c == 'P' {
        'p'
    } else if c == 'Q' {
        'q'
    } else if c == 'R' {
        'r'
    } else if c == 'S' {
        's'
    } else if c == 'T' {
        't'
    } else if c == 'U' {
        'u'
    } else if c == 'V' {
        'v'
    } else if c == 'W' {
        'w'
    } else if c == 'X' {
        'x'
    } else if c == 'Y' {
        'y'
    } else if c == 'Z' {
        'z'
    } else {
        c
    }
}

/// A character sequence with every ASCII upper-case letter lowered.
pub open spec fn lower_seq(s: Seq<char>) -> Seq<char> {
    s.map_values(|c: char| lower_char(c))
}

fn to_lower(c: char) -> (r: char)
    ensures
        r == lower_char(c),
{
    if c == 'A' {
        'a'
    } else if c == 'B' {
        'b'
    } else if c == 'C' {
        'c'
    } else if c == 'D' {
        'd'
    } else if c == 'E' {
        'e'
    } else if c == 'F' {
        'f'
    } else if c == 'G' {
        'g'
    } else if c == 'H' {
        'h'
    } else if c == 'I' {
        'i'
    } else if c == 'J' {
        'j'
    } else if c == 'K' {
        'k'
    } else if c == 'L' {
        'l'
    } else if c == 'M' {
        'm'
    } else if c == 'N' {
        'n'
    } else if c == 'O' {
        'o'
    } else if c == 'P' {
        'p'
    } else if c == 'Q' {
        'q'
    } else if c == 'R' {
        'r'
    } else if c == 'S' {
        's'
    } else if c == 'T' {
        't'
    } else if c == 'U' {
        'u'
    } else if c == 'V' {
        'v'
    } else if c == 'W' {
        'w'
    } else if c == 'X' {
        'x'
    } else if c == 'Y' {
        'y'
    } else if c == 'Z' {
        'z'
    } else {
        c
    }
}

/// A parsed command at the specification level; the argument of `/add` and
/// `/sub` is the character sequence of its one token.
pub enum CommandView {
    Get,
    Reset,
    Add(Seq<char>),
    Sub(Seq<char>),
    Battle,
}

/// The closed command set a payload-bearing state accepts.
#[derive(PartialEq, Eq, Debug)]
pub enum Command {
    Get,
    Reset,
    Add(String),
    Sub(String),
    Battle,
}

impl View for Command {
    type V = CommandView;

    open spec fn view(&self) -> CommandView {
        match self {
            Command::Get => CommandView::Get,
            Command::Reset => CommandView::Reset,
            Command::Add(a) => CommandView::Add(a@),
            Command::Sub(a) => CommandView::Sub(a@),
            Command::Battle => CommandView::Battle,
        }
    }
}

/// What command parsing accepts.  The text up to the first space is the
/// head: a '/', the command word, and an optional '@'-mention that must equal
/// the agent's own name exactly.  `/get`, `/reset` and `/battle` allow only
/// spaces after the head; `/add` and `/sub` demand exactly one further token,
/// their argument.
pub open spec fn parse_command_spec(s: Seq<char>, bot: Seq<char>) -> Option<CommandView> {
    let n = s.len() as int;
    let sp = find_in(s, 0, n, ' ');
    let at = find_in(s, 1, sp, '@');
    if n == 0 || s[0] != '/' {
        None
    } else if at < sp && s.subrange(at + 1, sp) != bot {
        None
    } else {
        let word = lower_seq(s.subrange(1, at));
        if word == "get"@ {
            if spaces_only(s, sp, n) {
                Some(CommandView::Get)
            } else {
                None
            }
        } else if word == "reset"@ {
            if spaces_only(s, sp, n) {
                Some(CommandView::Reset)
            } else {
                None
            }
        } else if word == "battle"@ {
            if spaces_only(s, sp, n) {
                Some(CommandView::Battle)
            } else {
                None
            }
        } else if word == "add"@ || word == "sub"@ {
            let a = first_non_space(s, sp, n);
            let b = find_in(s, a, n, ' ');
            if a < n && spaces_only(s, b, n) {
                if word == "add"@ {
                    Some(CommandView::Add(s.subrange(a, b)))
                } else {
                    Some(CommandView::Sub(s.subrange(a, b)))
                }
            } else {
                None
            }
        } else {
            None
        }
    }
}

/// First index in [from, to) holding character c, else to.
fn scan_for(s: &str, from: usize, to: usize, c: char) -> (r: usize)
    requires
        from <= to <= s@.len(),
    ensures
        r == find_in(s@, from as int, to as int, c),
{
    let mut i = from;
    while i < to
        invariant
            from <= i <= to <= s@.len(),
            forall|j: int| from <= j < i ==> s@[j] != c,
        decreases to - i,
    {
        if s.get_char(i) == c {
            proof {
                lemma_find_in(s@, from as int, to as int, c);
            }
            return i;
        }
        i += 1;
    }
    proof {
        lemma_find_in(s@, from as int, to as int, c);
    }
    to
}

/// First index in [from, to) holding anything but a space, else to.
fn scan_non_space(s: &str, from: usize, to: usize) -> (r: usize)
    requires
        from <= to <= s@.len(),
    ensures
        r == first_non_space(s@, from as int, to as int),
{
    let mut i = from;
    while i < to
        invariant
            from <= i <= to <= s@.len(),
            forall|j: int| from <= j < i ==> s@[j] == ' ',
        decreases to - i,
    {
        if s.get_char(i) != ' ' {
            proof {
                lemma_first_non_space(s@, from as int, to as int);
            }
            return i;
        }
        i += 1;
    }
    proof {
        lemma_first_non_space(s@, from as int, to as int);
    }
    to
}

/// Whether [from, to) is spaces only.
fn all_spaces_range(s: &str, from: usize, to: usize) -> (r: bool)
    requires
        from <= to <= s@.len(),
    ensures
        r == spaces_only(s@, from as int, to as int),
{
    let mut i = from;
    while i < to
        invariant
            from <= i <= to <= s@.len(),
            forall|j: int| from <= j < i ==> #[trigger] s@[j] == ' ',
        decreases to - i,
    {
        if s.get_char(i) != ' ' {
            return false;
        }
        i += 1;
    }
    true
}

/// Whether [from, to) equals `other` exactly.
fn eq_range(s: &str, from: usize, to: usize, other: &str) -> (r: bool)
    requires
        from <= to <= s@.len(),
    ensures
        r == (s@.subrange(from as int, to as int) == other@),
{
    let olen = other.unicode_len();
    if to - from != olen {
        return false;
    }
    let mut i: usize = 0;
    while i < olen
        invariant
            from <= to <= s@.len(),
            to - from == olen,
            olen == other@.len(),
            i <= olen,
            forall|j: int| 0 <= j < i ==> s@[from + j] == other@[j],
        decreases olen - i,
    {
        if s.get_char(from + i) != other.get_char(i) {
            proof {
                assert(s@.subrange(from as int, to as int)[i as int] != other@[i as int]);
            }
            return false;
        }
        i += 1;
    }
    proof {
        assert(s@.subrange(from as int, to as int) =~= other@);
    }
    true
}

/// Whether [from, to), lowered, equals the lower-case keyword `kw`.
fn eq_lower_range(s: &str, from: usize, to: usize, kw: &str) -> (r: bool)
    requires
        from <= to <= s@.len(),
    ensures
        r == (lower_seq(s@.subrange(from as int, to as int)) == kw@),
{
    let klen = kw.unicode_len();
    if to - from != klen {
        return false;
    }
    let mut i: usize = 0;
    while i < klen
        invariant
            from <= to <= s@.len(),
            to - from == klen,
            klen == kw@.len(),
            i <= klen,
            forall|j: int| 0 <= j < i ==> lower_char(#[trigger] s@[from + j]) == kw@[j],
        decreases klen - i,
    {
        let c = to_lower(s.get_char(from + i));
        if c != kw.get_char(i) {
            proof {
                assert(lower_seq(s@.subrange(from as int, to as int))[i as int] == lower_char(
                    s@[from + i],
                ));
            }
            return false;
        }
        i += 1;
    }
    proof {
        assert forall|j: int|
            0 <= j < klen implies lower_seq(s@.subrange(from as int, to as int))[j]
            == kw@[j] by {
            assert(s@.subrange(from as int, to as int)[j] == s@[from + j]);
        }
        assert(lower_seq(s@.subrange(from as int, to as int)) =~= kw@);
    }
    true
}

impl Command {
    /// Parse one message text against the agent's own name, accepting exactly
    /// what `parse_command_spec` accepts.
    pub fn parse(text: &str, bot_name: &str) -> (r: Option<Command>)
        ensures
            match r {
                Some(c) => parse_command_spec(text@, bot_name@) == Some(c@),
                None => parse_command_spec(text@, bot_name@) is None,
            },
    {
        let n = text.unicode_len();
        if n == 0 {
            return None;
        }
        if text.get_char(0) != '/' {
            return None;
        }
        let sp = scan_for(text, 0, n, ' ');
        proof {
            lemma_find_in(text@, 0, n as int, ' ');
        }
        let at = scan_for(text, 1, sp, '@');
        proof {
            lemma_find_in(text@, 1, sp as int, '@');
        }
        if at < sp {
            if !eq_range(text, at + 1, sp, bot_name) {
                return None;
            }
        }
        if eq_lower_range(text, 1, at, "get") {
            if all_spaces_range(text, sp, n) {
                Some(Command::Get)
            } else {
                None
            }
        } else if eq_lower_range(text, 1, at, "reset") {
            if all_spaces_range(text, sp, n) {
                Some(Command::Reset)
            } else {
                None
            }
        } else if eq_lower_range(text, 1, at, "battle") {
            if all_spaces_range(text, sp, n) {
                Some(Command::Battle)
            } else {
                None
            }
        } else {
            let adds = eq_lower_range(text, 1, at, "add");
            let subs = eq_lower_range(text, 1, at, "sub");
            if !adds && !subs {
                return None;
            }
            let a = scan_non_space(text, sp, n);
            proof {
                lemma_first_non_space(text@, sp as int, n as int);
            }
            if a == n {
                return None;
            }
            let b = scan_for(text, a, n, ' ');
            proof {
                lemma_find_in(text@, a as int, n as int, ' ');
            }
            if !all_spaces_range(text, b, n) {
                return None;
            }
            let arg = text.substring_char(a, b).to_owned();
            if adds {
                Some(Command::Add(arg))
            } else {
                Some(Command::Sub(arg))
            }
        }
    }
}

} // verus!
