//! Command interpreter: a pure, deterministic parser that turns the text of a
//! pull-request comment into an ordered sequence of command parse results.
//!
//! A comment may hold several invocations, one per line: a line whose first
//! word is the bot trigger is parsed independently of every other line, so a
//! malformed token never suppresses valid commands elsewhere in the text.

use vstd::prelude::*;

use crate::text::str_eq;

verus! {

/// A command the bot understands.
#[derive(Clone, Copy, Debug, PartialEq, Eq, Structural)]
pub enum BorsCommand {
    /// Liveness check; answered with a reply comment.
    Ping,
    /// Start a try build for the pull request the comment sits on.
    Try,
}

/// Why a trigger line failed to parse.
#[derive(Debug)]
pub enum CommandParseError {
    /// The trigger word stood alone, with no command keyword after it.
    MissingCommand,
    /// The keyword after the trigger is not a known command.
    UnknownCommand(String),
}

/// The mathematical value of one parse result.
pub enum ParseOutcome {
    Ping,
    Try,
    MissingCommand,
    Unknown(Seq<char>),
}

/// The value a `Result` of the parser stands for.
pub open spec fn outcome_of(r: Result<BorsCommand, CommandParseError>) -> ParseOutcome {
    match r {
        Ok(BorsCommand::Ping) => ParseOutcome::Ping,
        Ok(BorsCommand::Try) => ParseOutcome::Try,
        Err(CommandParseError::MissingCommand) => ParseOutcome::MissingCommand,
        Err(CommandParseError::UnknownCommand(t)) => ParseOutcome::Unknown(t@),
    }
}

/// Word separators inside one line; `\r` is one so that lines of CRLF texts
/// parse as their LF counterparts do.
pub open spec fn is_ws_char(c: char) -> bool {
    c == ' ' || c == '\t' || c == '\r'
}

/// The first position at or after `i` holding a non-separator character, or
/// the length of `s` if there is none.
pub open spec fn next_non_ws(s: Seq<char>, i: int) -> int
    decreases s.len() - i,
    when 0 <= i <= s.len()
{
    if i >= s.len() {
        i
    } else if is_ws_char(s[i]) {
        next_non_ws(s, i + 1)
    } else {
        i
    }
}

/// The first position at or after `i` holding a separator, or the length of
/// `s` if there is none.
pub open spec fn next_ws(s: Seq<char>, i: int) -> int
    decreases s.len() - i,
    when 0 <= i <= s.len()
{
    if i >= s.len() {
        i
    } else if is_ws_char(s[i]) {
        i
    } else {
        next_ws(s, i + 1)
    }
}

/// The first position at or after `i` holding a line break, or the length of
/// `s` if there is none.
pub open spec fn next_newline(s: Seq<char>, i: int) -> int
    decreases s.len() - i,
    when 0 <= i <= s.len()
{
    if i >= s.len() {
        i
    } else if s[i] == '\n' {
        i
    } else {
        next_newline(s, i + 1)
    }
}

pub proof fn lemma_next_non_ws_bounds(s: Seq<char>, i: int)
    requires
        0 <= i <= s.len(),
    ensures
        i <= next_non_ws(s, i) <= s.len(),
        next_non_ws(s, i) < s.len() ==> !is_ws_char(s[next_non_ws(s, i)]),
    decreases s.len() - i,
{
    if i < s.len() && is_ws_char(s[i]) {
        lemma_next_non_ws_bounds(s, i + 1);
    }
}

pub proof fn lemma_next_ws_bounds(s: Seq<char>, i: int)
    requires
        0 <= i <= s.len(),
    ensures
        i <= next_ws(s, i) <= s.len(),
        i < s.len() && !is_ws_char(s[i]) ==> next_ws(s, i) > i,
    decreases s.len() - i,
{
    if i < s.len() && !is_ws_char(s[i]) {
        lemma_next_ws_bounds(s, i + 1);
    }
}

pub proof fn lemma_next_newline_bounds(s: Seq<char>, i: int)
    requires
        0 <= i <= s.len(),
    ensures
        i <= next_newline(s, i) <= s.len(),
    decreases s.len() - i,
{
    if i < s.len() && s[i] != '\n' {
        lemma_next_newline_bounds(s, i + 1);
    }
}

/// The words of `s` from position `i` on, in order, separators dropped.
pub open spec fn tokens_from(s: Seq<char>, i: int) -> Seq<Seq<char>>
    decreases s.len() - i,
    when 0 <= i <= s.len()
{
    let a = next_non_ws(s, i);
    if a >= s.len() {
        Seq::empty()
    } else {
        proof {
            lemma_next_non_ws_bounds(s, i);
            lemma_next_ws_bounds(s, a);
        }
        seq![s.subrange(a, next_ws(s, a))] + tokens_from(s, next_ws(s, a))
    }
}

/// The words of a whole line.
pub open spec fn tokens_of(s: Seq<char>) -> Seq<Seq<char>> {
    tokens_from(s, 0)
}

/// The word that addresses the bot.
pub open spec fn bot_trigger() -> Seq<char> {
    ("@bors")@
}

pub open spec fn ping_keyword() -> Seq<char> {
    ("ping")@
}

pub open spec fn try_keyword() -> Seq<char> {
    ("try")@
}

/// What one line of a comment means: `None` when the line does not address
/// the bot, otherwise the parse of the keyword after the trigger. Arguments
/// after the keyword are permitted and ignored: neither recognized command
/// takes any.
pub open spec fn parse_line(line: Seq<char>) -> Option<ParseOutcome> {
    let toks = tokens_of(line);
    if toks.len() == 0 || toks[0] != bot_trigger() {
        None
    } else if toks.len() == 1 {
        Some(ParseOutcome::MissingCommand)
    } else if toks[1] == ping_keyword() {
        Some(ParseOutcome::Ping)
    } else if toks[1] == try_keyword() {
        Some(ParseOutcome::Try)
    } else {
        Some(ParseOutcome::Unknown(toks[1]))
    }
}

/// The parse results of the lines of `s` from position `i` on, in order.
pub open spec fn parse_from(s: Seq<char>, i: int) -> Seq<ParseOutcome>
    decreases s.len() - i,
    when 0 <= i <= s.len()
{
    if i >= s.len() {
        Seq::empty()
    } else {
        proof {
            lemma_next_newline_bounds(s, i);
        }
        let e = next_newline(s, i);
        let here = match parse_line(s.subrange(i, e)) {
            Some(o) => seq![o],
            None => Seq::<ParseOutcome>::empty(),
        };
        here + if e < s.len() {
            parse_from(s, e + 1)
        } else {
            Seq::<ParseOutcome>::empty()
        }
    }
}

/// The commands embedded in a whole comment, in order of their lines.
pub open spec fn parse_spec(text: Seq<char>) -> Seq<ParseOutcome> {
    parse_from(text, 0)
}

fn is_ws(c: char) -> (b: bool)
    ensures
        b == is_ws_char(c),
{
    c == ' ' || c == '\t' || c == '\r'
}

fn find_non_ws(s: &str, from: usize) -> (j: usize)
    requires
        from <= s@.len(),
    ensures
        j == next_non_ws(s@, from as int),
        from <= j <= s@.len(),
    decreases s@.len() - from,
{
    proof {
        lemma_next_non_ws_bounds(s@, from as int);
    }
    let n = s.unicode_len();
    let mut j = from;
    while j < n && is_ws(s.get_char(j))
        invariant
            from <= j <= n,
            n == s@.len(),
            next_non_ws(s@, from as int) == next_non_ws(s@, j as int),
        decreases n - j,
    {
        j += 1;
    }
    j
}

fn find_ws(s: &str, from: usize) -> (j: usize)
    requires
        from <= s@.len(),
    ensures
        j == next_ws(s@, from as int),
        from <= j <= s@.len(),
    decreases s@.len() - from,
{
    proof {
        lemma_next_ws_bounds(s@, from as int);
    }
    let n = s.unicode_len();
    let mut j = from;
    while j < n && !is_ws(s.get_char(j))
        invariant
            from <= j <= n,
            n == s@.len(),
            next_ws(s@, from as int) == next_ws(s@, j as int),
        decreases n - j,
    {
        j += 1;
    }
    j
}

fn find_newline(s: &str, from: usize) -> (j: usize)
    requires
        from <= s@.len(),
    ensures
        j == next_newline(s@, from as int),
        from <= j <= s@.len(),
    decreases s@.len() - from,
{
    proof {
        lemma_next_newline_bounds(s@, from as int);
    }
    let n = s.unicode_len();
    let mut j = from;
    while j < n && s.get_char(j) != '\n'
        invariant
            from <= j <= n,
            n == s@.len(),
            next_newline(s@, from as int) == next_newline(s@, j as int),
        decreases n - j,
    {
        j += 1;
    }
    j
}

/// Splits a line into its words.
pub fn tokenize(line: &str) -> (toks: Vec<String>)
    ensures
        toks@.map_values(|t: String| t@) == tokens_of(line@),
{
    let n = line.unicode_len();
    let mut toks: Vec<String> = Vec::new();
    let mut i: usize = 0;
    loop
        invariant
            0 <= i <= n,
            n == line@.len(),
            toks@.map_values(|t: String| t@) + tokens_from(line@, i as int) == tokens_of(line@),
        ensures
            toks@.map_values(|t: String| t@) == tokens_of(line@),
        decreases n - i,
    {
        let a = find_non_ws(line, i);
        if a >= n {
            proof {
                assert(tokens_from(line@, i as int) =~= Seq::<Seq<char>>::empty());
                assert(toks@.map_values(|t: String| t@) =~= tokens_of(line@));
            }
            break;
        }
        let b = find_ws(line, a);
        proof {
            lemma_next_ws_bounds(line@, a as int);
        }
        let tok = line.substring_char(a, b).to_owned();
        let ghost old_toks = toks@;
        toks.push(tok);
        proof {
            assert(toks@.map_values(|t: String| t@) =~= old_toks.map_values(|t: String| t@)
                + seq![line@.subrange(a as int, b as int)]);
            assert(tokens_from(line@, i as int) == seq![line@.subrange(a as int, b as int)]
                + tokens_from(line@, b as int));
            assert(toks@.map_values(|t: String| t@) + tokens_from(line@, b as int)
                =~= tokens_of(line@));
        }
        i = b;
    }
    toks
}

/// Parses the text of a comment into its embedded commands, one parse result
/// for each line whose first word addresses the bot, in the order of the
/// lines. A malformed line yields an error entry and leaves every other line's
/// result in place.
pub fn parse_commands(text: &str) -> (res: Vec<Result<BorsCommand, CommandParseError>>)
    ensures
        res@.map_values(|r: Result<BorsCommand, CommandParseError>| outcome_of(r))
            == parse_spec(text@),
        res@.len() == parse_spec(text@).len(),
        forall|k: int|
            0 <= k < res@.len() ==> outcome_of(#[trigger] res@[k]) == parse_spec(text@)[k],
{
    let n = text.unicode_len();
    let mut res: Vec<Result<BorsCommand, CommandParseError>> = Vec::new();
    let mut i: usize = 0;
    loop
        invariant
            0 <= i <= n,
            n == text@.len(),
            res@.map_values(|r: Result<BorsCommand, CommandParseError>| outcome_of(r))
                + parse_from(text@, i as int) == parse_spec(text@),
        ensures
            res@.map_values(|r: Result<BorsCommand, CommandParseError>| outcome_of(r))
                == parse_spec(text@),
        decreases n - i,
    {
        if i >= n {
            proof {
                assert(res@.map_values(|r: Result<BorsCommand, CommandParseError>| outcome_of(r))
                    =~= parse_spec(text@));
            }
            break;
        }
        let e = find_newline(text, i);
        let line = text.substring_char(i, e);
        let ghost line_view = text@.subrange(i as int, e as int);
        let mut toks = tokenize(line);
        let ghost old_res = res@;
        let ghost f = (|r: Result<BorsCommand, CommandParseError>| outcome_of(r));
        if toks.len() > 0 && str_eq(toks[0].as_str(), "@bors") {
            let item: Result<BorsCommand, CommandParseError> = if toks.len() == 1 {
                Err(CommandParseError::MissingCommand)
            } else if str_eq(toks[1].as_str(), "ping") {
                Ok(BorsCommand::Ping)
            } else if str_eq(toks[1].as_str(), "try") {
                Ok(BorsCommand::Try)
            } else {
                Err(CommandParseError::UnknownCommand(toks.remove(1)))
            };
            proof {
                assert(toks@.map_values(|t: String| t@)[0] == tokens_of(line_view)[0]);
                assert(parse_line(line_view) == Some(outcome_of(item)));
            }
            res.push(item);
            proof {
                assert(res@.map_values(f) =~= old_res.map_values(f) + seq![outcome_of(item)]);
            }
        } else {
            proof {
                if toks@.len() > 0 {
                    assert(toks@.map_values(|t: String| t@)[0] == tokens_of(line_view)[0]);
                }
                assert(parse_line(line_view) is None);
            }
        }
        proof {
            assert(parse_from(text@, i as int) == (match parse_line(line_view) {
                Some(o) => seq![o],
                None => Seq::<ParseOutcome>::empty(),
            }) + if e < n {
                parse_from(text@, e as int + 1)
            } else {
                Seq::<ParseOutcome>::empty()
            });
            assert(res@.map_values(f) + (if e < n {
                parse_from(text@, e as int + 1)
            } else {
                Seq::<ParseOutcome>::empty()
            }) =~= parse_spec(text@));
        }
        i = if e < n {
            e + 1
        } else {
            n
        };
    }
    res
}

} // verus!
