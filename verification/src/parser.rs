//! The command parser: from one line of input to an argument vector.

use crate::shell::Shell;
use crate::text::{
    any_has_nul, chars_of, has_nul, is_trimmed, lemma_split_keeps_nul, lemma_split_nonempty,
    lemma_token_len_at, lemma_trim_keeps_nul, lemma_trim_range, split_on_space, substring, trim,
    trim_bounds,
};
use vstd::prelude::*;
use vstd::string::*;

verus! {

/// The arguments that `line` holds: the pieces of the trimmed line between
/// its single spaces.
pub open spec fn tokens(line: Seq<char>) -> Seq<Seq<char>> {
    split_on_space(trim(line))
}

/// The argument vector of `line`, or `None` when one of its arguments holds a
/// null character and so cannot be handed to the system as a string that a
/// null character ends.
pub open spec fn parse_line(line: Seq<char>) -> Option<Seq<Seq<char>>> {
    if any_has_nul(tokens(line)) {
        None
    } else {
        Some(tokens(line))
    }
}

/// Whether `argv` is a command: at least a name, and no argument with a null
/// character in it.
pub open spec fn is_command(argv: Seq<Seq<char>>) -> bool {
    argv.len() >= 1 && !any_has_nul(argv)
}

/// What is said of a line that cannot be parsed.
pub open spec fn nul_message() -> Seq<char> {
    "command holds a null character"@
}

/// A line is parsed exactly when it holds no null character at all, and what
/// comes out is a command.
pub proof fn law_parse_line(line: Seq<char>)
    ensures
        parse_line(line) is Some <==> !has_nul(line),
        parse_line(line) matches Some(argv) ==> is_command(argv),
{
    lemma_trim_keeps_nul(line);
    lemma_split_keeps_nul(trim(line));
    lemma_split_nonempty(trim(line));
}

/// A line that holds more than whitespace has a command name that is not
/// empty.
pub proof fn law_name_not_empty(line: Seq<char>)
    requires
        trim(line).len() > 0,
    ensures
        tokens(line)[0].len() > 0,
{
    let _ = lemma_trim_range(line);
    let t = trim(line);
    assert(is_trimmed(t));
    assert(t.first() != ' ');
}

impl Shell {
    /// `line` without its leading and trailing whitespace.
    pub fn trim_white(line: String) -> (trimmed: String)
        ensures
            trimmed@ == trim(line@),
    {
        let chars = chars_of(line.as_str());
        let (from, to) = trim_bounds(&chars);
        substring(line.as_str(), from, to)
    }

    /// Parses `line` into an argument vector: the line is trimmed and split
    /// at every single space. Fails exactly when an argument holds a null
    /// character.
    pub fn cmd_parse(line: String) -> (r: Result<Vec<String>, String>)
        ensures
            match r {
                Ok(argv) => parse_line(line@) == Some(argv.deep_view()) && is_command(
                    argv.deep_view(),
                ),
                Err(message) => parse_line(line@) is None && message@ == nul_message(),
            },
    {
        let text = line.as_str();
        let chars = chars_of(text);
        let (from, to) = trim_bounds(&chars);
        let ghost t = trim(line@);
        let mut argv: Vec<String> = Vec::new();
        proof {
            assert(t.skip(0) =~= t);
            assert(argv.deep_view() + split_on_space(t) =~= split_on_space(t));
        }
        let mut start: usize = from;
        let mut i: usize = from;
        while i < to
            invariant
                from <= start <= i <= to <= chars.len(),
                chars@ == line@,
                text@ == line@,
                t == trim(line@),
                t == chars@.subrange(from as int, to as int),
                forall|j: int| start <= j < i ==> chars[j] != ' ',
                forall|j: int| from <= j < i ==> chars[j] != '\0',
                split_on_space(t) == argv.deep_view() + split_on_space(t.skip(start - from)),
            decreases to - i,
        {
            let c = chars[i];
            if c == '\0' {
                proof {
                    assert(t[i - from] == '\0');
                    assert(has_nul(t));
                    lemma_split_keeps_nul(t);
                }
                return Err(String::from_str("command holds a null character"));
            }
            if c == ' ' {
                let piece = substring(text, start, i);
                proof {
                    let rest = t.skip(start - from);
                    let k = i - start;
                    assert forall|j: int| 0 <= j < k implies rest[j] != ' ' by {
                        assert(rest[j] == chars[start + j]);
                    }
                    assert(rest[k] == ' ');
                    lemma_token_len_at(rest, k);
                    assert(rest.take(k) =~= line@.subrange(start as int, i as int));
                    assert(rest.skip(k + 1) =~= t.skip(i + 1 - from));
                }
                let ghost before = argv.deep_view();
                argv.push(piece);
                proof {
                    assert(argv.deep_view() =~= before.push(piece@));
                    assert(before + (seq![piece@] + split_on_space(t.skip(i + 1 - from)))
                        =~= before.push(piece@) + split_on_space(t.skip(i + 1 - from)));
                }
                start = i + 1;
            }
            i = i + 1;
        }
        let piece = substring(text, start, to);
        proof {
            let rest = t.skip(start - from);
            assert forall|j: int| 0 <= j < rest.len() implies rest[j] != ' ' by {
                assert(rest[j] == chars[start + j]);
            }
            lemma_token_len_at(rest, rest.len() as int);
            assert(rest =~= line@.subrange(start as int, to as int));
        }
        let ghost before = argv.deep_view();
        argv.push(piece);
        proof {
            assert(argv.deep_view() =~= before.push(piece@));
            assert(before + seq![piece@] =~= before.push(piece@));
            assert(!has_nul(t)) by {
                if has_nul(t) {
                    let j = choose|j: int| 0 <= j < t.len() && t[j] == '\0';
                    assert(chars[from + j] == '\0');
                }
            }
            lemma_split_keeps_nul(t);
            lemma_split_nonempty(t);
        }
        Ok(argv)
    }
}

} // verus!
