//! The commands that key bindings carry for this program.
//!
//! The window manager ignores a command that begins with `nop`, so a
//! binding can carry one for this program: `nop`, then the arguments.

use vstd::prelude::*;
use vstd::string::{StrSliceExecFns, StringExecFns};
use crate::text::lines;

verus! {

/// Whether `c` is white space as Unicode defines it.
pub open spec fn is_space(c: char) -> bool {
    let u = c as u32;
    ||| 0x09 <= u <= 0x0D
    ||| u == 0x20
    ||| u == 0x85
    ||| u == 0xA0
    ||| u == 0x1680
    ||| 0x2000 <= u <= 0x200A
    ||| u == 0x2028
    ||| u == 0x2029
    ||| u == 0x202F
    ||| u == 0x205F
    ||| u == 0x3000
}

/// Whether `c` is white space as Unicode defines it.
pub fn is_whitespace(c: char) -> (b: bool)
    ensures
        b == is_space(c),
{
    let u = c as u32;
    (0x09 <= u && u <= 0x0D) || u == 0x20 || u == 0x85 || u == 0xA0 || u == 0x1680 || (0x2000
        <= u && u <= 0x200A) || u == 0x2028 || u == 0x2029 || u == 0x202F || u == 0x205F || u
        == 0x3000
}

/// The words of `s`: the longest runs of characters that are not white
/// space, from left to right.
pub open spec fn words(s: Seq<char>) -> Seq<Seq<char>>
    decreases s.len(),
{
    if s.len() == 0 {
        Seq::empty()
    } else if is_space(s.last()) {
        words(s.drop_last())
    } else if s.len() >= 2 && !is_space(s[s.len() - 2]) {
        // one more character of the word that was begun
        words(s.drop_last()).drop_last().push(words(s.drop_last()).last().push(s.last()))
    } else {
        words(s.drop_last()).push(seq![s.last()])
    }
}

/// The pieces of `s` between the separators `sep`. There is one piece more
/// than there are separators, and a piece can be empty.
pub open spec fn pieces(s: Seq<char>, sep: char) -> Seq<Seq<char>>
    decreases s.len(),
{
    if s.len() == 0 {
        seq![Seq::empty()]
    } else if s.last() == sep {
        pieces(s.drop_last(), sep).push(Seq::empty())
    } else {
        pieces(s.drop_last(), sep).drop_last().push(
            pieces(s.drop_last(), sep).last().push(s.last()),
        )
    }
}

/// The arguments that `action` carries for this program: the words after
/// `nop`, if `nop` is the first word.
pub open spec fn nop_arguments(action: Seq<char>) -> Option<Seq<Seq<char>>> {
    if words(action).len() > 0 && words(action)[0] == "nop"@ {
        Some(words(action).drop_first())
    } else {
        None
    }
}

/// The words of `s`.
pub fn split_whitespace(s: &str) -> (out: Vec<String>)
    ensures
        lines(out@) == words(s@),
{
    let n = s.unicode_len();
    let mut out: Vec<String> = Vec::new();
    let mut start: usize = 0;
    let mut in_word = false;
    let mut i: usize = 0;
    while i < n
        invariant
            n == s@.len(),
            i <= n,
            in_word ==> start < i && !is_space(s@[i - 1]) && words(s@.take(i as int)) == lines(
                out@,
            ).push(s@.subrange(start as int, i as int)),
            !in_word ==> (i == 0 || is_space(s@[i - 1])) && words(s@.take(i as int)) == lines(
                out@,
            ),
        decreases n - i,
    {
        let c = s.get_char(i);
        let ghost t = s@.take(i + 1);
        proof {
            assert(t.drop_last() =~= s@.take(i as int));
            if i > 0 {
                assert(t[t.len() - 2] == s@[i - 1]);
            }
        }
        if is_whitespace(c) {
            if in_word {
                out.push(String::from_str(s.substring_char(start, i)));
                in_word = false;
            }
        } else {
            if in_word {
                proof {
                    let w = words(s@.take(i as int));
                    assert(w.last().push(c) =~= s@.subrange(start as int, i + 1));
                }
            } else {
                start = i;
                in_word = true;
                assert(seq![c] =~= s@.subrange(i as int, i + 1));
            }
        }
        i += 1;
    }
    assert(s@.take(n as int) =~= s@);
    if in_word {
        out.push(String::from_str(s.substring_char(start, n)));
    }
    out
}

/// The pieces of `s` between the separators `sep`.
pub fn split_on(s: &str, sep: char) -> (out: Vec<String>)
    ensures
        lines(out@) == pieces(s@, sep),
{
    let n = s.unicode_len();
    let mut out: Vec<String> = Vec::new();
    let mut start: usize = 0;
    let mut i: usize = 0;
    proof {
        assert(s@.take(0) =~= Seq::empty());
    }
    while i < n
        invariant
            n == s@.len(),
            start <= i <= n,
            pieces(s@.take(i as int), sep) == lines(out@).push(
                s@.subrange(start as int, i as int),
            ),
        decreases n - i,
    {
        let c = s.get_char(i);
        let ghost t = s@.take(i + 1);
        let ghost p = pieces(s@.take(i as int), sep);
        proof {
            assert(t.drop_last() =~= s@.take(i as int));
        }
        if c == sep {
            out.push(String::from_str(s.substring_char(start, i)));
            start = i + 1;
            proof {
                assert(s@.subrange(i + 1, i + 1) =~= Seq::empty());
            }
        } else {
            proof {
                assert(p.last().push(c) =~= s@.subrange(start as int, i + 1));
            }
        }
        i += 1;
    }
    assert(s@.take(n as int) =~= s@);
    out.push(String::from_str(s.substring_char(start, n)));
    out
}

/// The arguments that `action` carries for this program, or `None` if it
/// is a command for the window manager alone.
pub fn parse_command_string(action: &str) -> (r: Option<Vec<String>>)
    ensures
        match r {
            Some(args) => nop_arguments(action@) == Some(lines(args@)),
            None => nop_arguments(action@) is None,
        },
{
    let mut args = split_whitespace(action);
    if args.len() == 0 {
        return None;
    }
    let nop = String::from_str("nop");
    if args[0] == nop {
        args.remove(0);
        Some(args)
    } else {
        None
    }
}

} // verus!
