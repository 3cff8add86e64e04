//! Recipe steps: a recipe stores its steps as one block of text, one step per
//! line; this module splits such a block back into its lines.
use vstd::prelude::*;
use vstd::string::*;
use crate::text::{decimal_text, push_decimal};

verus! {

/// The line with a carriage return that stood before its newline removed.
pub open spec fn strip_cr(line: Seq<char>) -> Seq<char> {
    if line.len() > 0 && line.last() == '\r' {
        line.drop_last()
    } else {
        line
    }
}

/// The lines of `s` from position `i` on, where the current line began at
/// `start`: each newline ends a line (a carriage return just before it is not
/// part of the line), and text after the last newline, if any, is a last line.
pub open spec fn lines_from(s: Seq<char>, start: int, i: int) -> Seq<Seq<char>>
    decreases s.len() - i,
{
    if i >= s.len() {
        if start < s.len() {
            seq![s.subrange(start, s.len() as int)]
        } else {
            seq![]
        }
    } else if s[i] == '\n' {
        seq![strip_cr(s.subrange(start, i))] + lines_from(s, i + 1, i + 1)
    } else {
        lines_from(s, start, i + 1)
    }
}

/// The lines of a text, as `str::lines` yields them.
pub open spec fn lines_of(s: Seq<char>) -> Seq<Seq<char>> {
    lines_from(s, 0, 0)
}

/// The character sequences that a vector of strings holds.
pub open spec fn texts(v: Seq<String>) -> Seq<Seq<char>> {
    v.map_values(|x: String| x@)
}

/// Splits a block of steps into its lines.
pub fn process_steps(steps_string: String) -> (r: Option<Vec<String>>)
    ensures
        r is Some,
        texts(r->0@) == lines_of(steps_string@),
{
    let s = steps_string.as_str();
    let n = s.unicode_len();
    let mut out: Vec<String> = Vec::new();
    let mut start: usize = 0;
    let mut i: usize = 0;
    while i < n
        invariant
            n == s@.len(),
            s@ == steps_string@,
            start <= i <= n,
            texts(out@) + lines_from(s@, start as int, i as int) == lines_of(s@),
        decreases n - i,
    {
        if s.get_char(i) == '\n' {
            let mut end: usize = i;
            if end > start && s.get_char(end - 1) == '\r' {
                end = end - 1;
            }
            let line = s.substring_char(start, end).to_owned();
            proof {
                let whole = s@.subrange(start as int, i as int);
                assert(line@ == strip_cr(whole)) by {
                    if whole.len() > 0 && whole.last() == '\r' {
                        assert(line@ =~= whole.drop_last());
                    } else {
                        assert(line@ =~= whole);
                    }
                }
                let rest = lines_from(s@, i + 1, i + 1);
                assert(texts(out@.push(line)) =~= texts(out@).push(line@));
                assert(texts(out@).push(line@) + rest =~= texts(out@) + (seq![line@] + rest));
            }
            out.push(line);
            start = i + 1;
        }
        i = i + 1;
    }
    if start < n {
        let line = s.substring_char(start, n).to_owned();
        proof {
            assert(texts(out@.push(line)) =~= texts(out@).push(line@));
            assert(texts(out@) + seq![line@] =~= texts(out@).push(line@));
        }
        out.push(line);
    } else {
        assert(texts(out@) + seq![] =~= texts(out@));
    }
    Some(out)
}

/// The steps as one block: each step on its own line, numbered from one,
/// as in "1. Boil water" followed by a newline.
pub open spec fn numbered_steps(steps: Seq<Seq<char>>) -> Seq<char>
    decreases steps.len(),
{
    if steps.len() == 0 {
        seq![]
    } else {
        numbered_steps(steps.drop_last()) + decimal_text(steps.len()) + ". "@ + steps.last()
            + "\n"@
    }
}

/// Joins steps into the numbered block that a recipe stores.
pub fn steps_block(steps: &Vec<String>) -> (r: String)
    ensures
        r@ == numbered_steps(texts(steps@)),
{
    let mut out = String::new();
    let mut i: usize = 0;
    while i < steps.len()
        invariant
            i <= steps@.len(),
            out@ == numbered_steps(texts(steps@.take(i as int))),
        decreases steps@.len() - i,
    {
        let ghost before = out@;
        push_decimal(&mut out, (i + 1) as u64);
        out.append(". ");
        out.append(steps[i].as_str());
        out.append("\n");
        proof {
            let t = texts(steps@.take(i + 1));
            assert(t.drop_last() =~= texts(steps@.take(i as int)));
            assert(t.last() == steps@[i as int]@);
            assert(out@ =~= numbered_steps(t));
        }
        i = i + 1;
    }
    assert(steps@.take(steps@.len() as int) =~= steps@);
    out
}

} // verus!
