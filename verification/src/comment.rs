//! Formatting of description comments.

use vstd::prelude::*;

use crate::chars::{chars_to_string, str_to_chars, to_upper_char, upper_char};
use crate::slug::trim_spec;

verus! {

/// A trimmed comment with its first character capitalized and a final
/// period added unless it already ends in `.`, `!` or `?`.
pub open spec fn format_comment_spec(s: Seq<char>) -> Seq<char> {
    let t = trim_spec(s);
    if t.len() == 0 {
        Seq::empty()
    } else {
        let cap = seq![upper_char(t[0])] + t.drop_first();
        if cap.last() == '.' || cap.last() == '!' || cap.last() == '?' {
            cap
        } else {
            cap.push('.')
        }
    }
}

/// What a comment reads as in emitted source: formatted if asked for,
/// otherwise only trimmed.
pub open spec fn rendered_comment(s: Seq<char>, format: bool) -> Seq<char> {
    if format {
        format_comment_spec(s)
    } else {
        trim_spec(s)
    }
}

/// Capitalize a comment and punctuate it: the first character is
/// upper-cased and a period is appended unless the text already ends in
/// `.`, `!` or `?`.  The text is trimmed first; an all-whitespace text
/// gives an empty comment.
pub fn format_comment(text: &str) -> (r: String)
    ensures
        r@ == format_comment_spec(text@),
{
    let cs = str_to_chars(text);
    let trimmed = crate::slug::trim_chars(&cs);
    if trimmed.len() == 0 {
        let empty: Vec<char> = Vec::new();
        return chars_to_string(&empty);
    }
    let mut out: Vec<char> = Vec::new();
    out.push(to_upper_char(trimmed[0]));
    let mut i: usize = 1;
    while i < trimmed.len()
        invariant
            1 <= i <= trimmed@.len(),
            trimmed@.len() > 0,
            out@ == seq![upper_char(trimmed@[0])] + trimmed@.subrange(1, i as int),
        decreases trimmed@.len() - i,
    {
        out.push(trimmed[i]);
        proof {
            assert(trimmed@.subrange(1, i + 1 as int) =~= trimmed@.subrange(1, i as int).push(
                trimmed@[i as int],
            ));
        }
        i = i + 1;
    }
    proof {
        assert(trimmed@.subrange(1, trimmed@.len() as int) =~= trimmed@.drop_first());
        assert(out@ =~= seq![upper_char(trimmed@[0])] + trimmed@.drop_first());
        assert(out@.len() > 0);
    }
    let last = out[out.len() - 1];
    if last == '.' || last == '!' || last == '?' {
        chars_to_string(&out)
    } else {
        out.push('.');
        chars_to_string(&out)
    }
}

} // verus!
