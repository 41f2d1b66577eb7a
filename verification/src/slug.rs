//! The naming scheme: a canonical identifier derived from a title.
//!
//! A title is trimmed, at most one leading keyword (`when`, `given` or
//! `it`, any casing, followed by a space) is removed, and the remaining
//! whitespace-delimited tokens are lower-cased, reduced to their
//! alphanumeric characters, and joined with `_`; empty tokens are
//! dropped.  The same scheme names helper and test declarations on both
//! the generation and the checking path.

use vstd::prelude::*;

use crate::chars::{
    alphanumeric, char_is_alphanumeric, char_is_whitespace, chars_to_string, lower_char,
    lower_seq, str_to_chars, to_lower_char, whitespace,
};

verus! {

/// The keyword `when `, lower-cased.
pub open spec fn kw_when() -> Seq<char> {
    seq!['w', 'h', 'e', 'n', ' ']
}

/// The keyword `given `, lower-cased.
pub open spec fn kw_given() -> Seq<char> {
    seq!['g', 'i', 'v', 'e', 'n', ' ']
}

/// The keyword `it `, lower-cased.
pub open spec fn kw_it() -> Seq<char> {
    seq!['i', 't', ' ']
}

/// The sequence with leading whitespace removed.
pub open spec fn trim_front(s: Seq<char>) -> Seq<char>
    decreases s.len(),
{
    if s.len() > 0 && whitespace(s[0]) {
        trim_front(s.drop_first())
    } else {
        s
    }
}

/// The sequence with trailing whitespace removed.
pub open spec fn trim_back(s: Seq<char>) -> Seq<char>
    decreases s.len(),
{
    if s.len() > 0 && whitespace(s.last()) {
        trim_back(s.drop_last())
    } else {
        s
    }
}

/// The sequence with leading and trailing whitespace removed.
pub open spec fn trim_spec(s: Seq<char>) -> Seq<char> {
    trim_back(trim_front(s))
}

/// At most one leading keyword, in any casing and followed by a space,
/// removed.
pub open spec fn strip_keyword(s: Seq<char>) -> Seq<char> {
    if s.len() >= 5 && lower_seq(s.take(5)) == kw_when() {
        s.skip(5)
    } else if s.len() >= 6 && lower_seq(s.take(6)) == kw_given() {
        s.skip(6)
    } else if s.len() >= 3 && lower_seq(s.take(3)) == kw_it() {
        s.skip(3)
    } else {
        s
    }
}

/// Every character mapped for naming: alphanumerics are kept
/// lower-cased, whitespace becomes a separator, all else is dropped.
pub open spec fn mapped(s: Seq<char>) -> Seq<char>
    decreases s.len(),
{
    if s.len() == 0 {
        Seq::empty()
    } else {
        mapped(s.drop_last()) + (if alphanumeric(s.last()) {
            seq![lower_char(s.last())]
        } else if whitespace(s.last()) {
            seq!['_']
        } else {
            Seq::<char>::empty()
        })
    }
}

/// The segments of a sequence split at `_`; empty segments are kept.
/// There is always at least one segment.
pub open spec fn segments(s: Seq<char>) -> Seq<Seq<char>>
    decreases s.len(),
{
    if s.len() == 0 {
        seq![Seq::<char>::empty()]
    } else if s.last() == '_' {
        segments(s.drop_last()).push(Seq::empty())
    } else {
        let r = segments(s.drop_last());
        r.update(r.len() - 1, r.last().push(s.last()))
    }
}

/// The non-empty segments, in order.
pub open spec fn keep_nonempty(segs: Seq<Seq<char>>) -> Seq<Seq<char>>
    decreases segs.len(),
{
    if segs.len() == 0 {
        Seq::empty()
    } else if segs.last().len() == 0 {
        keep_nonempty(segs.drop_last())
    } else {
        keep_nonempty(segs.drop_last()).push(segs.last())
    }
}

/// Tokens joined with a single `_` between neighbours.
pub open spec fn join_tokens(toks: Seq<Seq<char>>) -> Seq<char>
    decreases toks.len(),
{
    if toks.len() == 0 {
        Seq::empty()
    } else if toks.len() == 1 {
        toks[0]
    } else {
        join_tokens(toks.drop_last()) + seq!['_'] + toks.last()
    }
}

/// The canonical identifier of a title.
pub open spec fn slug(s: Seq<char>) -> Seq<char> {
    join_tokens(keep_nonempty(segments(mapped(strip_keyword(trim_spec(s))))))
}

proof fn lemma_segments_len(s: Seq<char>)
    ensures
        segments(s).len() >= 1,
    decreases s.len(),
{
    if s.len() > 0 {
        lemma_segments_len(s.drop_last());
    }
}

proof fn lemma_keep_nonempty_all(segs: Seq<Seq<char>>)
    ensures
        forall|i: int|
            0 <= i < keep_nonempty(segs).len() ==> #[trigger] keep_nonempty(segs)[i].len() > 0,
    decreases segs.len(),
{
    if segs.len() > 0 {
        lemma_keep_nonempty_all(segs.drop_last());
        if segs.last().len() > 0 {
            let k = keep_nonempty(segs.drop_last());
            assert forall|i: int|
                0 <= i < keep_nonempty(segs).len() implies #[trigger] keep_nonempty(
                segs,
            )[i].len() > 0 by {
                if i < k.len() {
                    assert(keep_nonempty(segs)[i] == k[i]);
                } else {
                    assert(keep_nonempty(segs)[i] == segs.last());
                }
            }
        }
    }
}

/// Appending a non-empty token to a join adds a separator unless the
/// join was of no tokens at all.
proof fn lemma_join_push(toks: Seq<Seq<char>>, t: Seq<char>)
    ensures
        toks.len() == 0 ==> join_tokens(toks.push(t)) == t,
        toks.len() > 0 ==> join_tokens(toks.push(t)) == join_tokens(toks) + seq!['_'] + t,
{
    assert((toks.push(t)).drop_last() =~= toks);
    assert((toks.push(t)).last() =~= t);
    if toks.len() == 0 {
        assert(join_tokens(toks.push(t)) == toks.push(t)[0]);
        assert(toks.push(t)[0] =~= t);
    }
}

proof fn lemma_join_tokens_nonempty(toks: Seq<Seq<char>>)
    requires
        toks.len() > 0,
        forall|i: int| 0 <= i < toks.len() ==> #[trigger] toks[i].len() > 0,
    ensures
        join_tokens(toks).len() > 0,
    decreases toks.len(),
{
    if toks.len() > 1 {
        lemma_join_tokens_nonempty(toks.drop_last());
    }
}

/// Whether the first `n` characters, lower-cased, are `kw`.
fn lower_prefix_is(v: &Vec<char>, n: usize, kw: &Vec<char>) -> (r: bool)
    requires
        n == kw@.len(),
    ensures
        r == (v@.len() >= n && lower_seq(v@.take(n as int)) == kw@),
{
    if v.len() < n {
        return false;
    }
    let mut i: usize = 0;
    while i < n
        invariant
            0 <= i <= n,
            n == kw@.len(),
            n <= v@.len(),
            forall|j: int| 0 <= j < i ==> lower_char(v@[j]) == kw@[j],
        decreases n - i,
    {
        if to_lower_char(v[i]) != kw[i] {
            proof {
                assert(lower_seq(v@.take(n as int))[i as int] == lower_char(v@[i as int]));
            }
            return false;
        }
        i = i + 1;
    }
    proof {
        assert(lower_seq(v@.take(n as int)) =~= kw@);
    }
    true
}

/// Remove the characters before position `k`.
fn tail_from(v: &Vec<char>, k: usize) -> (r: Vec<char>)
    requires
        k <= v@.len(),
    ensures
        r@ == v@.skip(k as int),
{
    let mut out: Vec<char> = Vec::new();
    let mut i: usize = k;
    while i < v.len()
        invariant
            k <= i <= v@.len(),
            out@ == v@.subrange(k as int, i as int),
        decreases v@.len() - i,
    {
        out.push(v[i]);
        proof {
            assert(v@.subrange(k as int, i + 1 as int) =~= v@.subrange(k as int, i as int).push(
                v@[i as int],
            ));
        }
        i = i + 1;
    }
    proof {
        assert(v@.subrange(k as int, v@.len() as int) =~= v@.skip(k as int));
    }
    out
}

/// Remove leading and trailing whitespace.
pub fn trim_chars(v: &Vec<char>) -> (r: Vec<char>)
    ensures
        r@ == trim_spec(v@),
{
    proof {
        assert(v@.skip(0) =~= v@);
    }
    let mut start: usize = 0;
    while start < v.len() && char_is_whitespace(v[start])
        invariant
            0 <= start <= v@.len(),
            trim_front(v@) == trim_front(v@.skip(start as int)),
        decreases v@.len() - start,
    {
        proof {
            assert(v@.skip(start as int).drop_first() =~= v@.skip(start + 1 as int));
        }
        start = start + 1;
    }
    proof {
        assert(trim_front(v@.skip(start as int)) == v@.skip(start as int));
    }
    proof {
        assert(v@.skip(start as int).take((v@.len() - start) as int) =~= v@.skip(start as int));
    }
    let mut end: usize = v.len();
    while end > start && char_is_whitespace(v[end - 1])
        invariant
            start <= end <= v@.len(),
            trim_front(v@) == v@.skip(start as int),
            trim_back(v@.skip(start as int)) == trim_back(
                v@.skip(start as int).take((end - start) as int),
            ),
        decreases end,
    {
        proof {
            let t = v@.skip(start as int).take((end - start) as int);
            assert(t.last() == v@[end - 1]);
            assert(t.drop_last() =~= v@.skip(start as int).take((end - 1 - start) as int));
        }
        end = end - 1;
    }
    proof {
        let t = v@.skip(start as int).take((end - start) as int);
        if end > start {
            assert(t.last() == v@[end - 1]);
            assert(!whitespace(t.last()));
        }
        assert(trim_back(t) == t);
    }
    let mut out: Vec<char> = Vec::new();
    let mut i: usize = start;
    while i < end
        invariant
            start <= i <= end <= v@.len(),
            out@ == v@.subrange(start as int, i as int),
        decreases end - i,
    {
        out.push(v[i]);
        proof {
            assert(v@.subrange(start as int, i + 1 as int) =~= v@.subrange(
                start as int,
                i as int,
            ).push(v@[i as int]));
        }
        i = i + 1;
    }
    proof {
        assert(v@.subrange(start as int, end as int) =~= v@.skip(start as int).take(
            (end - start) as int,
        ));
    }
    out
}

/// Remove at most one leading keyword.
fn strip_keyword_chars(v: &Vec<char>) -> (r: Vec<char>)
    ensures
        r@ == strip_keyword(v@),
{
    let kw_w: Vec<char> = vec!['w', 'h', 'e', 'n', ' '];
    let kw_g: Vec<char> = vec!['g', 'i', 'v', 'e', 'n', ' '];
    let kw_i: Vec<char> = vec!['i', 't', ' '];
    proof {
        assert(kw_w@ =~= kw_when());
        assert(kw_g@ =~= kw_given());
        assert(kw_i@ =~= kw_it());
    }
    if lower_prefix_is(v, 5, &kw_w) {
        tail_from(v, 5)
    } else if lower_prefix_is(v, 6, &kw_g) {
        tail_from(v, 6)
    } else if lower_prefix_is(v, 3, &kw_i) {
        tail_from(v, 3)
    } else {
        let mut out: Vec<char> = Vec::new();
        let mut i: usize = 0;
        while i < v.len()
            invariant
                0 <= i <= v@.len(),
                out@ == v@.take(i as int),
            decreases v@.len() - i,
        {
            out.push(v[i]);
            proof {
                assert(v@.take(i + 1 as int) =~= v@.take(i as int).push(v@[i as int]));
            }
            i = i + 1;
        }
        proof {
            assert(v@.take(v@.len() as int) =~= v@);
        }
        out
    }
}

/// Map every character for naming.
fn map_chars(v: &Vec<char>) -> (r: Vec<char>)
    ensures
        r@ == mapped(v@),
{
    let mut out: Vec<char> = Vec::new();
    let mut i: usize = 0;
    while i < v.len()
        invariant
            0 <= i <= v@.len(),
            out@ == mapped(v@.take(i as int)),
        decreases v@.len() - i,
    {
        let c = v[i];
        proof {
            let p = v@.take(i + 1 as int);
            assert(p.drop_last() =~= v@.take(i as int));
            assert(p.last() == v@[i as int]);
        }
        if char_is_alphanumeric(c) {
            out.push(to_lower_char(c));
            proof {
                assert(out@ =~= mapped(v@.take(i + 1 as int)));
            }
        } else if char_is_whitespace(c) {
            out.push('_');
            proof {
                assert(out@ =~= mapped(v@.take(i + 1 as int)));
            }
        } else {
            proof {
                assert(out@ =~= mapped(v@.take(i + 1 as int)));
            }
        }
        i = i + 1;
    }
    proof {
        assert(v@.take(v@.len() as int) =~= v@);
    }
    out
}

/// Collapse separator runs: keep the non-empty `_`-delimited segments,
/// joined with single `_`s.
fn collapse_chars(m: &Vec<char>) -> (r: Vec<char>)
    ensures
        r@ == join_tokens(keep_nonempty(segments(m@))),
{
    proof {
        assert(m@.take(0) =~= Seq::<char>::empty());
        assert(segments(Seq::<char>::empty()).drop_last() =~= Seq::<Seq<char>>::empty());
        assert(keep_nonempty(Seq::<Seq<char>>::empty()) =~= Seq::<Seq<char>>::empty());
        assert(keep_nonempty(segments(Seq::<char>::empty())) =~= Seq::<Seq<char>>::empty());
        assert(join_tokens(keep_nonempty(segments(Seq::<char>::empty()))) =~= Seq::<char>::empty());
    }
    let mut out: Vec<char> = Vec::new();
    let mut pending: bool = false;
    let mut i: usize = 0;
    while i < m.len()
        invariant
            0 <= i <= m@.len(),
            out@ == join_tokens(keep_nonempty(segments(m@.take(i as int)))),
            segments(m@.take(i as int)).len() > 0,
            pending == (segments(m@.take(i as int)).last().len() == 0 && out@.len() > 0),
        decreases m@.len() - i,
    {
        let c = m[i];
        proof {
            let p = m@.take(i + 1 as int);
            assert(p.drop_last() =~= m@.take(i as int));
            assert(p.last() == m@[i as int]);
            lemma_segments_len(m@.take(i + 1 as int));
        }
        let ghost segs = segments(m@.take(i as int));
        let ghost segs2 = segments(m@.take(i + 1 as int));
        let ghost kept = keep_nonempty(segs);
        if c == '_' {
            if out.len() > 0 {
                pending = true;
            }
            proof {
                assert(segs2 =~= segs.push(Seq::empty()));
                assert((segs.push(Seq::<char>::empty())).drop_last() =~= segs);
                assert(keep_nonempty(segs2) =~= kept);
            }
        } else {
            proof {
                let e = m@[i as int];
                assert(segs2 =~= segs.update(segs.len() - 1, segs.last().push(e)));
                assert(segs2.drop_last() =~= segs.drop_last());
                assert(segs2.last() =~= segs.last().push(e));
                lemma_keep_nonempty_all(segs);
                if segs.last().len() == 0 {
                    // A token begins here.
                    assert(kept =~= keep_nonempty(segs.drop_last()));
                    assert(keep_nonempty(segs2) =~= kept.push(segs2.last()));
                    assert(segs2.last() =~= seq![e]);
                    lemma_join_push(kept, segs2.last());
                    if kept.len() > 0 {
                        lemma_join_tokens_nonempty(kept);
                    }
                } else {
                    // The current token grows.
                    let k0 = keep_nonempty(segs.drop_last());
                    assert(kept =~= k0.push(segs.last()));
                    assert(keep_nonempty(segs2) =~= k0.push(segs2.last()));
                    lemma_join_push(k0, segs.last());
                    lemma_join_push(k0, segs2.last());
                }
            }
            if pending {
                out.push('_');
                out.push(c);
                proof {
                    assert(out@ =~= join_tokens(keep_nonempty(segs2)));
                }
            } else {
                out.push(c);
                proof {
                    assert(out@ =~= join_tokens(keep_nonempty(segs2)));
                }
            }
            pending = false;
        }
        i = i + 1;
    }
    proof {
        assert(m@.take(m@.len() as int) =~= m@);
    }
    out
}

/// Convert a title to its canonical identifier.
///
/// Strips at most one leading BDD keyword (`when`, `given` or `it`, any
/// casing, followed by a space), lower-cases the whitespace-delimited
/// tokens, keeps their alphanumeric characters, drops empty tokens and
/// joins the rest with `_`.
pub fn to_snake_case(s: &str) -> (r: String)
    ensures
        r@ == slug(s@),
{
    let cs = str_to_chars(s);
    let trimmed = trim_chars(&cs);
    let stripped = strip_keyword_chars(&trimmed);
    let m = map_chars(&stripped);
    let collapsed = collapse_chars(&m);
    chars_to_string(&collapsed)
}

/// Mapping a sequence for naming sees through ASCII case: the mapped
/// form of a title equals the mapped form of its lower-cased self.
proof fn lemma_mapped_of_lower(s: Seq<char>)
    ensures
        mapped(lower_seq(s)) == mapped(s),
    decreases s.len(),
{
    if s.len() == 0 {
        assert(lower_seq(s) =~= s);
    } else {
        lemma_mapped_of_lower(s.drop_last());
        assert(lower_seq(s).drop_last() =~= lower_seq(s.drop_last()));
        assert(lower_seq(s).last() == lower_char(s.last()));
        crate::chars::lemma_lower_char_classes(s.last());
        assert(mapped(lower_seq(s)) =~= mapped(s));
    }
}

/// Purity of naming: two titles that agree after keyword stripping and
/// ASCII case folding have the same canonical identifier.
pub proof fn lemma_slug_of_normalized(a: Seq<char>, b: Seq<char>)
    requires
        lower_seq(strip_keyword(trim_spec(a))) == lower_seq(strip_keyword(trim_spec(b))),
    ensures
        slug(a) == slug(b),
{
    lemma_mapped_of_lower(strip_keyword(trim_spec(a)));
    lemma_mapped_of_lower(strip_keyword(trim_spec(b)));
}

} // verus!
