//! Grapheme clusters and display widths, from the `unicode-segmentation`
//! and `unicode-width` crates.

use vstd::prelude::*;
use unicode_segmentation::UnicodeSegmentation;
use unicode_width::UnicodeWidthStr;

verus! {

/// The concatenation of a sequence of character sequences.
pub open spec fn concat(gs: Seq<Seq<char>>) -> Seq<char>
    decreases gs.len(),
{
    if gs.len() == 0 {
        Seq::empty()
    } else {
        concat(gs.drop_last()) + gs.last()
    }
}

/// Every element is non-empty.
pub open spec fn all_nonempty(gs: Seq<Seq<char>>) -> bool {
    forall|i: int| 0 <= i < gs.len() ==> (#[trigger] gs[i]).len() > 0
}

/// Concatenation distributes over `+`.
pub proof fn lemma_concat_append(a: Seq<Seq<char>>, b: Seq<Seq<char>>)
    ensures
        concat(a + b) == concat(a) + concat(b),
    decreases b.len(),
{
    if b.len() == 0 {
        assert(a + b =~= a);
        assert(concat(a) + concat(b) =~= concat(a));
    } else {
        lemma_concat_append(a, b.drop_last());
        assert((a + b).drop_last() =~= a + b.drop_last());
        assert((a + b).last() == b.last());
        assert(concat(a) + concat(b.drop_last()) + b.last() =~= concat(a) + (concat(b.drop_last())
            + b.last()));
    }
}

/// A concatenation of non-empty pieces is at least as long as there are pieces.
pub proof fn lemma_concat_len(gs: Seq<Seq<char>>)
    requires
        all_nonempty(gs),
    ensures
        concat(gs).len() >= gs.len(),
    decreases gs.len(),
{
    if gs.len() > 0 {
        assert(gs.last() == gs[gs.len() - 1]);
        assert forall|i: int| 0 <= i < gs.drop_last().len() implies (
        #[trigger] gs.drop_last()[i]).len() > 0 by {
            assert(gs.drop_last()[i] == gs[i]);
        }
        lemma_concat_len(gs.drop_last());
    }
}

/// The extended grapheme clusters of a string, as the `unicode-segmentation`
/// crate splits it.
pub uninterp spec fn graphemes_of(s: Seq<char>) -> Seq<Seq<char>>;

/// Calls `UnicodeSegmentation::graphemes(s, true)`. The clusters are
/// consecutive non-empty slices of `s` (the crate's `Graphemes::next` yields
/// `&s[start..next]` with `next` past `start`), so they concatenate to `s`.
#[verifier::external_body]
pub(crate) fn graphemes(s: &str) -> (r: Vec<String>)
    ensures
        r.deep_view() == graphemes_of(s@),
        concat(r.deep_view()) == s@,
        all_nonempty(r.deep_view()),
{
    s.graphemes(true).map(String::from).collect()
}

/// The displayed width of a string in terminal columns, as the
/// `unicode-width` crate computes it.
pub uninterp spec fn str_width(s: Seq<char>) -> usize;

/// Every character is at most U+00A0 and none is a carriage return.
pub open spec fn narrow_chars(s: Seq<char>) -> bool {
    forall|i: int| 0 <= i < s.len() ==> s[i] <= '\u{A0}' && s[i] != '\r'
}

/// Calls `UnicodeWidthStr::width`. Its fold starts from zero, so the empty
/// string has width zero. Each character up to U+00A0 adds one column
/// (`width_in_str`), except a carriage return before a line feed, and no
/// such character starts an emoji sequence; so a string of such characters
/// without a carriage return is as wide as it is long. Nothing else about
/// the value is stated.
#[verifier::external_body]
pub(crate) fn display_width(s: &str) -> (r: usize)
    ensures
        r == str_width(s@),
        s@.len() == 0 ==> r == 0,
        narrow_chars(s@) ==> r == s@.len(),
{
    UnicodeWidthStr::width(s)
}

/// The characters of the clusters `gs[from..to]`.
pub fn concat_range(gs: &Vec<String>, from: usize, to: usize) -> (r: Vec<char>)
    requires
        from <= to <= gs.len(),
    ensures
        r@ == concat(gs.deep_view().subrange(from as int, to as int)),
{
    let mut out: Vec<char> = Vec::new();
    let mut i = from;
    assert(gs.deep_view().subrange(from as int, from as int) =~= Seq::<Seq<char>>::empty());
    while i < to
        invariant
            from <= i <= to <= gs.len(),
            out@ == concat(gs.deep_view().subrange(from as int, i as int)),
        decreases to - i,
    {
        crate::text::push_str_chars(&mut out, gs[i].as_str());
        i = i + 1;
        assert(gs.deep_view().subrange(from as int, i as int).drop_last() =~= gs.deep_view().subrange(
            from as int,
            i - 1,
        ));
    }
    out
}

/// The number of grapheme clusters of a string.
pub fn grapheme_count(s: &str) -> (r: usize)
    ensures
        r == graphemes_of(s@).len(),
{
    let gs = graphemes(s);
    gs.len()
}

/// The number of grapheme clusters never exceeds the number of characters.
pub proof fn lemma_grapheme_count_bound(gs: Seq<Seq<char>>, s: Seq<char>)
    requires
        concat(gs) == s,
        all_nonempty(gs),
    ensures
        gs.len() <= s.len(),
{
    lemma_concat_len(gs);
}

} // verus!
