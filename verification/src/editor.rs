//! The line editor behind the input box: a cursor that moves over grapheme
//! clusters, insertion and deletion, line navigation and word motion.

use vstd::prelude::*;
use crate::text::{chars_of, string_of, push_all, lines_of, lines_chars, line_count, char_index, lemma_char_index};
use crate::unicode::{concat, graphemes, graphemes_of, concat_range, display_width, str_width, lemma_grapheme_count_bound};

verus! {

/// `cursor` limited to `n`.
pub open spec fn clamp(cursor: int, n: int) -> int {
    if cursor < n {
        cursor
    } else {
        n
    }
}

/// The input after typing `c` before the cluster at `cursor` (or at the end).
pub open spec fn insert_char_spec(s: Seq<char>, cursor: int, c: char) -> Seq<char> {
    let gs = graphemes_of(s);
    let k = clamp(cursor, gs.len() as int);
    concat(gs.take(k)) + seq![c] + concat(gs.skip(k))
}

/// The input without the cluster at `cursor`, when there is one.
pub open spec fn delete_at_spec(s: Seq<char>, cursor: int) -> Option<Seq<char>> {
    let gs = graphemes_of(s);
    if 0 <= cursor < gs.len() {
        Some(concat(gs.take(cursor)) + concat(gs.skip(cursor + 1)))
    } else {
        None
    }
}

/// Inserts `c` at the cursor, counted in grapheme clusters.
pub fn insert_char_at(input: &str, cursor: usize, c: char) -> (r: String)
    ensures
        r@ == insert_char_spec(input@, cursor as int, c),
{
    let gs = graphemes(input);
    let k = if cursor < gs.len() {
        cursor
    } else {
        gs.len()
    };
    let mut out = concat_range(&gs, 0, k);
    out.push(c);
    let rest = concat_range(&gs, k, gs.len());
    push_all(&mut out, &rest);
    proof {
        let g = gs.deep_view();
        assert(g.subrange(0, k as int) =~= g.take(k as int));
        assert(g.subrange(k as int, g.len() as int) =~= g.skip(k as int));
    }
    string_of(&out)
}

/// Deletes the cluster at the cursor; `None` when the cursor is past the end.
pub fn delete_at(input: &str, cursor: usize) -> (r: Option<String>)
    ensures
        match r {
            Some(s) => delete_at_spec(input@, cursor as int) == Some(s@),
            None => delete_at_spec(input@, cursor as int) is None,
        },
{
    let gs = graphemes(input);
    if cursor < gs.len() {
        let mut out = concat_range(&gs, 0, cursor);
        let rest = concat_range(&gs, cursor + 1, gs.len());
        push_all(&mut out, &rest);
        proof {
            let g = gs.deep_view();
            assert(g.subrange(0, cursor as int) =~= g.take(cursor as int));
            assert(g.subrange(cursor + 1, g.len() as int) =~= g.skip(cursor + 1));
        }
        Some(string_of(&out))
    } else {
        None
    }
}

/// The cluster is a lone line feed.
pub open spec fn is_newline(g: Seq<char>) -> bool {
    g == seq!['\n']
}

/// The number of lone line-feed clusters among the first `k`.
pub open spec fn newlines_before(gs: Seq<Seq<char>>, k: int) -> nat
    decreases k,
{
    if k <= 0 {
        0
    } else {
        newlines_before(gs, k - 1) + (if is_newline(gs[k - 1]) {
            1nat
        } else {
            0nat
        })
    }
}

/// The first index from `i` on at which `line` line feeds precede, or zero.
pub open spec fn line_start_from(gs: Seq<Seq<char>>, line: nat, i: int) -> int
    decreases gs.len() - i,
{
    if i < 0 || i >= gs.len() {
        0
    } else if newlines_before(gs, i) == line {
        i
    } else {
        line_start_from(gs, line, i + 1)
    }
}

/// The index of the first cluster of line `line` (zero when there is none).
pub open spec fn line_start(gs: Seq<Seq<char>>, line: nat) -> int {
    line_start_from(gs, line, 0)
}

proof fn lemma_newlines_before_bound(gs: Seq<Seq<char>>, k: int)
    ensures
        newlines_before(gs, k) <= if k < 0 {
            0
        } else {
            k
        },
    decreases k,
{
    if k > 0 {
        lemma_newlines_before_bound(gs, k - 1);
    }
}

proof fn lemma_line_start_from_bound(gs: Seq<Seq<char>>, line: nat, i: int)
    ensures
        0 <= line_start_from(gs, line, i),
        gs.len() == 0 || line_start_from(gs, line, i) < gs.len(),
    decreases gs.len() - i,
{
    if 0 <= i < gs.len() && newlines_before(gs, i) != line {
        lemma_line_start_from_bound(gs, line, i + 1);
    }
}

fn is_newline_cluster(g: &String) -> (r: bool)
    ensures
        r == is_newline(g@),
{
    let v = chars_of(g.as_str());
    let r = v.len() == 1 && v[0] == '\n';
    assert(r ==> v@ =~= seq!['\n']);
    r
}

/// Where the cursor stands on screen, as (line, column): the line is the
/// number of line feeds before the cursor; the column is the display width of
/// everything before the cursor, or, at the very end, of the last line.
pub open spec fn cursor_position_spec(s: Seq<char>, cursor: int) -> (nat, nat) {
    let gs = graphemes_of(s);
    let n = gs.len() as int;
    if cursor < n {
        (newlines_before(gs, cursor), str_width(concat(gs.take(cursor))) as nat)
    } else if cursor == n {
        let l = newlines_before(gs, n);
        (l, str_width(concat(gs.skip(line_start(gs, l)))) as nat)
    } else {
        (newlines_before(gs, n), 0)
    }
}

/// The first cluster of line `line` (zero when there is none).
pub fn line_start_position(input: &str, line: usize) -> (r: usize)
    ensures
        r == line_start(graphemes_of(input@), line as nat),
{
    let gs = graphemes(input);
    let ghost g = gs.deep_view();
    let mut current_line: usize = 0;
    let mut i: usize = 0;
    while i < gs.len()
        invariant
            i <= gs.len(),
            g == gs.deep_view(),
            g == graphemes_of(input@),
            current_line == newlines_before(g, i as int),
            line_start_from(g, line as nat, 0) == line_start_from(g, line as nat, i as int),
        decreases gs.len() - i,
    {
        if current_line == line {
            return i;
        }
        proof {
            lemma_newlines_before_bound(g, i as int);
        }
        if is_newline_cluster(&gs[i]) {
            current_line = current_line + 1;
        }
        i = i + 1;
    }
    0
}

/// The on-screen (line, column) of the cursor.
pub fn cursor_position(input: &str, cursor: usize) -> (r: (usize, usize))
    ensures
        (r.0 as nat, r.1 as nat) == cursor_position_spec(input@, cursor as int),
{
    let gs = graphemes(input);
    let ghost g = gs.deep_view();
    let mut current_line: usize = 0;
    let mut current_column: usize = 0;
    let mut i: usize = 0;
    while i < gs.len()
        invariant
            i <= gs.len(),
            g == gs.deep_view(),
            g == graphemes_of(input@),
            current_line == newlines_before(g, i as int),
            current_column == 0,
            i <= cursor,
        decreases gs.len() - i,
    {
        if i == cursor {
            let before = concat_range(&gs, 0, i);
            let before_s = string_of(&before);
            current_column = display_width(before_s.as_str());
            assert(g.subrange(0, i as int) =~= g.take(i as int));
            return (current_line, current_column);
        }
        proof {
            lemma_newlines_before_bound(g, i as int);
        }
        if is_newline_cluster(&gs[i]) {
            current_line = current_line + 1;
        }
        i = i + 1;
    }
    if cursor == gs.len() {
        let start = line_start_position(input, current_line);
        proof {
            lemma_line_start_from_bound(g, current_line as nat, 0);
        }
        let last = concat_range(&gs, start, gs.len());
        let last_s = string_of(&last);
        current_column = display_width(last_s.as_str());
        assert(g.subrange(start as int, g.len() as int) =~= g.skip(start as int));
    }
    (current_line, current_column)
}

/// The number of lines shown for an input (at least one).
pub open spec fn input_line_count_spec(s: Seq<char>) -> nat {
    if lines_of(s).len() > 1 {
        lines_of(s).len()
    } else {
        1
    }
}

/// `input.lines().count().max(1)`.
pub fn input_line_count(input: &str) -> (r: usize)
    ensures
        r == input_line_count_spec(input@),
{
    let n = line_count(input);
    if n > 1 {
        n
    } else {
        1
    }
}

/// Every line of `s` is at most as long as `s`.
pub proof fn lemma_lines_len_bound(s: Seq<char>)
    ensures
        forall|t: int| 0 <= t < lines_of(s).len() ==> (#[trigger] lines_of(s)[t]).len() <= s.len(),
    decreases s.len(),
{
    if s.len() > 0 {
        let i = char_index(s, '\n');
        lemma_char_index(s, '\n');
        if i < s.len() {
            let rest = s.subrange(i + 1, s.len() as int);
            lemma_lines_len_bound(rest);
            assert forall|t: int| 0 <= t < lines_of(s).len() implies (
            #[trigger] lines_of(s)[t]).len() <= s.len() by {
                if t > 0 {
                    assert(lines_of(s)[t] == lines_of(rest)[t - 1]);
                }
            }
        }
    }
}

/// The cursor after moving up one line: onto the previous line, in the same
/// column where that line is long enough.
pub open spec fn cursor_up_spec(s: Seq<char>, cursor: int) -> int {
    let ls = lines_of(s);
    let gs = graphemes_of(s);
    let (cl, cc) = cursor_position_spec(s, cursor);
    if ls.len() <= 1 || cl == 0 || cl - 1 >= ls.len() {
        cursor
    } else {
        let t = cl - 1;
        let width = graphemes_of(ls[t as int]).len() as int;
        line_start(gs, t as nat) + (if cc < width {
            cc as int
        } else {
            width
        })
    }
}

/// The cursor after moving down one line.
pub open spec fn cursor_down_spec(s: Seq<char>, cursor: int) -> int {
    let ls = lines_of(s);
    let gs = graphemes_of(s);
    let (cl, cc) = cursor_position_spec(s, cursor);
    if ls.len() <= 1 || cl >= ls.len() - 1 {
        cursor
    } else {
        let t = cl + 1;
        let width = graphemes_of(ls[t as int]).len() as int;
        line_start(gs, t as nat) + (if cc < width {
            cc as int
        } else {
            width
        })
    }
}

fn cursor_on_line(input: &Vec<char>, input_s: &str, lines: &Vec<Vec<char>>, target: usize, column: usize) -> (r: usize)
    requires
        input@ == input_s@,
        input@.len() <= isize::MAX,
        lines.deep_view() == lines_of(input@),
        target < lines.len(),
    ensures
        r == line_start(graphemes_of(input@), target as nat) + (if column < graphemes_of(
            lines.deep_view()[target as int],
        ).len() {
            column as int
        } else {
            graphemes_of(lines.deep_view()[target as int]).len() as int
        }),
{
    let start = line_start_position(input_s, target);
    let line_s = string_of(&lines[target]);
    let line_gs = graphemes(line_s.as_str());
    let width = line_gs.len();
    let gs_all = graphemes(input_s);
    proof {
        lemma_grapheme_count_bound(gs_all.deep_view(), input@);
        lemma_lines_len_bound(input@);
        assert(lines.deep_view()[target as int] == lines@[target as int]@);
        lemma_grapheme_count_bound(line_gs.deep_view(), line_s@);
        lemma_line_start_from_bound(gs_all.deep_view(), target as nat, 0);
    }
    let col = if column < width {
        column
    } else {
        width
    };
    start + col
}

/// Moves the cursor up one line of a multi-line input.
pub fn cursor_up(input: &str, cursor: usize) -> (r: usize)
    ensures
        r == cursor_up_spec(input@, cursor as int),
{
    let v = chars_of(input);
    let lines = lines_chars(&v);
    if lines.len() <= 1 {
        return cursor;
    }
    let (cl, cc) = cursor_position(input, cursor);
    if cl == 0 || cl - 1 >= lines.len() {
        return cursor;
    }
    cursor_on_line(&v, input, &lines, cl - 1, cc)
}

/// Moves the cursor down one line of a multi-line input.
pub fn cursor_down(input: &str, cursor: usize) -> (r: usize)
    ensures
        r == cursor_down_spec(input@, cursor as int),
{
    let v = chars_of(input);
    let lines = lines_chars(&v);
    if lines.len() <= 1 {
        return cursor;
    }
    let (cl, cc) = cursor_position(input, cursor);
    if cl >= lines.len() - 1 {
        return cursor;
    }
    cursor_on_line(&v, input, &lines, cl + 1, cc)
}


/// The cluster consists of white space only.
pub open spec fn is_space_cluster(g: Seq<char>) -> bool {
    crate::text::all_white_space(g)
}

fn is_space_cluster_exec(g: &String) -> (r: bool)
    ensures
        r == is_space_cluster(g@),
{
    let v = chars_of(g.as_str());
    let mut i: usize = 0;
    while i < v.len()
        invariant
            i <= v.len(),
            v@ == g@,
            forall|j: int| 0 <= j < i ==> crate::text::is_white_space(#[trigger] v@[j]),
        decreases v.len() - i,
    {
        if !crate::text::char_is_whitespace(v[i]) {
            return false;
        }
        i = i + 1;
    }
    true
}

/// The first position from `pos` on that is not inside a word.
pub open spec fn skip_word(gs: Seq<Seq<char>>, pos: int) -> int
    decreases gs.len() - pos,
{
    if 0 <= pos < gs.len() && !is_space_cluster(gs[pos]) {
        skip_word(gs, pos + 1)
    } else {
        pos
    }
}

/// The first position from `pos` on that is not white space.
pub open spec fn skip_space(gs: Seq<Seq<char>>, pos: int) -> int
    decreases gs.len() - pos,
{
    if 0 <= pos < gs.len() && is_space_cluster(gs[pos]) {
        skip_space(gs, pos + 1)
    } else {
        pos
    }
}

/// The cursor after moving to the start of the next word.
pub open spec fn next_word_spec(s: Seq<char>, cursor: int) -> int {
    let gs = graphemes_of(s);
    clamp(skip_space(gs, skip_word(gs, cursor)), gs.len() as int)
}

proof fn lemma_skip_word_ge(gs: Seq<Seq<char>>, pos: int)
    ensures
        skip_word(gs, pos) >= pos,
        pos <= gs.len() ==> skip_word(gs, pos) <= gs.len(),
    decreases gs.len() - pos,
{
    if 0 <= pos < gs.len() && !is_space_cluster(gs[pos]) {
        lemma_skip_word_ge(gs, pos + 1);
    }
}

proof fn lemma_skip_space_ge(gs: Seq<Seq<char>>, pos: int)
    ensures
        skip_space(gs, pos) >= pos,
        pos <= gs.len() ==> skip_space(gs, pos) <= gs.len(),
    decreases gs.len() - pos,
{
    if 0 <= pos < gs.len() && is_space_cluster(gs[pos]) {
        lemma_skip_space_ge(gs, pos + 1);
    }
}

/// Moves the cursor to the start of the next word.
pub fn next_word(input: &str, cursor: usize) -> (r: usize)
    ensures
        r == next_word_spec(input@, cursor as int),
{
    let gs = graphemes(input);
    let ghost g = gs.deep_view();
    let mut pos = cursor;
    while pos < gs.len() && !is_space_cluster_exec(&gs[pos])
        invariant
            g == gs.deep_view(),
            cursor <= pos,
            skip_word(g, cursor as int) == skip_word(g, pos as int),
        decreases gs.len() - pos,
    {
        pos = pos + 1;
    }
    let ghost mid = pos;
    while pos < gs.len() && is_space_cluster_exec(&gs[pos])
        invariant
            g == gs.deep_view(),
            mid <= pos,
            skip_space(g, mid as int) == skip_space(g, pos as int),
        decreases gs.len() - pos,
    {
        pos = pos + 1;
    }
    if pos < gs.len() {
        pos
    } else {
        gs.len()
    }
}

/// The position reached from `pos` by stepping back over white space.
pub open spec fn back_space(gs: Seq<Seq<char>>, pos: int) -> int
    decreases pos,
{
    if pos > 0 && is_space_cluster(gs[pos]) {
        back_space(gs, pos - 1)
    } else {
        pos
    }
}

/// The position reached from `pos` by stepping back to the start of a word.
pub open spec fn back_word(gs: Seq<Seq<char>>, pos: int) -> int
    decreases pos,
{
    if pos > 0 && !is_space_cluster(gs[pos - 1]) {
        back_word(gs, pos - 1)
    } else {
        pos
    }
}

/// The cursor after moving to the start of the previous word.
pub open spec fn prev_word_spec(s: Seq<char>, cursor: int) -> int {
    let gs = graphemes_of(s);
    if cursor <= 0 {
        0
    } else {
        back_word(gs, back_space(gs, cursor - 1))
    }
}

/// The cursor may step back over words: it is at or before the end of the
/// input, or on the second position (where nothing is inspected).
pub open spec fn prev_word_allowed(s: Seq<char>, cursor: int) -> bool {
    cursor <= graphemes_of(s).len() || cursor == 1
}

proof fn lemma_back_space_le(gs: Seq<Seq<char>>, pos: int)
    ensures
        back_space(gs, pos) <= pos,
        pos >= 0 ==> back_space(gs, pos) >= 0,
    decreases pos,
{
    if pos > 0 && is_space_cluster(gs[pos]) {
        lemma_back_space_le(gs, pos - 1);
    }
}

/// Moves the cursor to the start of the previous word.
pub fn prev_word(input: &str, cursor: usize) -> (r: usize)
    requires
        prev_word_allowed(input@, cursor as int),
    ensures
        r == prev_word_spec(input@, cursor as int),
{
    if cursor == 0 {
        return 0;
    }
    let gs = graphemes(input);
    let ghost g = gs.deep_view();
    let mut pos = cursor - 1;
    while pos > 0 && is_space_cluster_exec(&gs[pos])
        invariant
            g == gs.deep_view(),
            pos < cursor,
            pos == 0 || pos < gs.len(),
            back_space(g, cursor - 1) == back_space(g, pos as int),
        decreases pos,
    {
        pos = pos - 1;
    }
    let ghost mid = pos;
    while pos > 0 && !is_space_cluster_exec(&gs[pos - 1])
        invariant
            g == gs.deep_view(),
            pos <= mid,
            pos == 0 || pos <= gs.len(),
            back_word(g, mid as int) == back_word(g, pos as int),
        decreases pos,
    {
        pos = pos - 1;
    }
    pos
}

/// The selected range of clusters, end exclusive.
pub open spec fn selection_range_spec(visual_start: Option<usize>, cursor: int) -> Option<(int, int)> {
    match visual_start {
        Some(start) => if start <= cursor {
            Some((start as int, cursor + 1))
        } else {
            Some((cursor, start + 1))
        },
        None => None,
    }
}

/// The selected range of clusters, end exclusive.
pub fn selection_range(visual_start: Option<usize>, cursor: usize) -> (r: Option<(usize, usize)>)
    requires
        cursor < usize::MAX,
        visual_start matches Some(s) ==> s < usize::MAX,
    ensures
        match r {
            Some((a, b)) => selection_range_spec(visual_start, cursor as int) == Some(
                (a as int, b as int),
            ),
            None => selection_range_spec(visual_start, cursor as int) is None,
        },
{
    match visual_start {
        Some(start) => {
            if start <= cursor {
                Some((start, cursor + 1))
            } else {
                Some((cursor, start + 1))
            }
        },
        None => None,
    }
}

/// The input without the clusters in `[from, to)`.
pub open spec fn cut_spec(s: Seq<char>, from: int, to: int) -> Seq<char> {
    let gs = graphemes_of(s);
    let n = gs.len() as int;
    concat(gs.take(clamp(from, n))) + concat(gs.skip(clamp(if to < from { from } else { to }, n)))
}

/// Removes the clusters in `[from, to)` (where `from <= to`).
pub fn cut_range(input: &str, from: usize, to: usize) -> (r: String)
    requires
        from <= to,
    ensures
        r@ == cut_spec(input@, from as int, to as int),
{
    let gs = graphemes(input);
    let a = if from < gs.len() {
        from
    } else {
        gs.len()
    };
    let b = if to < gs.len() {
        to
    } else {
        gs.len()
    };
    let mut out = concat_range(&gs, 0, a);
    let rest = concat_range(&gs, b, gs.len());
    push_all(&mut out, &rest);
    proof {
        let g = gs.deep_view();
        assert(g.subrange(0, a as int) =~= g.take(a as int));
        assert(g.subrange(b as int, g.len() as int) =~= g.skip(b as int));
    }
    string_of(&out)
}

/// `s` cut to `max_chars` characters, with "..." appended when it was longer.
pub open spec fn truncate_spec(s: Seq<char>, max_chars: int) -> Seq<char> {
    if s.len() <= max_chars {
        s
    } else {
        s.take(max_chars) + "..."@
    }
}

/// Shortens a string to at most `max_chars` characters plus an ellipsis.
pub fn truncate_chars(s: &str, max_chars: usize) -> (r: String)
    ensures
        r@ == truncate_spec(s@, max_chars as int),
{
    let v = chars_of(s);
    if v.len() <= max_chars {
        string_of(&v)
    } else {
        let mut out = crate::text::slice_chars(&v, 0, max_chars);
        crate::text::push_str_chars(&mut out, "...");
        string_of(&out)
    }
}

/// The index of the first cluster of the line that holds position `k`: just
/// after the nearest line feed before `k`, or zero.
pub open spec fn line_begin(gs: Seq<Seq<char>>, k: int) -> int
    decreases k,
{
    if k <= 0 {
        0
    } else if is_newline(gs[k - 1]) {
        k
    } else {
        line_begin(gs, k - 1)
    }
}

/// The index of the line feed that ends the line holding position `k`, or
/// the number of clusters when that line is the last.
pub open spec fn line_end(gs: Seq<Seq<char>>, k: int) -> int
    decreases gs.len() - k,
{
    if k >= gs.len() {
        gs.len() as int
    } else if 0 <= k && is_newline(gs[k]) {
        k
    } else {
        line_end(gs, k + 1)
    }
}

/// The clusters removed when the line holding position `k` is deleted: the
/// line with the line feed after it, or, for the last of several lines, the
/// line feed before it with the line, or everything for a single line.
pub open spec fn line_cut(gs: Seq<Seq<char>>, k: int) -> (int, int) {
    let b = line_begin(gs, k);
    let e = line_end(gs, k);
    if e < gs.len() {
        (b, e + 1)
    } else if b > 0 {
        (b - 1, gs.len() as int)
    } else {
        (0, gs.len() as int)
    }
}

proof fn lemma_line_begin_bound(gs: Seq<Seq<char>>, k: int)
    ensures
        0 <= line_begin(gs, k),
        k >= 0 ==> line_begin(gs, k) <= k,
    decreases k,
{
    if k > 0 && !is_newline(gs[k - 1]) {
        lemma_line_begin_bound(gs, k - 1);
    }
}

proof fn lemma_line_end_bound(gs: Seq<Seq<char>>, k: int)
    requires
        0 <= k,
    ensures
        k <= line_end(gs, k) || k > gs.len(),
        line_end(gs, k) <= gs.len(),
        line_end(gs, k) < gs.len() ==> is_newline(gs[line_end(gs, k)]),
    decreases gs.len() - k,
{
    if k < gs.len() && !is_newline(gs[k]) {
        lemma_line_end_bound(gs, k + 1);
    }
}

/// The first cluster of the line the cursor is on.
pub fn current_line_start(input: &str, cursor: usize) -> (r: usize)
    ensures
        r == line_begin(graphemes_of(input@), clamp(cursor as int, graphemes_of(input@).len() as int)),
{
    let gs = graphemes(input);
    let ghost g = gs.deep_view();
    let k = if cursor < gs.len() {
        cursor
    } else {
        gs.len()
    };
    let mut j = k;
    while j > 0 && !is_newline_cluster(&gs[j - 1])
        invariant
            j <= k <= gs.len(),
            g == gs.deep_view(),
            g == graphemes_of(input@),
            line_begin(g, k as int) == line_begin(g, j as int),
        decreases j,
    {
        j = j - 1;
    }
    j
}

/// Where the line the cursor is on ends: at its line feed, or at the end.
pub fn current_line_end(input: &str, cursor: usize) -> (r: usize)
    ensures
        r == line_end(graphemes_of(input@), clamp(cursor as int, graphemes_of(input@).len() as int)),
{
    let gs = graphemes(input);
    let ghost g = gs.deep_view();
    let k = if cursor < gs.len() {
        cursor
    } else {
        gs.len()
    };
    let mut j = k;
    while j < gs.len() && !is_newline_cluster(&gs[j])
        invariant
            k <= j <= gs.len(),
            g == gs.deep_view(),
            g == graphemes_of(input@),
            line_end(g, k as int) == line_end(g, j as int),
        decreases gs.len() - j,
    {
        j = j + 1;
    }
    j
}

/// The range of clusters that deleting the cursor's line removes.
pub fn current_line_cut(input: &str, cursor: usize) -> (r: (usize, usize))
    ensures
        ({
            let g = graphemes_of(input@);
            (r.0 as int, r.1 as int) == line_cut(g, clamp(cursor as int, g.len() as int))
        }),
        r.0 <= r.1,
{
    let n = crate::unicode::grapheme_count(input);
    let b = current_line_start(input, cursor);
    let e = current_line_end(input, cursor);
    proof {
        let g = graphemes_of(input@);
        let k = clamp(cursor as int, g.len() as int);
        lemma_line_begin_bound(g, k);
        lemma_line_end_bound(g, k);
    }
    if e < n {
        (b, e + 1)
    } else if b > 0 {
        (b - 1, n)
    } else {
        (0, n)
    }
}

} // verus!
