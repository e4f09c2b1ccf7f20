//! Character-sequence utilities on which the rest of the library is built.
//! Strings are viewed as `Seq<char>`; the executable helpers work on
//! `Vec<char>` and convert at the edges.

use vstd::prelude::*;

verus! {

// ---------------------------------------------------------------------
// Conversions
// ---------------------------------------------------------------------

/// The characters of `s`, in order (`str::chars` collected). A string slice
/// never spans more than `isize::MAX` bytes, and each character takes at
/// least one byte.
#[verifier::external_body]
pub(crate) fn chars_of(s: &str) -> (r: Vec<char>)
    ensures
        r@ == s@,
        r@.len() <= isize::MAX,
{
    s.chars().collect()
}

/// The string made of the characters of `v` (`String: FromIterator<&char>`).
#[verifier::external_body]
pub(crate) fn string_of(v: &Vec<char>) -> (r: String)
    ensures
        r@ == v@,
{
    v.iter().collect()
}

/// The lower-case form of a string, as `str::to_lowercase` computes it.
pub uninterp spec fn lowercase_of(s: Seq<char>) -> Seq<char>;

/// The ASCII lower-case form of a character: `A` to `Z` become `a` to `z`.
pub open spec fn ascii_lower(c: char) -> char {
    if 'A' <= c <= 'Z' {
        ((c as u32) + 32) as char
    } else {
        c
    }
}

/// Every character is ASCII.
pub open spec fn all_ascii(s: Seq<char>) -> bool {
    forall|i: int| 0 <= i < s.len() ==> (s[i] as u32) < 128
}

/// Calls `str::to_lowercase`; the result is named `lowercase_of`. Lower-case
/// follows Unicode, which maps the ASCII capitals to the small letters and
/// leaves the other ASCII characters as they are; so an ASCII string is
/// lowered character by character.
#[verifier::external_body]
pub(crate) fn to_lowercase(s: &str) -> (r: String)
    ensures
        r@ == lowercase_of(s@),
        all_ascii(s@) ==> r@ == s@.map_values(|c: char| ascii_lower(c)),
{
    s.to_lowercase()
}

/// A copy of a string slice.
pub fn to_owned_string(s: &str) -> (r: String)
    ensures
        r@ == s@,
{
    let v = chars_of(s);
    string_of(&v)
}

/// Appends all characters of `src` to `dst`.
pub fn push_all(dst: &mut Vec<char>, src: &Vec<char>)
    ensures
        final(dst)@ == old(dst)@ + src@,
{
    let ghost start = dst@;
    let mut i: usize = 0;
    while i < src.len()
        invariant
            i <= src.len(),
            dst@ == start + src@.subrange(0, i as int),
        decreases src.len() - i,
    {
        dst.push(src[i]);
        i = i + 1;
        assert(src@.subrange(0, i as int) == src@.subrange(0, i - 1).push(src@[i - 1]));
    }
    assert(src@.subrange(0, src.len() as int) == src@);
}

/// Appends all characters of a string slice to `dst`.
pub fn push_str_chars(dst: &mut Vec<char>, s: &str)
    ensures
        final(dst)@ == old(dst)@ + s@,
{
    let v = chars_of(s);
    push_all(dst, &v);
}

/// A copy of the characters `v[from..to]`.
pub fn slice_chars(v: &Vec<char>, from: usize, to: usize) -> (r: Vec<char>)
    requires
        from <= to <= v.len(),
    ensures
        r@ == v@.subrange(from as int, to as int),
{
    let mut r: Vec<char> = Vec::new();
    let mut i = from;
    while i < to
        invariant
            from <= i <= to <= v.len(),
            r@ == v@.subrange(from as int, i as int),
        decreases to - i,
    {
        r.push(v[i]);
        i = i + 1;
        assert(v@.subrange(from as int, i as int) == v@.subrange(from as int, i - 1).push(
            v@[i - 1],
        ));
    }
    r
}

/// Whether two character vectors hold the same characters.
pub fn chars_eq(a: &Vec<char>, b: &Vec<char>) -> (r: bool)
    ensures
        r == (a@ == b@),
{
    if a.len() != b.len() {
        return false;
    }
    let mut i: usize = 0;
    while i < a.len()
        invariant
            a.len() == b.len(),
            i <= a.len(),
            forall|j: int| 0 <= j < i ==> a@[j] == b@[j],
        decreases a.len() - i,
    {
        if a[i] != b[i] {
            return false;
        }
        i = i + 1;
    }
    assert(a@ =~= b@);
    true
}

/// Whether two string slices hold the same characters.
pub fn str_eq(a: &str, b: &str) -> (r: bool)
    ensures
        r == (a@ == b@),
{
    let va = chars_of(a);
    let vb = chars_of(b);
    chars_eq(&va, &vb)
}

// ---------------------------------------------------------------------
// White space
// ---------------------------------------------------------------------

/// The Unicode `White_Space` property, which `char::is_whitespace` tests.
pub open spec fn is_white_space(c: char) -> bool {
    let u = c as u32;
    ||| 0x9 <= u <= 0xD
    ||| u == 0x20
    ||| u == 0x85
    ||| u == 0xA0
    ||| u == 0x1680
    ||| 0x2000 <= u <= 0x200A
    ||| u == 0x2028
    ||| u == 0x2029
    ||| u == 0x202F
    ||| u == 0x205F
    ||| u == 0x3000
}

/// `char::is_whitespace`.
pub fn char_is_whitespace(c: char) -> (r: bool)
    ensures
        r == is_white_space(c),
{
    let u = c as u32;
    (0x9 <= u && u <= 0xD) || u == 0x20 || u == 0x85 || u == 0xA0 || u == 0x1680 || (0x2000 <= u
        && u <= 0x200A) || u == 0x2028 || u == 0x2029 || u == 0x202F || u == 0x205F || u == 0x3000
}

/// Every character of `s` is white space (vacuously true of the empty sequence).
pub open spec fn all_white_space(s: Seq<char>) -> bool {
    forall|i: int| 0 <= i < s.len() ==> is_white_space(#[trigger] s[i])
}

/// `s` without its leading white space (`str::trim_start`).
pub open spec fn trim_start_seq(s: Seq<char>) -> Seq<char>
    decreases s.len(),
{
    if s.len() > 0 && is_white_space(s[0]) {
        trim_start_seq(s.drop_first())
    } else {
        s
    }
}

/// `s` without its trailing white space (`str::trim_end`).
pub open spec fn trim_end_seq(s: Seq<char>) -> Seq<char>
    decreases s.len(),
{
    if s.len() > 0 && is_white_space(s.last()) {
        trim_end_seq(s.drop_last())
    } else {
        s
    }
}

/// `s` without leading and trailing white space (`str::trim`).
pub open spec fn trim_seq(s: Seq<char>) -> Seq<char> {
    trim_end_seq(trim_start_seq(s))
}

proof fn lemma_trim_start_skip(s: Seq<char>, i: int)
    requires
        0 <= i <= s.len(),
        all_white_space(s.subrange(0, i)),
    ensures
        trim_start_seq(s) == trim_start_seq(s.subrange(i, s.len() as int)),
    decreases i,
{
    if i > 0 {
        assert(is_white_space(s.subrange(0, i)[0]));
        assert(s.drop_first().subrange(0, i - 1) =~= s.subrange(0, i).drop_first());
        assert forall|k: int| 0 <= k < i - 1 implies is_white_space(
            #[trigger] s.drop_first().subrange(0, i - 1)[k],
        ) by {
            assert(s.drop_first().subrange(0, i - 1)[k] == s.subrange(0, i)[k + 1]);
        }
        lemma_trim_start_skip(s.drop_first(), i - 1);
        assert(s.drop_first().subrange(i - 1, s.len() - 1) =~= s.subrange(i, s.len() as int));
    } else {
        assert(s.subrange(0, s.len() as int) =~= s);
    }
}

proof fn lemma_trim_end_take(s: Seq<char>, j: int)
    requires
        0 <= j <= s.len(),
        all_white_space(s.subrange(j, s.len() as int)),
    ensures
        trim_end_seq(s) == trim_end_seq(s.subrange(0, j)),
    decreases s.len() - j,
{
    if j < s.len() {
        assert(s.subrange(j, s.len() as int)[s.len() - 1 - j] == s.last());
        assert(s.drop_last().subrange(j, s.len() - 1) =~= s.subrange(j, s.len() as int).drop_last());
        assert forall|k: int| 0 <= k < s.len() - 1 - j implies is_white_space(
            #[trigger] s.drop_last().subrange(j, s.len() - 1)[k],
        ) by {
            assert(s.drop_last().subrange(j, s.len() - 1)[k] == s.subrange(j, s.len() as int)[k]);
        }
        lemma_trim_end_take(s.drop_last(), j);
        assert(s.drop_last().subrange(0, j) =~= s.subrange(0, j));
    } else {
        assert(s.subrange(0, s.len() as int) =~= s);
    }
}

/// `s.trim()` on a character vector.
pub fn trim_chars(s: &Vec<char>) -> (r: Vec<char>)
    ensures
        r@ == trim_seq(s@),
{
    let mut a: usize = 0;
    while a < s.len() && char_is_whitespace(s[a])
        invariant
            a <= s.len(),
            all_white_space(s@.subrange(0, a as int)),
        decreases s.len() - a,
    {
        a = a + 1;
        assert forall|k: int| 0 <= k < a implies is_white_space(
            #[trigger] s@.subrange(0, a as int)[k],
        ) by {
            if k < a - 1 {
                assert(s@.subrange(0, a as int)[k] == s@.subrange(0, a - 1)[k]);
            }
        }
    }
    proof {
        lemma_trim_start_skip(s@, a as int);
        let t = s@.subrange(a as int, s.len() as int);
        if t.len() > 0 {
            assert(t[0] == s@[a as int]);
        }
        assert(trim_start_seq(t) == t);
    }
    let mut b: usize = s.len();
    while b > a && char_is_whitespace(s[b - 1])
        invariant
            a <= b <= s.len(),
            all_white_space(s@.subrange(b as int, s.len() as int)),
        decreases b,
    {
        b = b - 1;
        assert forall|k: int| 0 <= k < s.len() - b implies is_white_space(
            #[trigger] s@.subrange(b as int, s.len() as int)[k],
        ) by {
            if k > 0 {
                assert(s@.subrange(b as int, s.len() as int)[k] == s@.subrange(
                    b + 1,
                    s.len() as int,
                )[k - 1]);
            }
        }
    }
    proof {
        let t = s@.subrange(a as int, s.len() as int);
        assert(t.subrange(b - a, t.len() as int) =~= s@.subrange(b as int, s.len() as int));
        lemma_trim_end_take(t, b - a);
        let u = t.subrange(0, b - a);
        if u.len() > 0 {
            assert(u.last() == s@[b - 1]);
        }
        assert(trim_end_seq(u) == u);
        assert(u =~= s@.subrange(a as int, b as int));
    }
    slice_chars(s, a, b)
}

/// `s.trim()` as an owned string.
pub fn trim_str(s: &str) -> (r: String)
    ensures
        r@ == trim_seq(s@),
{
    let v = chars_of(s);
    let t = trim_chars(&v);
    string_of(&t)
}

/// Whether `s.trim()` is empty.
pub fn is_blank(s: &str) -> (r: bool)
    ensures
        r == (trim_seq(s@).len() == 0),
{
    let t = trim_str(s);
    t.as_str().unicode_len() == 0
}


// ---------------------------------------------------------------------
// Substrings
// ---------------------------------------------------------------------

/// `p` occurs in `s` at position `i`.
pub open spec fn occurs_at(s: Seq<char>, p: Seq<char>, i: int) -> bool {
    0 <= i && i + p.len() <= s.len() && s.subrange(i, i + p.len()) == p
}

/// `p` occurs somewhere in `s` (`str::contains`).
pub open spec fn seq_contains(s: Seq<char>, p: Seq<char>) -> bool {
    exists|i: int| occurs_at(s, p, i)
}

/// `s` starts with `p` (`str::starts_with`).
pub open spec fn seq_starts_with(s: Seq<char>, p: Seq<char>) -> bool {
    p.len() <= s.len() && s.subrange(0, p.len() as int) == p
}

/// `s` ends with `p` (`str::ends_with`).
pub open spec fn seq_ends_with(s: Seq<char>, p: Seq<char>) -> bool {
    p.len() <= s.len() && s.subrange(s.len() - p.len(), s.len() as int) == p
}

/// The first position at which `p` occurs in `s` (`str::find`).
pub open spec fn first_occurrence(s: Seq<char>, p: Seq<char>) -> Option<int> {
    if seq_contains(s, p) {
        Some(choose|i: int| occurs_at(s, p, i) && forall|j: int| 0 <= j < i ==> !occurs_at(s, p, j))
    } else {
        None
    }
}

proof fn lemma_first_occurrence(s: Seq<char>, p: Seq<char>, i: int)
    requires
        occurs_at(s, p, i),
        forall|j: int| 0 <= j < i ==> !occurs_at(s, p, j),
    ensures
        first_occurrence(s, p) == Some(i),
{
    let k = choose|k: int| occurs_at(s, p, k) && forall|j: int| 0 <= j < k ==> !occurs_at(s, p, j);
    assert(occurs_at(s, p, k) && forall|j: int| 0 <= j < k ==> !occurs_at(s, p, j));
    if k < i {
        assert(!occurs_at(s, p, k));
    }
    if i < k {
        assert(!occurs_at(s, p, i));
    }
}

/// Whether `p` occurs in `s` at position `i`.
pub fn occurs_at_exec(s: &Vec<char>, p: &Vec<char>, i: usize) -> (r: bool)
    ensures
        r == occurs_at(s@, p@, i as int),
{
    if i > s.len() || p.len() > s.len() - i {
        return false;
    }
    let mut k: usize = 0;
    while k < p.len()
        invariant
            i + p.len() <= s.len(),
            k <= p.len(),
            forall|j: int| 0 <= j < k ==> s@[i + j] == p@[j],
        decreases p.len() - k,
    {
        if s[i + k] != p[k] {
            assert(s@.subrange(i as int, i + p.len())[k as int] != p@[k as int]);
            return false;
        }
        k = k + 1;
    }
    assert(s@.subrange(i as int, i + p.len()) =~= p@);
    true
}

/// The first position at which `p` occurs in `s`.
pub fn find_chars(s: &Vec<char>, p: &Vec<char>) -> (r: Option<usize>)
    ensures
        match r {
            Some(i) => first_occurrence(s@, p@) == Some(i as int) && occurs_at(s@, p@, i as int),
            None => first_occurrence(s@, p@) == None::<int>,
        },
{
    let mut i: usize = 0;
    while i < s.len()
        invariant
            i <= s.len(),
            forall|j: int| 0 <= j < i ==> !occurs_at(s@, p@, j),
        decreases s.len() - i,
    {
        if occurs_at_exec(s, p, i) {
            proof {
                lemma_first_occurrence(s@, p@, i as int);
            }
            return Some(i);
        }
        i = i + 1;
    }
    if occurs_at_exec(s, p, i) {
        proof {
            lemma_first_occurrence(s@, p@, i as int);
        }
        return Some(i);
    }
    assert(!seq_contains(s@, p@));
    None
}

/// Whether `p` occurs in `s`.
pub fn contains_chars(s: &Vec<char>, p: &Vec<char>) -> (r: bool)
    ensures
        r == seq_contains(s@, p@),
{
    match find_chars(s, p) {
        Some(i) => true,
        None => false,
    }
}

/// Whether `p` occurs in `s` (`str::contains`).
pub fn contains_str(s: &str, p: &str) -> (r: bool)
    ensures
        r == seq_contains(s@, p@),
{
    let vs = chars_of(s);
    let vp = chars_of(p);
    contains_chars(&vs, &vp)
}

/// Whether `s` starts with `p`.
pub fn starts_with_chars(s: &Vec<char>, p: &Vec<char>) -> (r: bool)
    ensures
        r == seq_starts_with(s@, p@),
{
    occurs_at_exec(s, p, 0)
}

/// Whether `s` ends with the character `c`.
pub fn ends_with_char(s: &str, c: char) -> (r: bool)
    ensures
        r == (s@.len() > 0 && s@.last() == c),
{
    let v = chars_of(s);
    v.len() > 0 && v[v.len() - 1] == c
}


// ---------------------------------------------------------------------
// Splitting and joining
// ---------------------------------------------------------------------

/// The index of the first `c` in `s`, or `s.len()` when there is none.
pub open spec fn char_index(s: Seq<char>, c: char) -> int
    decreases s.len(),
{
    if s.len() == 0 {
        0
    } else if s[0] == c {
        0
    } else {
        1 + char_index(s.drop_first(), c)
    }
}

/// Facts about `char_index`.
pub proof fn lemma_char_index(s: Seq<char>, c: char)
    ensures
        0 <= char_index(s, c) <= s.len(),
        char_index(s, c) < s.len() ==> s[char_index(s, c)] == c,
        forall|j: int| 0 <= j < char_index(s, c) ==> s[j] != c,
    decreases s.len(),
{
    if s.len() > 0 && s[0] != c {
        lemma_char_index(s.drop_first(), c);
        assert forall|j: int| 0 <= j < char_index(s, c) implies s[j] != c by {
            if j > 0 {
                assert(s[j] == s.drop_first()[j - 1]);
            }
        }
    }
}

/// The index in `s` of the first `c` at or after `start`, or `s.len()`.
pub fn char_index_from(s: &Vec<char>, c: char, start: usize) -> (r: usize)
    requires
        start <= s.len(),
    ensures
        r == start + char_index(s@.subrange(start as int, s.len() as int), c),
        start <= r <= s.len(),
{
    let mut i = start;
    proof {
        lemma_char_index(s@.subrange(start as int, s.len() as int), c);
    }
    while i < s.len() && s[i] != c
        invariant
            start <= i <= s.len(),
            forall|j: int| start <= j < i ==> s@[j] != c,
        decreases s.len() - i,
    {
        i = i + 1;
    }
    proof {
        let t = s@.subrange(start as int, s.len() as int);
        lemma_char_index(t, c);
        let k = char_index(t, c);
        if k < i - start {
            assert(t[k] == s@[start + k]);
        }
        if k > i - start {
            assert(t[i - start] == s@[i as int]);
        }
    }
    i
}

/// `s` without one trailing carriage return.
pub open spec fn strip_cr(s: Seq<char>) -> Seq<char> {
    if s.len() > 0 && s.last() == '\r' {
        s.drop_last()
    } else {
        s
    }
}

/// The lines of `s`, as `str::lines` yields them: split after each line feed,
/// a carriage return before a line feed removed, no empty final line.
pub open spec fn lines_of(s: Seq<char>) -> Seq<Seq<char>>
    decreases s.len(),
{
    if s.len() == 0 {
        Seq::empty()
    } else {
        let i = char_index(s, '\n');
        if i >= s.len() || i < 0 {
            seq![s]
        } else {
            seq![strip_cr(s.subrange(0, i))] + lines_of(s.subrange(i + 1, s.len() as int))
        }
    }
}

/// The lines of a character vector.
pub fn lines_chars(s: &Vec<char>) -> (r: Vec<Vec<char>>)
    ensures
        r.deep_view() == lines_of(s@),
{
    let mut r: Vec<Vec<char>> = Vec::new();
    let mut start: usize = 0;
    assert(s@.subrange(0, s.len() as int) =~= s@);
    while start < s.len()
        invariant
            start <= s.len(),
            lines_of(s@) == r.deep_view() + lines_of(s@.subrange(start as int, s.len() as int)),
        decreases s.len() - start,
    {
        let ghost t = s@.subrange(start as int, s.len() as int);
        let i = char_index_from(s, '\n', start);
        proof {
            lemma_char_index(t, '\n');
        }
        if i == s.len() {
            let line = slice_chars(s, start, s.len());
            assert(line.deep_view() =~= line@);
            let ghost old_r = r.deep_view();
            r.push(line);
            assert(r.deep_view() =~= old_r.push(t));
            assert(lines_of(t) == seq![t]);
            assert(s@.subrange(s.len() as int, s.len() as int) =~= Seq::<char>::empty());
            start = s.len();
        } else {
            let mut line = slice_chars(s, start, i);
            if line.len() > 0 && line[line.len() - 1] == '\r' {
                line.pop();
            }
            assert(line.deep_view() =~= line@);
            let ghost old_r = r.deep_view();
            r.push(line);
            proof {
                assert(t.subrange(0, i - start) =~= s@.subrange(start as int, i as int));
                assert(r.deep_view() =~= old_r.push(strip_cr(t.subrange(0, i - start))));
                assert(t.subrange(i - start + 1, t.len() as int) =~= s@.subrange(
                    i + 1,
                    s.len() as int,
                ));
                assert(lines_of(t) == seq![strip_cr(t.subrange(0, i - start))] + lines_of(
                    t.subrange(i - start + 1, t.len() as int),
                ));
                assert(old_r + lines_of(t) =~= r.deep_view() + lines_of(
                    s@.subrange(i + 1, s.len() as int),
                ));
            }
            start = i + 1;
        }
    }
    assert(lines_of(s@.subrange(start as int, s.len() as int)) =~= Seq::<Seq<char>>::empty());
    assert(r.deep_view() + Seq::<Seq<char>>::empty() =~= r.deep_view());
    r
}

/// The number of lines of a string (`str::lines().count()`).
pub fn line_count(s: &str) -> (r: usize)
    ensures
        r == lines_of(s@).len(),
{
    let v = chars_of(s);
    let ls = lines_chars(&v);
    assert(ls.deep_view().len() == ls@.len());
    ls.len()
}

/// The pieces of `s` between occurrences of `c` (`str::split` with a char);
/// there is always at least one piece.
pub open spec fn split_on(s: Seq<char>, c: char) -> Seq<Seq<char>>
    decreases s.len(),
{
    let i = char_index(s, c);
    if i >= s.len() || i < 0 {
        seq![s]
    } else {
        seq![s.subrange(0, i)] + split_on(s.subrange(i + 1, s.len() as int), c)
    }
}

/// Splits a character vector at every occurrence of `c`.
pub fn split_chars(s: &Vec<char>, c: char) -> (r: Vec<Vec<char>>)
    ensures
        r.deep_view() == split_on(s@, c),
{
    let mut r: Vec<Vec<char>> = Vec::new();
    let mut start: usize = 0;
    assert(s@.subrange(0, s.len() as int) =~= s@);
    loop
        invariant
            start <= s.len(),
            split_on(s@, c) == r.deep_view() + split_on(s@.subrange(start as int, s.len() as int), c),
        decreases s.len() - start,
    {
        let ghost t = s@.subrange(start as int, s.len() as int);
        let i = char_index_from(s, c, start);
        proof {
            lemma_char_index(t, c);
        }
        if i == s.len() {
            let piece = slice_chars(s, start, s.len());
            assert(piece.deep_view() =~= piece@);
            let ghost old_r = r.deep_view();
            r.push(piece);
            assert(r.deep_view() =~= old_r.push(t));
            assert(split_on(t, c) == seq![t]);
            assert(old_r + seq![t] =~= r.deep_view());
            return r;
        } else {
            let piece = slice_chars(s, start, i);
            assert(piece.deep_view() =~= piece@);
            let ghost old_r = r.deep_view();
            r.push(piece);
            proof {
                assert(t.subrange(0, i - start) =~= s@.subrange(start as int, i as int));
                assert(r.deep_view() =~= old_r.push(t.subrange(0, i - start)));
                assert(t.subrange(i - start + 1, t.len() as int) =~= s@.subrange(
                    i + 1,
                    s.len() as int,
                ));
                assert(old_r + split_on(t, c) =~= r.deep_view() + split_on(
                    s@.subrange(i + 1, s.len() as int),
                    c,
                ));
            }
            start = i + 1;
        }
    }
}

/// The elements of `list` separated by `sep` (`[T]::join`).
pub open spec fn join_seq(list: Seq<Seq<char>>, sep: Seq<char>) -> Seq<char>
    decreases list.len(),
{
    if list.len() == 0 {
        Seq::empty()
    } else if list.len() == 1 {
        list[0]
    } else {
        join_seq(list.drop_last(), sep) + sep + list.last()
    }
}

/// Joins strings with a separator.
pub fn join_strings(list: &Vec<String>, sep: &str) -> (r: String)
    ensures
        r@ == join_seq(list.deep_view(), sep@),
{
    let sepv = chars_of(sep);
    let mut out: Vec<char> = Vec::new();
    let mut i: usize = 0;
    while i < list.len()
        invariant
            i <= list.len(),
            sepv@ == sep@,
            out@ == join_seq(list.deep_view().take(i as int), sep@),
        decreases list.len() - i,
    {
        if i > 0 {
            push_all(&mut out, &sepv);
        }
        push_str_chars(&mut out, list[i].as_str());
        proof {
            let l = list.deep_view().take(i + 1);
            assert(l.drop_last() =~= list.deep_view().take(i as int));
            assert(l.last() == list[i as int]@);
            if i == 0 {
                assert(out@ =~= l[0]);
            }
        }
        i = i + 1;
    }
    assert(list.deep_view().take(list.len() as int) =~= list.deep_view());
    string_of(&out)
}

// ---------------------------------------------------------------------
// Numbers
// ---------------------------------------------------------------------

/// The decimal digit for `d` (which is below ten).
pub open spec fn digit_char(d: nat) -> char {
    if d == 0 {
        '0'
    } else if d == 1 {
        '1'
    } else if d == 2 {
        '2'
    } else if d == 3 {
        '3'
    } else if d == 4 {
        '4'
    } else if d == 5 {
        '5'
    } else if d == 6 {
        '6'
    } else if d == 7 {
        '7'
    } else if d == 8 {
        '8'
    } else {
        '9'
    }
}

/// The decimal representation of `n`, without sign or leading zeros.
pub open spec fn decimal_of(n: nat) -> Seq<char>
    decreases n,
{
    if n < 10 {
        seq![digit_char(n)]
    } else {
        decimal_of(n / 10).push(digit_char(n % 10))
    }
}

fn digit_exec(d: u64) -> (c: char)
    requires
        d < 10,
    ensures
        c == digit_char(d as nat),
{
    if d == 0 {
        '0'
    } else if d == 1 {
        '1'
    } else if d == 2 {
        '2'
    } else if d == 3 {
        '3'
    } else if d == 4 {
        '4'
    } else if d == 5 {
        '5'
    } else if d == 6 {
        '6'
    } else if d == 7 {
        '7'
    } else if d == 8 {
        '8'
    } else {
        '9'
    }
}

/// The decimal digits of `n`.
pub fn decimal_chars(n: u64) -> (r: Vec<char>)
    ensures
        r@ == decimal_of(n as nat),
    decreases n,
{
    if n < 10 {
        let mut v: Vec<char> = Vec::new();
        v.push(digit_exec(n));
        assert(v@ =~= seq![digit_char(n as nat)]);
        v
    } else {
        let mut v = decimal_chars(n / 10);
        v.push(digit_exec(n % 10));
        v
    }
}

/// `n.to_string()` for a `usize`.
pub fn usize_to_string(n: usize) -> (r: String)
    ensures
        r@ == decimal_of(n as nat),
{
    let v = decimal_chars(n as u64);
    string_of(&v)
}

/// An ASCII decimal digit.
pub open spec fn is_ascii_digit(c: char) -> bool {
    '0' <= c <= '9'
}

/// The value of an ASCII decimal digit.
pub open spec fn digit_value(c: char) -> nat {
    (c as u32 - '0' as u32) as nat
}

/// The value of a sequence of decimal digits.
pub open spec fn digits_value(d: Seq<char>) -> nat
    decreases d.len(),
{
    if d.len() == 0 {
        0
    } else {
        digits_value(d.drop_last()) * 10 + digit_value(d.last())
    }
}

/// All characters of `d` are ASCII digits.
pub open spec fn all_digits(d: Seq<char>) -> bool {
    forall|i: int| 0 <= i < d.len() ==> is_ascii_digit(#[trigger] d[i])
}

/// What `s.parse::<usize>()` gives: an optional `+`, then at least one
/// decimal digit and nothing else, with a value that fits in a `usize`.
pub open spec fn parse_usize_spec(s: Seq<char>) -> Option<usize> {
    let d = if s.len() > 1 && s[0] == '+' {
        s.drop_first()
    } else {
        s
    };
    if d.len() > 0 && all_digits(d) && digits_value(d) <= usize::MAX {
        Some(digits_value(d) as usize)
    } else {
        None
    }
}

proof fn lemma_digits_value_monotone(d: Seq<char>, k: int)
    requires
        0 <= k <= d.len(),
    ensures
        digits_value(d.take(k)) <= digits_value(d),
    decreases d.len() - k,
{
    if k < d.len() {
        lemma_digits_value_monotone(d, k + 1);
        assert(d.take(k + 1).drop_last() =~= d.take(k));
    } else {
        assert(d.take(k) =~= d);
    }
}

proof fn lemma_digits_step(d: Seq<char>, k: int, acc: nat)
    requires
        0 <= k < d.len(),
        all_digits(d.take(k)),
        acc == digits_value(d.take(k)),
        is_ascii_digit(d[k]),
    ensures
        all_digits(d.take(k + 1)),
        digits_value(d.take(k + 1)) == acc * 10 + digit_value(d[k]),
{
    let t = d.take(k + 1);
    assert(t.drop_last() =~= d.take(k));
    assert(t.last() == d[k]);
    assert forall|j: int| 0 <= j < t.len() implies is_ascii_digit(#[trigger] t[j]) by {
        if j < t.len() - 1 {
            assert(t[j] == d.take(k)[j]);
        }
    }
}

/// `s.parse::<usize>().ok()`.
pub fn parse_usize(s: &Vec<char>) -> (r: Option<usize>)
    ensures
        r == parse_usize_spec(s@),
{
    let skip: usize = if s.len() > 1 && s[0] == '+' {
        1
    } else {
        0
    };
    let ghost d = if s@.len() > 1 && s@[0] == '+' {
        s@.drop_first()
    } else {
        s@
    };
    assert(d =~= s@.subrange(skip as int, s.len() as int));
    if skip >= s.len() {
        return None;
    }
    let mut acc: usize = 0;
    let mut i = skip;
    while i < s.len()
        invariant
            skip <= i <= s.len(),
            d == s@.subrange(skip as int, s.len() as int),
            d == (if s@.len() > 1 && s@[0] == '+' {
                s@.drop_first()
            } else {
                s@
            }),
            all_digits(d.take(i - skip)),
            acc == digits_value(d.take(i - skip)),
        decreases s.len() - i,
    {
        let c = s[i];
        assert(d[i - skip] == c);
        if !('0' <= c && c <= '9') {
            assert(!all_digits(d));
            return None;
        }
        let dv = (c as u32 - '0' as u32) as usize;
        proof {
            lemma_digits_step(d, i - skip, acc as nat);
        }
        if acc > (usize::MAX - dv) / 10 {
            proof {
                assert(acc * 10 + dv > usize::MAX) by (nonlinear_arith)
                    requires
                        acc > (usize::MAX - dv) / 10,
                        dv <= 9,
                ;
                lemma_digits_value_monotone(d, i - skip + 1);
            }
            return None;
        }
        proof {
            assert(acc * 10 + dv <= usize::MAX) by (nonlinear_arith)
                requires
                    acc <= (usize::MAX - dv) / 10,
                    dv <= 9,
            ;
        }
        acc = acc * 10 + dv;
        i = i + 1;
    }
    assert(d.take(s.len() - skip) =~= d);
    Some(acc)
}

// ---------------------------------------------------------------------
// Replacement
// ---------------------------------------------------------------------

/// `s` with every non-overlapping occurrence of `from` (found left to right)
/// replaced by `to`, as `str::replace` does for a non-empty pattern.
pub open spec fn replace_seq(s: Seq<char>, from: Seq<char>, to: Seq<char>) -> Seq<char>
    recommends
        from.len() > 0,
    decreases s.len(),
{
    if s.len() == 0 || from.len() == 0 {
        s
    } else if seq_starts_with(s, from) {
        to + replace_seq(s.subrange(from.len() as int, s.len() as int), from, to)
    } else {
        seq![s[0]] + replace_seq(s.drop_first(), from, to)
    }
}

/// `s.replace(from, to)` for a non-empty `from`.
pub fn replace_chars(s: &Vec<char>, from: &Vec<char>, to: &Vec<char>) -> (r: Vec<char>)
    requires
        from.len() > 0,
    ensures
        r@ == replace_seq(s@, from@, to@),
{
    let mut out: Vec<char> = Vec::new();
    let mut i: usize = 0;
    assert(s@.subrange(0, s.len() as int) =~= s@);
    while i < s.len()
        invariant
            i <= s.len(),
            from.len() > 0,
            replace_seq(s@, from@, to@) == out@ + replace_seq(
                s@.subrange(i as int, s.len() as int),
                from@,
                to@,
            ),
        decreases s.len() - i,
    {
        let ghost t = s@.subrange(i as int, s.len() as int);
        let ghost old_out = out@;
        if occurs_at_exec(s, from, i) {
            assert(t.subrange(0, from.len() as int) =~= s@.subrange(i as int, i + from.len()));
            assert(t.subrange(from.len() as int, t.len() as int) =~= s@.subrange(
                i + from.len(),
                s.len() as int,
            ));
            push_all(&mut out, to);
            assert(old_out + (to@ + replace_seq(
                t.subrange(from.len() as int, t.len() as int),
                from@,
                to@,
            )) =~= out@ + replace_seq(t.subrange(from.len() as int, t.len() as int), from@, to@));
            i = i + from.len();
        } else {
            assert(!seq_starts_with(t, from@)) by {
                if from.len() <= t.len() {
                    assert(t.subrange(0, from.len() as int) =~= s@.subrange(
                        i as int,
                        i + from.len(),
                    ));
                }
            }
            out.push(s[i]);
            assert(t.drop_first() =~= s@.subrange(i + 1, s.len() as int));
            assert(old_out + (seq![t[0]] + replace_seq(t.drop_first(), from@, to@)) =~= out@
                + replace_seq(t.drop_first(), from@, to@));
            i = i + 1;
        }
    }
    assert(out@ + replace_seq(s@.subrange(i as int, s.len() as int), from@, to@) =~= out@);
    out
}


/// `s` with `to` put before every character and at the end, as
/// `str::replace` does for an empty pattern.
pub open spec fn replace_empty(s: Seq<char>, to: Seq<char>) -> Seq<char>
    decreases s.len(),
{
    if s.len() == 0 {
        to
    } else {
        to + seq![s[0]] + replace_empty(s.drop_first(), to)
    }
}

/// `s.replace(from, to)`: every non-overlapping occurrence of `from`, found
/// left to right, replaced by `to`; an empty `from` matches at every
/// character boundary.
pub open spec fn str_replace(s: Seq<char>, from: Seq<char>, to: Seq<char>) -> Seq<char> {
    if from.len() == 0 {
        replace_empty(s, to)
    } else {
        replace_seq(s, from, to)
    }
}

/// `s.replace(from, to)` for any `from`.
pub fn replace_all(s: &Vec<char>, from: &Vec<char>, to: &Vec<char>) -> (r: Vec<char>)
    ensures
        r@ == str_replace(s@, from@, to@),
{
    if from.len() > 0 {
        return replace_chars(s, from, to);
    }
    let mut out: Vec<char> = Vec::new();
    let mut i: usize = 0;
    assert(s@.skip(0) =~= s@);
    while i < s.len()
        invariant
            i <= s.len(),
            replace_empty(s@, to@) == out@ + replace_empty(s@.skip(i as int), to@),
        decreases s.len() - i,
    {
        let ghost t = s@.skip(i as int);
        let ghost old_out = out@;
        assert(t.drop_first() =~= s@.skip(i + 1));
        push_all(&mut out, to);
        out.push(s[i]);
        assert(old_out + (to@ + seq![t[0]] + replace_empty(t.drop_first(), to@)) =~= out@ + replace_empty(
            s@.skip(i + 1),
            to@,
        ));
        i = i + 1;
    }
    let ghost before = out@;
    push_all(&mut out, to);
    assert(s@.skip(i as int).len() == 0);
    assert(before + replace_empty(s@.skip(i as int), to@) =~= out@);
    out
}


/// Some pattern of `pats` occurs in `s`.
pub open spec fn contains_any_seq(s: Seq<char>, pats: Seq<Seq<char>>) -> bool {
    exists|i: int| 0 <= i < pats.len() && seq_contains(s, #[trigger] pats[i])
}

/// Whether some pattern of `pats` occurs in `s`.
pub fn contains_any(s: &Vec<char>, pats: &[&str]) -> (r: bool)
    ensures
        r == contains_any_seq(s@, pats@.map_values(|p: &str| p@)),
{
    let ghost ps = pats@.map_values(|p: &str| p@);
    let mut i: usize = 0;
    while i < pats.len()
        invariant
            i <= pats@.len(),
            ps == pats@.map_values(|p: &str| p@),
            forall|j: int| 0 <= j < i ==> !seq_contains(s@, #[trigger] ps[j]),
        decreases pats@.len() - i,
    {
        let p = chars_of(pats[i]);
        if contains_chars(s, &p) {
            assert(seq_contains(s@, ps[i as int]));
            return true;
        }
        i = i + 1;
    }
    false
}

} // verus!
