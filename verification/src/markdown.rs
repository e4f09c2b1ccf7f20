//! Message layout: word wrapping by display width, and Markdown rendered as
//! styled lines.

use vstd::prelude::*;
use pulldown_cmark::{Event, Parser, TagEnd};
use crate::text::{chars_of, string_of, push_all, lines_chars, lines_of, is_white_space, char_is_whitespace, join_seq};
use crate::unicode::{display_width, str_width, narrow_chars};

verus! {

// ---------------------------------------------------------------------
// Word wrapping
// ---------------------------------------------------------------------

/// `str::split_whitespace` as a fold over characters: the words found so far
/// and the word being read.
pub open spec fn words_fold(s: Seq<char>) -> (Seq<Seq<char>>, Seq<char>)
    decreases s.len(),
{
    if s.len() == 0 {
        (Seq::empty(), Seq::empty())
    } else {
        let (ws, cur) = words_fold(s.drop_last());
        if is_white_space(s.last()) {
            if cur.len() > 0 {
                (ws.push(cur), Seq::empty())
            } else {
                (ws, Seq::empty())
            }
        } else {
            (ws, cur.push(s.last()))
        }
    }
}

/// The maximal runs of non-white-space characters (`str::split_whitespace`).
pub open spec fn words_of(s: Seq<char>) -> Seq<Seq<char>> {
    let (ws, cur) = words_fold(s);
    if cur.len() > 0 {
        ws.push(cur)
    } else {
        ws
    }
}

/// `out` with `cur` added when it is not empty.
pub open spec fn flush(out: Seq<Seq<char>>, cur: Seq<char>) -> Seq<Seq<char>> {
    if cur.len() > 0 {
        out.push(cur)
    } else {
        out
    }
}

/// A word too wide for a line, broken by characters: each character goes
/// on the current piece unless that would make it wider than `max`, in
/// which case a non-empty piece is finished first.
pub open spec fn char_split(max: nat, st: (Seq<Seq<char>>, Seq<char>), cs: Seq<char>) -> (Seq<Seq<char>>, Seq<char>)
    decreases cs.len(),
{
    if cs.len() == 0 {
        st
    } else {
        let (out, piece) = char_split(max, st, cs.drop_last());
        let ch = cs.last();
        if str_width(piece) + str_width(seq![ch]) > max {
            (flush(out, piece), seq![ch])
        } else {
            (out, piece.push(ch))
        }
    }
}

/// One word added to the lines being built.
pub open spec fn wrap_step(max: nat, st: (Seq<Seq<char>>, Seq<char>), w: Seq<char>) -> (Seq<Seq<char>>, Seq<char>) {
    let (out, cur) = st;
    if str_width(w) > max {
        char_split(max, (flush(out, cur), Seq::empty()), w)
    } else if str_width(cur) + (if cur.len() == 0 {
        0int
    } else {
        1int
    }) + str_width(w) <= max {
        (out, if cur.len() == 0 {
            w
        } else {
            cur.push(' ') + w
        })
    } else {
        (flush(out, cur), w)
    }
}

/// The words added in turn.
pub open spec fn wrap_words(max: nat, ws: Seq<Seq<char>>) -> (Seq<Seq<char>>, Seq<char>)
    decreases ws.len(),
{
    if ws.len() == 0 {
        (Seq::empty(), Seq::empty())
    } else {
        wrap_step(max, wrap_words(max, ws.drop_last()), ws.last())
    }
}

/// The lines that one input line becomes: itself when it fits, else its
/// words filled greedily.
pub open spec fn wrap_line(max: nat, line: Seq<char>) -> Seq<Seq<char>> {
    if str_width(line) <= max {
        seq![line]
    } else {
        let (out, cur) = wrap_words(max, words_of(line));
        flush(out, cur)
    }
}

/// The lines that the input lines become.
pub open spec fn wrap_lines(max: nat, ls: Seq<Seq<char>>) -> Seq<Seq<char>>
    decreases ls.len(),
{
    if ls.len() == 0 {
        Seq::empty()
    } else {
        wrap_lines(max, ls.drop_last()) + wrap_line(max, ls.last())
    }
}

/// A text wrapped to `max` columns; the text itself when `max` is zero.
pub open spec fn wrapped(text: Seq<char>, max: nat) -> Seq<char> {
    if max == 0 {
        text
    } else {
        let w = wrap_lines(max, lines_of(text));
        join_seq(if w.len() == 0 {
            seq![Seq::<char>::empty()]
        } else {
            w
        }, "\n"@)
    }
}

/// Joining a first piece before a non-empty list adds one separator.
proof fn lemma_join_front(a: Seq<char>, rest: Seq<Seq<char>>, sep: Seq<char>)
    requires
        rest.len() > 0,
    ensures
        join_seq(seq![a] + rest, sep) == a + sep + join_seq(rest, sep),
    decreases rest.len(),
{
    let l = seq![a] + rest;
    if rest.len() == 1 {
        assert(l.drop_last() =~= seq![a]);
        assert(l.last() == rest[0]);
        assert(join_seq(l, sep) == join_seq(l.drop_last(), sep) + sep + l.last());
        assert(join_seq(l, sep) =~= a + sep + join_seq(rest, sep));
    } else {
        assert(l.drop_last() =~= seq![a] + rest.drop_last());
        lemma_join_front(a, rest.drop_last(), sep);
        assert(l.last() == rest.last());
        assert(join_seq(l, sep) == join_seq(l.drop_last(), sep) + sep + l.last());
        assert(join_seq(rest, sep) == join_seq(rest.drop_last(), sep) + sep + rest.last());
        assert(join_seq(l, sep) =~= a + sep + join_seq(rest, sep));
    }
}

/// A text without carriage returns that does not end in a line feed is its
/// lines joined by line feeds.
proof fn lemma_lines_join(s: Seq<char>)
    requires
        s.len() > 0,
        forall|j: int| 0 <= j < s.len() ==> s[j] != '\r',
        s.last() != '\n',
    ensures
        lines_of(s).len() > 0,
        join_seq(lines_of(s), "\n"@) == s,
    decreases s.len(),
{
    reveal_strlit("\n");
    let i = crate::text::char_index(s, '\n');
    crate::text::lemma_char_index(s, '\n');
    if 0 <= i < s.len() {
        let head = s.subrange(0, i);
        let rest = s.subrange(i + 1, s.len() as int);
        assert(i < s.len() - 1);
        assert(rest.last() == s.last());
        assert forall|j: int| 0 <= j < rest.len() implies rest[j] != '\r' by {
            assert(rest[j] == s[i + 1 + j]);
        }
        lemma_lines_join(rest);
        if head.len() > 0 {
            assert(head.last() == s[i - 1]);
        }
        assert(crate::text::strip_cr(head) == head);
        assert(lines_of(s) == seq![head] + lines_of(rest));
        lemma_join_front(head, lines_of(rest), "\n"@);
        assert(head + "\n"@ + rest =~= s);
    }
}

/// Lines that each fit are kept as they are.
proof fn lemma_wrap_lines_fit(max: nat, ls: Seq<Seq<char>>)
    requires
        forall|i: int| 0 <= i < ls.len() ==> str_width(#[trigger] ls[i]) <= max,
    ensures
        wrap_lines(max, ls) == ls,
    decreases ls.len(),
{
    if ls.len() > 0 {
        lemma_wrap_lines_fit(max, ls.drop_last());
        assert(ls.drop_last().push(ls.last()) =~= ls);
    }
}

/// The width is zero, or every line fits, the text has no carriage return
/// and does not end in a line feed.
pub open spec fn fits_as_is(text: Seq<char>, max: nat) -> bool {
    max == 0 || ({
        &&& forall|i: int| 0 <= i < lines_of(text).len() ==> str_width(#[trigger] lines_of(text)[i]) <= max
        &&& forall|j: int| 0 <= j < text.len() ==> text[j] != '\r'
        &&& !(text.len() > 0 && text.last() == '\n')
    })
}

/// Wrapping leaves a text unchanged when the width is zero, or when every
/// line fits, the text has no carriage return and does not end in a line
/// feed.
pub proof fn law_wrap_fitting_text_unchanged(text: Seq<char>, max: nat)
    requires
        fits_as_is(text, max),
    ensures
        wrapped(text, max) == text,
{
    if max > 0 {
        lemma_wrap_lines_fit(max, lines_of(text));
        if text.len() == 0 {
            assert(lines_of(text).len() == 0);
            assert(join_seq(seq![Seq::<char>::empty()], "\n"@) == Seq::<char>::empty());
        } else {
            lemma_lines_join(text);
        }
    }
}

/// The characters of `s` that are not white space, in order.
pub open spec fn visible(s: Seq<char>) -> Seq<char>
    decreases s.len(),
{
    if s.len() == 0 {
        Seq::empty()
    } else if is_white_space(s.last()) {
        visible(s.drop_last())
    } else {
        visible(s.drop_last()).push(s.last())
    }
}

/// The visible characters of all the lines, in order.
pub open spec fn visible_lines(ls: Seq<Seq<char>>) -> Seq<char>
    decreases ls.len(),
{
    if ls.len() == 0 {
        Seq::empty()
    } else {
        visible_lines(ls.drop_last()) + visible(ls.last())
    }
}

proof fn lemma_visible_add(a: Seq<char>, b: Seq<char>)
    ensures
        visible(a + b) == visible(a) + visible(b),
    decreases b.len(),
{
    if b.len() == 0 {
        assert(a + b =~= a);
        assert(visible(a) + visible(b) =~= visible(a));
    } else {
        assert((a + b).drop_last() =~= a + b.drop_last());
        assert((a + b).last() == b.last());
        lemma_visible_add(a, b.drop_last());
        if is_white_space(b.last()) {
        } else {
            assert(visible(a + b) =~= visible(a) + visible(b));
        }
    }
}

proof fn lemma_visible_lines_add(a: Seq<Seq<char>>, b: Seq<Seq<char>>)
    ensures
        visible_lines(a + b) == visible_lines(a) + visible_lines(b),
    decreases b.len(),
{
    if b.len() == 0 {
        assert(a + b =~= a);
        assert(visible_lines(a) + visible_lines(b) =~= visible_lines(a));
    } else {
        assert((a + b).drop_last() =~= a + b.drop_last());
        assert((a + b).last() == b.last());
        lemma_visible_lines_add(a, b.drop_last());
        assert(visible_lines(a + b) =~= visible_lines(a) + visible_lines(b));
    }
}

proof fn lemma_visible_one(l: Seq<char>)
    ensures
        visible_lines(seq![l]) == visible(l),
{
    assert(seq![l].drop_last() =~= Seq::<Seq<char>>::empty());
    assert(seq![l].last() == l);
    assert(visible_lines(Seq::<Seq<char>>::empty()) == Seq::<char>::empty());
    assert(visible_lines(seq![l]) == visible_lines(seq![l].drop_last()) + visible(seq![l].last()));
    assert(visible_lines(seq![l]) =~= visible(l));
}

proof fn lemma_visible_flush(out: Seq<Seq<char>>, cur: Seq<char>)
    ensures
        visible_lines(flush(out, cur)) == visible_lines(out) + visible(cur),
{
    if cur.len() > 0 {
        assert(out.push(cur).drop_last() =~= out);
    } else {
        assert(visible(cur) =~= Seq::<char>::empty());
        assert(visible_lines(out) + visible(cur) =~= visible_lines(out));
    }
}

/// The line feed, the space and the carriage return are white space.
proof fn lemma_separators_blank()
    ensures
        is_white_space('\n'),
        is_white_space(' '),
        is_white_space('\r'),
        visible("\n"@) == Seq::<char>::empty(),
        visible(seq![' ']) == Seq::<char>::empty(),
{
    reveal_strlit("\n");
    assert(('\n' as u32) == 10);
    assert((' ' as u32) == 32);
    assert(('\r' as u32) == 13);
    lemma_visible_blank_char('\n');
    lemma_visible_blank_char(' ');
    assert("\n"@ =~= seq!['\n']);
}

proof fn lemma_visible_blank_char(c: char)
    requires
        is_white_space(c),
    ensures
        visible(seq![c]) == Seq::<char>::empty(),
{
    let s = seq![c];
    assert(s.drop_last() =~= Seq::<char>::empty());
    assert(s.last() == c);
    assert(visible(s) == visible(s.drop_last()));
}

proof fn lemma_visible_join(ls: Seq<Seq<char>>)
    ensures
        visible(join_seq(ls, "\n"@)) == visible_lines(ls),
    decreases ls.len(),
{
    lemma_separators_blank();
    if ls.len() == 1 {
        lemma_visible_one(ls[0]);
        assert(ls =~= seq![ls[0]]);
    } else if ls.len() > 1 {
        lemma_visible_join(ls.drop_last());
        lemma_visible_add(join_seq(ls.drop_last(), "\n"@), "\n"@);
        lemma_visible_add(join_seq(ls.drop_last(), "\n"@) + "\n"@, ls.last());
        assert(visible(join_seq(ls.drop_last(), "\n"@)) + Seq::<char>::empty() =~= visible(
            join_seq(ls.drop_last(), "\n"@),
        ));
    }
}

proof fn lemma_visible_words_fold(s: Seq<char>)
    ensures
        visible_lines(words_fold(s).0) + visible(words_fold(s).1) == visible(s),
    decreases s.len(),
{
    if s.len() > 0 {
        lemma_visible_words_fold(s.drop_last());
        let (ws, cur) = words_fold(s.drop_last());
        if is_white_space(s.last()) {
            if cur.len() > 0 {
                assert(ws.push(cur).drop_last() =~= ws);
                assert(visible(Seq::<char>::empty()) =~= Seq::<char>::empty());
                assert(visible_lines(ws.push(cur)) + visible(Seq::<char>::empty()) =~= visible_lines(ws)
                    + visible(cur));
            } else {
                assert(visible(cur) =~= Seq::<char>::empty());
            }
        } else {
            assert(cur.push(s.last()).drop_last() =~= cur);
            assert(visible_lines(ws) + visible(cur.push(s.last())) =~= (visible_lines(ws) + visible(cur)).push(
                s.last(),
            ));
        }
    }
}

proof fn lemma_visible_words(s: Seq<char>)
    ensures
        visible_lines(words_of(s)) == visible(s),
{
    lemma_visible_words_fold(s);
    lemma_visible_flush(words_fold(s).0, words_fold(s).1);
}

proof fn lemma_visible_char_split(max: nat, st: (Seq<Seq<char>>, Seq<char>), cs: Seq<char>)
    ensures
        visible_lines(char_split(max, st, cs).0) + visible(char_split(max, st, cs).1) == visible_lines(st.0)
            + visible(st.1) + visible(cs),
    decreases cs.len(),
{
    if cs.len() == 0 {
        assert(visible(cs) =~= Seq::<char>::empty());
        assert(visible_lines(st.0) + visible(st.1) + visible(cs) =~= visible_lines(st.0) + visible(st.1));
    } else {
        lemma_visible_char_split(max, st, cs.drop_last());
        let (out, piece) = char_split(max, st, cs.drop_last());
        let ch = cs.last();
        lemma_visible_add(cs.drop_last(), seq![ch]);
        assert(cs.drop_last() + seq![ch] =~= cs);
        lemma_visible_add(piece, seq![ch]);
        assert(piece + seq![ch] =~= piece.push(ch));
        lemma_visible_flush(out, piece);
        assert(seq![ch].drop_last() =~= Seq::<char>::empty());
        lemma_visible_add(Seq::<char>::empty(), seq![ch]);
        assert(Seq::<char>::empty() + seq![ch] =~= seq![ch]);
        assert(visible(Seq::<char>::empty()) =~= Seq::<char>::empty());
        if str_width(piece) + str_width(seq![ch]) > max {
            assert(char_split(max, st, cs) == (flush(out, piece), seq![ch]));
            assert(visible_lines(flush(out, piece)) + visible(seq![ch]) =~= visible_lines(out) + visible(piece)
                + visible(seq![ch]));
        } else {
            assert(char_split(max, st, cs) == (out, piece.push(ch)));
            assert(visible_lines(out) + visible(piece.push(ch)) =~= visible_lines(out) + visible(piece) + visible(
                seq![ch],
            ));
        }
        assert(visible(cs) == visible(cs.drop_last()) + visible(seq![ch]));
        assert(visible_lines(char_split(max, st, cs).0) + visible(char_split(max, st, cs).1) =~= visible_lines(
            st.0,
        ) + visible(st.1) + visible(cs));
    }
}

proof fn lemma_visible_wrap_words(max: nat, ws: Seq<Seq<char>>)
    ensures
        visible_lines(wrap_words(max, ws).0) + visible(wrap_words(max, ws).1) == visible_lines(ws),
    decreases ws.len(),
{
    lemma_separators_blank();
    if ws.len() == 0 {
        assert(visible(Seq::<char>::empty()) =~= Seq::<char>::empty());
        assert(visible_lines(Seq::<Seq<char>>::empty()) + Seq::<char>::empty() =~= Seq::<char>::empty());
    } else {
        lemma_visible_wrap_words(max, ws.drop_last());
        let (out, cur) = wrap_words(max, ws.drop_last());
        let w = ws.last();
        lemma_visible_flush(out, cur);
        assert(visible(Seq::<char>::empty()) =~= Seq::<char>::empty());
        if str_width(w) > max {
            lemma_visible_char_split(max, (flush(out, cur), Seq::empty()), w);
            assert(visible_lines(flush(out, cur)) + visible(Seq::<char>::empty()) + visible(w) =~= visible_lines(out)
                + visible(cur) + visible(w));
        } else if str_width(cur) + (if cur.len() == 0 {
            0int
        } else {
            1int
        }) + str_width(w) <= max {
            if cur.len() > 0 {
                lemma_visible_add(cur.push(' '), w);
                lemma_visible_add(cur, seq![' ']);
                assert(cur + seq![' '] =~= cur.push(' '));
                assert(visible(cur) + Seq::<char>::empty() =~= visible(cur));
            } else {
                assert(visible(cur) =~= Seq::<char>::empty());
                assert(Seq::<char>::empty() + visible(w) =~= visible(w));
            }
        }
        assert(visible_lines(ws) =~= visible_lines(ws.drop_last()) + visible(w));
        assert(visible_lines(wrap_words(max, ws).0) + visible(wrap_words(max, ws).1) =~= visible_lines(out)
            + visible(cur) + visible(w));
    }
}

proof fn lemma_visible_wrap_line(max: nat, line: Seq<char>)
    ensures
        visible_lines(wrap_line(max, line)) == visible(line),
{
    if str_width(line) <= max {
        lemma_visible_one(line);
    } else {
        lemma_visible_wrap_words(max, words_of(line));
        lemma_visible_flush(wrap_words(max, words_of(line)).0, wrap_words(max, words_of(line)).1);
        lemma_visible_words(line);
    }
}

proof fn lemma_visible_wrap_lines(max: nat, ls: Seq<Seq<char>>)
    ensures
        visible_lines(wrap_lines(max, ls)) == visible_lines(ls),
    decreases ls.len(),
{
    if ls.len() > 0 {
        lemma_visible_wrap_lines(max, ls.drop_last());
        lemma_visible_lines_add(wrap_lines(max, ls.drop_last()), wrap_line(max, ls.last()));
        lemma_visible_wrap_line(max, ls.last());
    }
}

proof fn lemma_visible_lines_of(s: Seq<char>)
    ensures
        visible_lines(lines_of(s)) == visible(s),
    decreases s.len(),
{
    lemma_separators_blank();
    if s.len() > 0 {
        let i = crate::text::char_index(s, '\n');
        crate::text::lemma_char_index(s, '\n');
        if 0 <= i < s.len() {
            let head = s.subrange(0, i);
            let rest = s.subrange(i + 1, s.len() as int);
            lemma_visible_lines_of(rest);
            assert(lines_of(s) == seq![crate::text::strip_cr(head)] + lines_of(rest));
            lemma_visible_lines_add(seq![crate::text::strip_cr(head)], lines_of(rest));
            lemma_visible_one(crate::text::strip_cr(head));
            if head.len() > 0 && head.last() == '\r' {
                assert(visible(head) == visible(head.drop_last()));
            }
            assert(visible(crate::text::strip_cr(head)) == visible(head));
            assert(head + seq!['\n'] + rest =~= s);
            lemma_visible_add(head, seq!['\n']);
            lemma_visible_add(head + seq!['\n'], rest);
            lemma_visible_blank_char('\n');
            assert(visible(head) + Seq::<char>::empty() =~= visible(head));
        } else {
            lemma_visible_one(s);
        }
    }
}

/// Wrapping neither loses, adds nor reorders a visible character: the
/// characters that are not white space are those of the text, in order.
pub proof fn law_wrap_keeps_visible(text: Seq<char>, max: nat)
    ensures
        visible(wrapped(text, max)) == visible(text),
{
    if max > 0 {
        let w = wrap_lines(max, lines_of(text));
        lemma_visible_wrap_lines(max, lines_of(text));
        lemma_visible_lines_of(text);
        if w.len() == 0 {
            lemma_visible_join(seq![Seq::<char>::empty()]);
            lemma_visible_one(Seq::<char>::empty());
            assert(visible(Seq::<char>::empty()) =~= Seq::<char>::empty());
            assert(visible_lines(w) =~= Seq::<char>::empty());
        } else {
            lemma_visible_join(w);
        }
    }
}

/// Every line is at most `max` characters long.
pub open spec fn within(ls: Seq<Seq<char>>, max: nat) -> bool {
    forall|i: int| 0 <= i < ls.len() ==> (#[trigger] ls[i]).len() <= max
}

proof fn lemma_narrow_words(s: Seq<char>)
    requires
        narrow_chars(s),
    ensures
        forall|i: int| 0 <= i < words_of(s).len() ==> narrow_chars(#[trigger] words_of(s)[i]),
{
    lemma_narrow_words_fold(s);
}

proof fn lemma_narrow_words_fold(s: Seq<char>)
    requires
        narrow_chars(s),
    ensures
        forall|i: int| 0 <= i < words_fold(s).0.len() ==> narrow_chars(#[trigger] words_fold(s).0[i]),
        narrow_chars(words_fold(s).1),
    decreases s.len(),
{
    if s.len() > 0 {
        assert(narrow_chars(s.drop_last())) by {
            assert forall|i: int| 0 <= i < s.drop_last().len() implies s.drop_last()[i] <= '\u{A0}'
                && s.drop_last()[i] != '\r' by {
                assert(s.drop_last()[i] == s[i]);
            }
        }
        lemma_narrow_words_fold(s.drop_last());
        let (ws, cur) = words_fold(s.drop_last());
        if !is_white_space(s.last()) {
            let c2 = cur.push(s.last());
            assert forall|i: int| 0 <= i < c2.len() implies c2[i] <= '\u{A0}' && c2[i] != '\r' by {
                if i < cur.len() {
                    assert(c2[i] == cur[i]);
                }
            }
        } else if cur.len() > 0 {
            assert forall|i: int| 0 <= i < ws.push(cur).len() implies narrow_chars(#[trigger] ws.push(cur)[i]) by {
                if i < ws.len() {
                    assert(ws.push(cur)[i] == ws[i]);
                }
            }
        }
    }
}

proof fn lemma_narrow_lines(s: Seq<char>)
    requires
        narrow_chars(s),
    ensures
        forall|i: int| 0 <= i < lines_of(s).len() ==> narrow_chars(#[trigger] lines_of(s)[i]),
    decreases s.len(),
{
    if s.len() > 0 {
        let i = crate::text::char_index(s, '\n');
        crate::text::lemma_char_index(s, '\n');
        if 0 <= i < s.len() {
            let head = s.subrange(0, i);
            let rest = s.subrange(i + 1, s.len() as int);
            assert(narrow_chars(rest)) by {
                assert forall|j: int| 0 <= j < rest.len() implies rest[j] <= '\u{A0}' && rest[j] != '\r' by {
                    assert(rest[j] == s[i + 1 + j]);
                }
            }
            lemma_narrow_lines(rest);
            let h = crate::text::strip_cr(head);
            assert(narrow_chars(h)) by {
                assert forall|j: int| 0 <= j < h.len() implies h[j] <= '\u{A0}' && h[j] != '\r' by {
                    assert(h[j] == s[j]);
                }
            }
            assert(lines_of(s) == seq![h] + lines_of(rest));
            assert forall|k: int| 0 <= k < lines_of(s).len() implies narrow_chars(#[trigger] lines_of(s)[k]) by {
                if k > 0 {
                    assert(lines_of(s)[k] == lines_of(rest)[k - 1]);
                }
            }
        }
    }
}

/// No character of `s` is a line feed.
pub open spec fn no_newline(s: Seq<char>) -> bool {
    forall|i: int| 0 <= i < s.len() ==> s[i] != '\n'
}

/// No line of `ls` holds a line feed.
pub open spec fn all_no_newline(ls: Seq<Seq<char>>) -> bool {
    forall|i: int| 0 <= i < ls.len() ==> no_newline(#[trigger] ls[i])
}

proof fn lemma_nn_push(ls: Seq<Seq<char>>, l: Seq<char>)
    requires
        all_no_newline(ls),
        no_newline(l),
    ensures
        all_no_newline(ls.push(l)),
{
    assert forall|i: int| 0 <= i < ls.push(l).len() implies no_newline(#[trigger] ls.push(l)[i]) by {
        if i < ls.len() {
            assert(ls.push(l)[i] == ls[i]);
        }
    }
}

proof fn lemma_nn_flush(out: Seq<Seq<char>>, cur: Seq<char>)
    requires
        all_no_newline(out),
        no_newline(cur),
    ensures
        all_no_newline(flush(out, cur)),
{
    if cur.len() > 0 {
        lemma_nn_push(out, cur);
    }
}

proof fn lemma_nn_concat(a: Seq<Seq<char>>, b: Seq<Seq<char>>)
    requires
        all_no_newline(a),
        all_no_newline(b),
    ensures
        all_no_newline(a + b),
{
    assert forall|i: int| 0 <= i < (a + b).len() implies no_newline(#[trigger] (a + b)[i]) by {
        if i < a.len() {
            assert((a + b)[i] == a[i]);
        } else {
            assert((a + b)[i] == b[i - a.len()]);
        }
    }
}

proof fn lemma_nn_words_fold(s: Seq<char>)
    requires
        no_newline(s),
    ensures
        all_no_newline(words_fold(s).0),
        no_newline(words_fold(s).1),
    decreases s.len(),
{
    if s.len() > 0 {
        assert(no_newline(s.drop_last())) by {
            assert forall|i: int| 0 <= i < s.drop_last().len() implies s.drop_last()[i] != '\n' by {
                assert(s.drop_last()[i] == s[i]);
            }
        }
        lemma_nn_words_fold(s.drop_last());
        let (ws, cur) = words_fold(s.drop_last());
        if !is_white_space(s.last()) {
            let c2 = cur.push(s.last());
            assert forall|i: int| 0 <= i < c2.len() implies c2[i] != '\n' by {
                if i < cur.len() {
                    assert(c2[i] == cur[i]);
                }
            }
        } else if cur.len() > 0 {
            lemma_nn_push(ws, cur);
        }
    }
}

proof fn lemma_nn_char_split(max: nat, st: (Seq<Seq<char>>, Seq<char>), cs: Seq<char>)
    requires
        all_no_newline(st.0),
        no_newline(st.1),
        no_newline(cs),
    ensures
        all_no_newline(char_split(max, st, cs).0),
        no_newline(char_split(max, st, cs).1),
    decreases cs.len(),
{
    if cs.len() > 0 {
        assert(no_newline(cs.drop_last())) by {
            assert forall|i: int| 0 <= i < cs.drop_last().len() implies cs.drop_last()[i] != '\n' by {
                assert(cs.drop_last()[i] == cs[i]);
            }
        }
        lemma_nn_char_split(max, st, cs.drop_last());
        let (out, piece) = char_split(max, st, cs.drop_last());
        let ch = cs.last();
        lemma_nn_flush(out, piece);
        assert(no_newline(seq![ch]));
        let p2 = piece.push(ch);
        assert forall|i: int| 0 <= i < p2.len() implies p2[i] != '\n' by {
            if i < piece.len() {
                assert(p2[i] == piece[i]);
            }
        }
    }
}

proof fn lemma_nn_wrap_words(max: nat, ws: Seq<Seq<char>>)
    requires
        all_no_newline(ws),
    ensures
        all_no_newline(wrap_words(max, ws).0),
        no_newline(wrap_words(max, ws).1),
    decreases ws.len(),
{
    if ws.len() > 0 {
        assert(all_no_newline(ws.drop_last())) by {
            assert forall|i: int| 0 <= i < ws.drop_last().len() implies no_newline(#[trigger] ws.drop_last()[i]) by {
                assert(ws.drop_last()[i] == ws[i]);
            }
        }
        lemma_nn_wrap_words(max, ws.drop_last());
        let (out, cur) = wrap_words(max, ws.drop_last());
        let w = ws.last();
        assert(no_newline(w));
        lemma_nn_flush(out, cur);
        assert(no_newline(Seq::<char>::empty()));
        if str_width(w) > max {
            lemma_nn_char_split(max, (flush(out, cur), Seq::empty()), w);
        } else if cur.len() > 0 {
            let c2 = cur.push(' ') + w;
            assert forall|i: int| 0 <= i < c2.len() implies c2[i] != '\n' by {
                if i < cur.len() {
                    assert(c2[i] == cur[i]);
                } else if i > cur.len() {
                    assert(c2[i] == w[i - cur.len() - 1]);
                }
            }
        }
    }
}

proof fn lemma_nn_wrap_lines(max: nat, ls: Seq<Seq<char>>)
    requires
        all_no_newline(ls),
    ensures
        all_no_newline(wrap_lines(max, ls)),
    decreases ls.len(),
{
    if ls.len() > 0 {
        assert(all_no_newline(ls.drop_last())) by {
            assert forall|i: int| 0 <= i < ls.drop_last().len() implies no_newline(#[trigger] ls.drop_last()[i]) by {
                assert(ls.drop_last()[i] == ls[i]);
            }
        }
        lemma_nn_wrap_lines(max, ls.drop_last());
        let l = ls.last();
        assert(no_newline(l));
        if str_width(l) <= max {
            assert(all_no_newline(seq![l])) by {
                assert forall|i: int| 0 <= i < seq![l].len() implies no_newline(#[trigger] seq![l][i]) by {
                    assert(seq![l][i] == l);
                }
            }
        } else {
            lemma_nn_words_fold(l);
            lemma_nn_wrap_words(max, words_of(l));
            lemma_nn_flush(wrap_words(max, words_of(l)).0, wrap_words(max, words_of(l)).1);
            lemma_nn_flush(words_fold(l).0, words_fold(l).1);
        }
        lemma_nn_concat(wrap_lines(max, ls.drop_last()), wrap_line(max, l));
    }
}

proof fn lemma_nn_lines_of(s: Seq<char>)
    ensures
        all_no_newline(lines_of(s)),
    decreases s.len(),
{
    if s.len() > 0 {
        let i = crate::text::char_index(s, '\n');
        crate::text::lemma_char_index(s, '\n');
        if 0 <= i < s.len() {
            let rest = s.subrange(i + 1, s.len() as int);
            lemma_nn_lines_of(rest);
            let h = crate::text::strip_cr(s.subrange(0, i));
            assert(no_newline(h)) by {
                assert forall|j: int| 0 <= j < h.len() implies h[j] != '\n' by {
                    assert(h[j] == s[j]);
                }
            }
            assert(lines_of(s) == seq![h] + lines_of(rest));
            assert(all_no_newline(seq![h])) by {
                assert forall|k: int| 0 <= k < seq![h].len() implies no_newline(#[trigger] seq![h][k]) by {
                    assert(seq![h][k] == h);
                }
            }
            lemma_nn_concat(seq![h], lines_of(rest));
        } else {
            assert(i == s.len());
            assert(lines_of(s) == seq![s]);
            assert(all_no_newline(seq![s])) by {
                assert forall|k: int| 0 <= k < seq![s].len() implies no_newline(#[trigger] seq![s][k]) by {
                    assert(seq![s][k] == s);
                }
            }
        }
    }
}

/// Splitting at line feeds undoes joining with them, for lines without one.
proof fn lemma_split_join(ls: Seq<Seq<char>>)
    requires
        ls.len() > 0,
        all_no_newline(ls),
    ensures
        crate::text::split_on(join_seq(ls, "\n"@), '\n') == ls,
    decreases ls.len(),
{
    reveal_strlit("\n");
    let a = ls[0];
    assert(no_newline(a));
    if ls.len() == 1 {
        assert(ls =~= seq![a]);
        crate::text::lemma_char_index(a, '\n');
        assert(crate::text::split_on(a, '\n') == seq![a]);
    } else {
        let rest = ls.drop_first();
        assert(ls =~= seq![a] + rest);
        assert(all_no_newline(rest)) by {
            assert forall|i: int| 0 <= i < rest.len() implies no_newline(#[trigger] rest[i]) by {
                assert(rest[i] == ls[i + 1]);
            }
        }
        lemma_join_front(a, rest, "\n"@);
        lemma_split_join(rest);
        let j = join_seq(rest, "\n"@);
        let t = a + "\n"@ + j;
        crate::text::lemma_char_index(t, '\n');
        assert(t[a.len() as int] == '\n');
        let idx = crate::text::char_index(t, '\n');
        if idx < a.len() {
            assert(t[idx] == a[idx]);
        }
        assert(idx == a.len());
        assert(t.subrange(0, idx) =~= a);
        assert(t.subrange(idx + 1, t.len() as int) =~= j);
    }
}

fn width_of(v: &Vec<char>) -> (r: usize)
    ensures
        r == str_width(v@),
        narrow_chars(v@) ==> r == v@.len(),
{
    let s = string_of(v);
    display_width(s.as_str())
}

fn words_in(s: &Vec<char>) -> (r: Vec<Vec<char>>)
    ensures
        r.deep_view() == words_of(s@),
{
    let mut ws: Vec<Vec<char>> = Vec::new();
    let mut cur: Vec<char> = Vec::new();
    let mut i: usize = 0;
    while i < s.len()
        invariant
            i <= s.len(),
            (ws.deep_view(), cur@) == words_fold(s@.take(i as int)),
        decreases s.len() - i,
    {
        assert(s@.take(i + 1).drop_last() =~= s@.take(i as int));
        let c = s[i];
        if char_is_whitespace(c) {
            if cur.len() > 0 {
                let ghost before = ws.deep_view();
                let ghost cv = cur@;
                assert(cur.deep_view() =~= cur@);
                ws.push(cur);
                cur = Vec::new();
                assert(ws.deep_view() =~= before.push(cv));
            } else {
                cur = Vec::new();
            }
            assert(cur@ =~= Seq::<char>::empty());
        } else {
            cur.push(c);
        }
        i = i + 1;
    }
    assert(s@.take(i as int) =~= s@);
    if cur.len() > 0 {
        let ghost before = ws.deep_view();
        let ghost cv = cur@;
        assert(cur.deep_view() =~= cur@);
        ws.push(cur);
        assert(ws.deep_view() =~= before.push(cv));
    }
    ws
}

fn push_line(out: &mut Vec<Vec<char>>, line: Vec<char>)
    ensures
        final(out).deep_view() == old(out).deep_view().push(line@),
{
    let ghost before = out.deep_view();
    let ghost lv = line@;
    assert(line.deep_view() =~= line@);
    out.push(line);
    assert(out.deep_view() =~= before.push(lv));
}

fn break_word(max: usize, out: &mut Vec<Vec<char>>, w: &Vec<char>) -> (piece: Vec<char>)
    ensures
        (final(out).deep_view(), piece@) == char_split(max as nat, (old(out).deep_view(), Seq::empty()), w@),
        max > 0 && narrow_chars(w@) && within(old(out).deep_view(), max as nat) ==> within(
            final(out).deep_view(),
            max as nat,
        ) && piece@.len() <= max && narrow_chars(piece@),
{
    let mut piece: Vec<char> = Vec::new();
    let mut i: usize = 0;
    assert(w@.take(0) =~= Seq::<char>::empty());
    assert(piece@ =~= Seq::<char>::empty());
    let ghost start = out.deep_view();
    while i < w.len()
        invariant
            i <= w.len(),
            (out.deep_view(), piece@) == char_split(max as nat, (start, Seq::empty()), w@.take(i as int)),
            max > 0 && narrow_chars(w@) && within(start, max as nat) ==> within(out.deep_view(), max as nat)
                && piece@.len() <= max && narrow_chars(piece@),
        decreases w.len() - i,
    {
        assert(w@.take(i + 1).drop_last() =~= w@.take(i as int));
        let ch = w[i];
        let one = vec![ch];
        let pw = width_of(&piece);
        let cw = width_of(&one);
        assert(one@ =~= seq![ch]);
        let ghost before = out.deep_view();
        let ghost p0 = piece@;
        if (pw as u128) + (cw as u128) > (max as u128) {
            if piece.len() > 0 {
                push_line(out, piece);
            }
            piece = one;
        } else {
            piece.push(ch);
        }
        proof {
            if max > 0 && narrow_chars(w@) && within(start, max as nat) {
                assert(narrow_chars(seq![ch])) by {
                    assert(seq![ch][0] == w@[i as int]);
                }
                assert forall|j: int| 0 <= j < out.deep_view().len() implies (#[trigger] out.deep_view()[j]).len()
                    <= max by {
                    if j < before.len() {
                        assert(out.deep_view()[j] == before[j]);
                    }
                }
                if piece@ =~= seq![ch] {
                } else {
                    assert(piece@ == p0.push(ch));
                    assert forall|j: int| 0 <= j < piece@.len() implies piece@[j] <= '\u{A0}' && piece@[j] != '\r' by {
                        if j < p0.len() {
                            assert(piece@[j] == p0[j]);
                        } else {
                            assert(piece@[j] == w@[i as int]);
                        }
                    }
                }
            }
        }
        i = i + 1;
    }
    assert(w@.take(i as int) =~= w@);
    piece
}

fn wrap_one_line(max: usize, out: &mut Vec<Vec<char>>, line: &Vec<char>)
    ensures
        final(out).deep_view() == old(out).deep_view() + wrap_line(max as nat, line@),
        max > 0 && narrow_chars(line@) ==> within(wrap_line(max as nat, line@), max as nat),
{
    let ghost start = out.deep_view();
    if width_of(line) <= max {
        assert(line@.subrange(0, line@.len() as int) =~= line@);
        push_line(out, crate::text::slice_chars(line, 0, line.len()));
        assert(out.deep_view() =~= start + seq![line@]);
        return;
    }
    let words = words_in(line);
    proof {
        if max > 0 && narrow_chars(line@) {
            lemma_narrow_words(line@);
        }
    }
    let mut lines: Vec<Vec<char>> = Vec::new();
    let mut cur: Vec<char> = Vec::new();
    let mut k: usize = 0;
    while k < words.len()
        invariant
            k <= words.len(),
            words.deep_view() == words_of(line@),
            (lines.deep_view(), cur@) == wrap_words(max as nat, words.deep_view().take(k as int)),
            max > 0 && narrow_chars(line@) ==> forall|i: int|
                0 <= i < words.deep_view().len() ==> narrow_chars(#[trigger] words.deep_view()[i]),
            max > 0 && narrow_chars(line@) ==> within(lines.deep_view(), max as nat) && cur@.len() <= max
                && narrow_chars(cur@),
        decreases words.len() - k,
    {
        let ghost l0 = lines.deep_view();
        let ghost c0 = cur@;
        assert(words.deep_view().take(k + 1).drop_last() =~= words.deep_view().take(k as int));
        let w = &words[k];
        assert(words.deep_view()[k as int] =~= w@);
        let ww = width_of(w);
        if ww > max {
            if cur.len() > 0 {
                push_line(&mut lines, cur);
            }
            cur = break_word(max, &mut lines, w);
        } else {
            let cw = width_of(&cur);
            let sp: u128 = if cur.len() == 0 {
                0
            } else {
                1
            };
            if (cw as u128) + sp + (ww as u128) <= (max as u128) {
                assert(w@.subrange(0, w@.len() as int) =~= w@);
                if cur.len() == 0 {
                    cur = crate::text::slice_chars(w, 0, w.len());
                } else {
                    cur.push(' ');
                    push_all(&mut cur, w);
                    proof {
                        if max > 0 && narrow_chars(line@) {
                            assert(narrow_chars(w@));
                            assert(cur@ =~= c0.push(' ') + w@);
                            assert forall|j: int| 0 <= j < cur@.len() implies cur@[j] <= '\u{A0}' && cur@[j]
                                != '\r' by {
                                if j < c0.len() {
                                    assert(cur@[j] == c0[j]);
                                } else if j > c0.len() {
                                    assert(cur@[j] == w@[j - c0.len() - 1]);
                                }
                            }
                        }
                    }
                }
            } else {
                if cur.len() > 0 {
                    push_line(&mut lines, cur);
                }
                assert(w@.subrange(0, w@.len() as int) =~= w@);
                cur = crate::text::slice_chars(w, 0, w.len());
            }
        }
        proof {
            if max > 0 && narrow_chars(line@) {
                assert(narrow_chars(w@));
                lemma_within_flush(l0, c0, max as nat);
            }
        }
        k = k + 1;
    }
    assert(words.deep_view().take(k as int) =~= words.deep_view());
    let ghost l1 = lines.deep_view();
    let ghost c1 = cur@;
    if cur.len() > 0 {
        push_line(&mut lines, cur);
    }
    proof {
        if max > 0 && narrow_chars(line@) {
            lemma_within_flush(l1, c1, max as nat);
        }
    }
    let mut j: usize = 0;
    let ghost produced = lines.deep_view();
    while j < lines.len()
        invariant
            j <= lines.len(),
            lines.deep_view() == produced,
            out.deep_view() == start + produced.take(j as int),
        decreases lines.len() - j,
    {
        assert(lines.deep_view()[j as int] =~= lines[j as int]@);
        assert(lines[j as int]@.subrange(0, lines[j as int]@.len() as int) =~= lines[j as int]@);
        push_line(out, crate::text::slice_chars(&lines[j], 0, lines[j].len()));
        assert(produced.take(j + 1) =~= produced.take(j as int).push(lines[j as int]@));
        j = j + 1;
    }
    assert(produced.take(j as int) =~= produced);
    assert(out.deep_view() == start + produced);
    assert(produced =~= wrap_line(max as nat, line@)) by {
        assert(start + produced =~= start + wrap_line(max as nat, line@));
        assert forall|i: int| 0 <= i < produced.len() implies produced[i] == wrap_line(max as nat, line@)[i] by {
            assert((start + produced)[start.len() + i] == produced[i]);
            assert((start + wrap_line(max as nat, line@))[start.len() + i] == wrap_line(max as nat, line@)[i]);
        }
    }
}

proof fn lemma_within_flush(out: Seq<Seq<char>>, cur: Seq<char>, max: nat)
    requires
        within(out, max),
        cur.len() <= max,
    ensures
        within(flush(out, cur), max),
{
    if cur.len() > 0 {
        assert forall|i: int| 0 <= i < out.push(cur).len() implies (#[trigger] out.push(cur)[i]).len() <= max by {
            if i < out.len() {
                assert(out.push(cur)[i] == out[i]);
            }
        }
    }
}

/// Wraps a text to `max_width` columns, line by line: a line that fits
/// stays; a longer one is filled word by word, and a word wider than the
/// limit is broken by characters. The text is returned unchanged for a
/// width of zero, and an empty text gives one empty line.
pub fn wrap_text(text: &str, max_width: usize) -> (r: String)
    ensures
        r@ == wrapped(text@, max_width as nat),
        max_width > 0 && narrow_chars(text@) ==> within(
            wrap_lines(max_width as nat, lines_of(text@)),
            max_width as nat,
        ),
        max_width > 0 && narrow_chars(text@) ==> within(crate::text::split_on(r@, '\n'), max_width as nat),
        visible(r@) == visible(text@),
        fits_as_is(text@, max_width as nat) ==> r@ == text@,
{
    proof {
        law_wrap_keeps_visible(text@, max_width as nat);
        if fits_as_is(text@, max_width as nat) {
            law_wrap_fitting_text_unchanged(text@, max_width as nat);
        }
    }
    if max_width == 0 {
        return crate::text::to_owned_string(text);
    }
    let chars = chars_of(text);
    let lines = lines_chars(&chars);
    proof {
        if narrow_chars(text@) {
            lemma_narrow_lines(text@);
        }
    }
    let mut out: Vec<Vec<char>> = Vec::new();
    let mut i: usize = 0;
    while i < lines.len()
        invariant
            i <= lines.len(),
            lines.deep_view() == lines_of(text@),
            out.deep_view() == wrap_lines(max_width as nat, lines.deep_view().take(i as int)),
            max_width > 0,
            narrow_chars(text@) ==> forall|k: int|
                0 <= k < lines.deep_view().len() ==> narrow_chars(#[trigger] lines.deep_view()[k]),
            narrow_chars(text@) ==> within(out.deep_view(), max_width as nat),
        decreases lines.len() - i,
    {
        assert(lines.deep_view().take(i + 1).drop_last() =~= lines.deep_view().take(i as int));
        assert(lines.deep_view()[i as int] == lines[i as int]@);
        let ghost o0 = out.deep_view();
        wrap_one_line(max_width, &mut out, &lines[i]);
        proof {
            if narrow_chars(text@) {
                let added = wrap_line(max_width as nat, lines[i as int]@);
                assert forall|j: int| 0 <= j < out.deep_view().len() implies (#[trigger] out.deep_view()[j]).len()
                    <= max_width by {
                    if j < o0.len() {
                        assert(out.deep_view()[j] == o0[j]);
                    } else {
                        assert(out.deep_view()[j] == added[j - o0.len()]);
                    }
                }
            }
        }
        i = i + 1;
    }
    assert(lines.deep_view().take(i as int) =~= lines.deep_view());
    if out.len() == 0 {
        push_line(&mut out, Vec::new());
        assert(out.deep_view() =~= seq![Seq::<char>::empty()]);
    }
    let mut res: Vec<char> = Vec::new();
    let nl = chars_of("\n");
    let mut j: usize = 0;
    while j < out.len()
        invariant
            j <= out.len(),
            out.deep_view().len() > 0,
            nl@ == "\n"@,
            res@ == join_seq(out.deep_view().take(j as int), "\n"@),
        decreases out.len() - j,
    {
        if j > 0 {
            push_all(&mut res, &nl);
        }
        push_all(&mut res, &out[j]);
        proof {
            let l = out.deep_view().take(j + 1);
            assert(l.drop_last() =~= out.deep_view().take(j as int));
            assert(out.deep_view()[j as int] =~= out[j as int]@);
            assert(l.last() == out[j as int]@);
            if j == 0 {
                assert(res@ =~= l[0]);
            } else {
                assert(res@ =~= join_seq(l.drop_last(), "\n"@) + "\n"@ + l.last());
            }
        }
        j = j + 1;
    }
    assert(out.deep_view().take(j as int) =~= out.deep_view());
    proof {
        if narrow_chars(text@) {
            let w = wrap_lines(max_width as nat, lines_of(text@));
            lemma_nn_lines_of(text@);
            lemma_nn_wrap_lines(max_width as nat, lines_of(text@));
            let w2 = out.deep_view();
            assert(all_no_newline(w2)) by {
                if w.len() == 0 {
                    assert(w2 =~= seq![Seq::<char>::empty()]);
                    assert forall|k: int| 0 <= k < w2.len() implies no_newline(#[trigger] w2[k]) by {
                        assert(w2[k] =~= Seq::<char>::empty());
                    }
                } else {
                    assert(w2 == w);
                }
            }
            lemma_split_join(w2);
            assert forall|k: int| 0 <= k < w2.len() implies (#[trigger] w2[k]).len() <= max_width by {
                if w.len() == 0 {
                    assert(w2[k] =~= Seq::<char>::empty());
                } else {
                    assert(w2[k] == w[k]);
                }
            }
        }
    }
    string_of(&res)
}

} // verus!

verus! {

// ---------------------------------------------------------------------
// Markdown
// ---------------------------------------------------------------------

/// The Markdown elements whose start and end change the rendering.
#[derive(Debug, Clone, Copy, PartialEq, Eq, Structural)]
pub enum MdTag {
    Paragraph,
    CodeBlock,
    Strong,
    Emphasis,
    Other,
}

/// A Markdown parser event, as far as rendering reads it.
#[derive(Debug)]
pub enum MdEvent {
    Start(MdTag),
    End(MdTag),
    Text(String),
    Code(String),
    SoftBreak,
    HardBreak,
    Other,
}

/// The plain-value model of an event.
pub enum MdEventView {
    Start(MdTag),
    End(MdTag),
    Text(Seq<char>),
    Code(Seq<char>),
    SoftBreak,
    HardBreak,
    Other,
}

impl View for MdEvent {
    type V = MdEventView;

    open spec fn view(&self) -> MdEventView {
        match self {
            MdEvent::Start(t) => MdEventView::Start(*t),
            MdEvent::End(t) => MdEventView::End(*t),
            MdEvent::Text(s) => MdEventView::Text(s@),
            MdEvent::Code(s) => MdEventView::Code(s@),
            MdEvent::SoftBreak => MdEventView::SoftBreak,
            MdEvent::HardBreak => MdEventView::HardBreak,
            MdEvent::Other => MdEventView::Other,
        }
    }
}

/// The events that `pulldown_cmark::Parser` yields for a text.
pub uninterp spec fn md_events(text: Seq<char>) -> Seq<MdEventView>;

/// Runs `pulldown_cmark::Parser::new` over a text; the events, each mapped
/// to its kind and text, are named `md_events`.
#[verifier::external_body]
pub(crate) fn markdown_events(text: &str) -> (r: Vec<MdEvent>)
    ensures
        r@.map_values(|e: MdEvent| e@) == md_events(text@),
{
    let tag = |t: TagEnd| match t {
        TagEnd::Paragraph => MdTag::Paragraph, TagEnd::CodeBlock => MdTag::CodeBlock,
        TagEnd::Strong => MdTag::Strong, TagEnd::Emphasis => MdTag::Emphasis, _ => MdTag::Other,
    };
    Parser::new(text).map(|e| match e {
        Event::Start(t) => MdEvent::Start(tag(t.to_end())),
        Event::End(t) => MdEvent::End(tag(t)),
        Event::Text(s) => MdEvent::Text(s.to_string()),
        Event::Code(s) => MdEvent::Code(s.to_string()),
        Event::SoftBreak => MdEvent::SoftBreak,
        Event::HardBreak => MdEvent::HardBreak,
        _ => MdEvent::Other,
    }).collect()
}

} // verus!

verus! {

/// Terminal colours used by the interface.
#[derive(Debug, Clone, Copy, PartialEq, Eq, Structural)]
pub enum TermColor {
    Black,
    White,
    Gray,
    DarkGray,
    Red,
    Green,
    Yellow,
    Blue,
    LightBlue,
    Magenta,
    Cyan,
}

/// The style of a piece of text.
#[derive(Debug, Clone, Copy)]
pub struct SpanStyle {
    pub fg: Option<TermColor>,
    pub bg: Option<TermColor>,
    pub bold: bool,
    pub italic: bool,
}

/// A piece of text with its style.
#[derive(Debug)]
pub struct StyledSpan {
    pub text: String,
    pub style: SpanStyle,
}

/// The plain-value model of a styled piece of text.
pub struct SpanView {
    pub text: Seq<char>,
    pub style: SpanStyle,
}

impl View for StyledSpan {
    type V = SpanView;

    open spec fn view(&self) -> SpanView {
        SpanView { text: self.text@, style: self.style }
    }
}

/// One rendered line.
#[derive(Debug)]
pub struct StyledLine {
    pub spans: Vec<StyledSpan>,
}

impl View for StyledLine {
    type V = Seq<SpanView>;

    open spec fn view(&self) -> Seq<SpanView> {
        self.spans@.map_values(|s: StyledSpan| s@)
    }
}

/// The plain style.
pub open spec fn plain() -> SpanStyle {
    SpanStyle { fg: None, bg: None, bold: false, italic: false }
}

/// A style with only a foreground colour.
pub open spec fn fg_only(c: TermColor) -> SpanStyle {
    SpanStyle { fg: Some(c), bg: None, bold: false, italic: false }
}

/// The style of code blocks: white on dark grey.
pub open spec fn code_block_style() -> SpanStyle {
    SpanStyle { fg: Some(TermColor::White), bg: Some(TermColor::DarkGray), bold: false, italic: false }
}

/// The renderer's state between events: finished lines, the line being
/// built, the current style, and whether a code block is open.
#[verifier::ext_equal]
pub struct MdState {
    pub lines: Seq<Seq<SpanView>>,
    pub current: Seq<SpanView>,
    pub style: SpanStyle,
    pub in_code: bool,
}

/// The finished lines with the current one added when it has spans.
pub open spec fn flush_line(lines: Seq<Seq<SpanView>>, current: Seq<SpanView>) -> Seq<Seq<SpanView>> {
    if current.len() > 0 {
        lines.push(current)
    } else {
        lines
    }
}

/// The effect of one event.
pub open spec fn md_step(st: MdState, e: MdEventView) -> MdState {
    match e {
        MdEventView::Start(MdTag::Paragraph) | MdEventView::End(MdTag::Paragraph) => MdState {
            lines: flush_line(st.lines, st.current),
            current: Seq::empty(),
            ..st
        },
        MdEventView::Start(MdTag::CodeBlock) => MdState {
            lines: flush_line(st.lines, st.current),
            current: Seq::empty(),
            style: code_block_style(),
            in_code: true,
        },
        MdEventView::End(MdTag::CodeBlock) => MdState {
            lines: flush_line(st.lines, st.current),
            current: Seq::empty(),
            style: plain(),
            in_code: false,
        },
        MdEventView::Start(MdTag::Strong) => MdState { style: SpanStyle { bold: true, ..st.style }, ..st },
        MdEventView::End(MdTag::Strong) => MdState { style: SpanStyle { bold: false, ..st.style }, ..st },
        MdEventView::Start(MdTag::Emphasis) => MdState { style: SpanStyle { italic: true, ..st.style }, ..st },
        MdEventView::End(MdTag::Emphasis) => MdState { style: SpanStyle { italic: false, ..st.style }, ..st },
        MdEventView::Text(t) => MdState {
            current: st.current.push(
                SpanView {
                    text: t,
                    style: if st.in_code {
                        fg_only(TermColor::Cyan)
                    } else {
                        st.style
                    },
                },
            ),
            ..st
        },
        MdEventView::Code(t) => MdState {
            current: st.current.push(SpanView { text: t, style: fg_only(TermColor::Magenta) }),
            ..st
        },
        MdEventView::SoftBreak => MdState {
            current: st.current.push(SpanView { text: seq![' '], style: st.style }),
            ..st
        },
        MdEventView::HardBreak => MdState { lines: st.lines.push(st.current), current: Seq::empty(), ..st },
        _ => st,
    }
}

/// The state after a sequence of events, from an empty start.
pub open spec fn md_fold(events: Seq<MdEventView>) -> MdState
    decreases events.len(),
{
    if events.len() == 0 {
        MdState { lines: Seq::empty(), current: Seq::empty(), style: plain(), in_code: false }
    } else {
        md_step(md_fold(events.drop_last()), events.last())
    }
}

/// The lines that a sequence of events renders to.
pub open spec fn rendered(events: Seq<MdEventView>) -> Seq<Seq<SpanView>> {
    let st = md_fold(events);
    flush_line(st.lines, st.current)
}

fn flush_current(lines: &mut Vec<StyledLine>, current: &mut Vec<StyledSpan>)
    ensures
        final(lines)@.map_values(|l: StyledLine| l@) == flush_line(
            old(lines)@.map_values(|l: StyledLine| l@),
            old(current)@.map_values(|s: StyledSpan| s@),
        ),
        final(current)@.len() == 0,
{
    if current.len() > 0 {
        let ghost before = lines@.map_values(|l: StyledLine| l@);
        let mut spans: Vec<StyledSpan> = Vec::new();
        std::mem::swap(&mut spans, current);
        let line = StyledLine { spans };
        lines.push(line);
        assert(lines@.map_values(|l: StyledLine| l@) =~= before.push(line@));
    }
}

/// Renders events as styled lines: paragraphs and code blocks start and end
/// lines; strong and emphasis add bold and italic; text in code blocks is
/// cyan, inline code magenta; a soft break is a space and a hard break ends
/// the line.
pub fn render_events(events: &Vec<MdEvent>) -> (r: Vec<StyledLine>)
    ensures
        r@.map_values(|l: StyledLine| l@) == rendered(events@.map_values(|e: MdEvent| e@)),
{
    let ghost evs = events@.map_values(|e: MdEvent| e@);
    let mut lines: Vec<StyledLine> = Vec::new();
    let mut current: Vec<StyledSpan> = Vec::new();
    let mut style = SpanStyle { fg: None, bg: None, bold: false, italic: false };
    let mut in_code = false;
    let mut i: usize = 0;
    assert(lines@.map_values(|l: StyledLine| l@) =~= Seq::<Seq<SpanView>>::empty());
    assert(current@.map_values(|s: StyledSpan| s@) =~= Seq::<SpanView>::empty());
    while i < events.len()
        invariant
            i <= events.len(),
            evs == events@.map_values(|e: MdEvent| e@),
            md_fold(evs.take(i as int)) == (MdState {
                lines: lines@.map_values(|l: StyledLine| l@),
                current: current@.map_values(|s: StyledSpan| s@),
                style,
                in_code,
            }),
        decreases events.len() - i,
    {
        assert(evs.take(i + 1).drop_last() =~= evs.take(i as int));
        assert(evs.take(i + 1).last() == events[i as int]@);
        let ghost cur_before = current@.map_values(|s: StyledSpan| s@);
        match &events[i] {
            MdEvent::Start(MdTag::Paragraph) | MdEvent::End(MdTag::Paragraph) => {
                flush_current(&mut lines, &mut current);
            },
            MdEvent::Start(MdTag::CodeBlock) => {
                in_code = true;
                flush_current(&mut lines, &mut current);
                style = SpanStyle { fg: Some(TermColor::White), bg: Some(TermColor::DarkGray), bold: false, italic: false };
            },
            MdEvent::End(MdTag::CodeBlock) => {
                in_code = false;
                flush_current(&mut lines, &mut current);
                style = SpanStyle { fg: None, bg: None, bold: false, italic: false };
            },
            MdEvent::Start(MdTag::Strong) => {
                style.bold = true;
            },
            MdEvent::End(MdTag::Strong) => {
                style.bold = false;
            },
            MdEvent::Start(MdTag::Emphasis) => {
                style.italic = true;
            },
            MdEvent::End(MdTag::Emphasis) => {
                style.italic = false;
            },
            MdEvent::Text(t) => {
                let st = if in_code {
                    SpanStyle { fg: Some(TermColor::Cyan), bg: None, bold: false, italic: false }
                } else {
                    style
                };
                let sp = StyledSpan { text: t.clone(), style: st };
                current.push(sp);
                assert(current@.map_values(|s: StyledSpan| s@) =~= cur_before.push(sp@));
            },
            MdEvent::Code(t) => {
                let sp = StyledSpan {
                    text: t.clone(),
                    style: SpanStyle { fg: Some(TermColor::Magenta), bg: None, bold: false, italic: false },
                };
                current.push(sp);
                assert(current@.map_values(|s: StyledSpan| s@) =~= cur_before.push(sp@));
            },
            MdEvent::SoftBreak => {
                let mut space: Vec<char> = Vec::new();
                space.push(' ');
                assert(space@ =~= seq![' ']);
                let sp = StyledSpan { text: string_of(&space), style };
                current.push(sp);
                assert(current@.map_values(|s: StyledSpan| s@) =~= cur_before.push(sp@));
            },
            MdEvent::HardBreak => {
                let ghost before = lines@.map_values(|l: StyledLine| l@);
                let mut spans: Vec<StyledSpan> = Vec::new();
                std::mem::swap(&mut spans, &mut current);
                let line = StyledLine { spans };
                lines.push(line);
                assert(lines@.map_values(|l: StyledLine| l@) =~= before.push(line@));
                assert(current@.map_values(|s: StyledSpan| s@) =~= Seq::<SpanView>::empty());
            },
            _ => {},
        }
        assert(md_fold(evs.take(i + 1)) =~= (MdState {
            lines: lines@.map_values(|l: StyledLine| l@),
            current: current@.map_values(|s: StyledSpan| s@),
            style,
            in_code,
        }));
        i = i + 1;
    }
    assert(evs.take(i as int) =~= evs);
    flush_current(&mut lines, &mut current);
    lines
}

/// Parses Markdown and renders it as styled lines (the width is not used).
pub fn render_markdown(markdown_text: &str, _max_width: usize) -> (r: Vec<StyledLine>)
    ensures
        r@.map_values(|l: StyledLine| l@) == rendered(md_events(markdown_text@)),
{
    let events = markdown_events(markdown_text);
    render_events(&events)
}

} // verus!

verus! {

/// A sequence is `p` followed by more.
pub open spec fn is_prefix(p: Seq<Seq<SpanView>>, s: Seq<Seq<SpanView>>) -> bool {
    p.len() <= s.len() && s.subrange(0, p.len() as int) == p
}

proof fn lemma_step_keeps_lines(st: MdState, e: MdEventView)
    ensures
        is_prefix(st.lines, md_step(st, e).lines),
{
    assert(st.lines.push(st.current).subrange(0, st.lines.len() as int) =~= st.lines);
    assert(st.lines.subrange(0, st.lines.len() as int) =~= st.lines);
}

proof fn lemma_fold_keeps_lines(x: Seq<MdEventView>, b: Seq<MdEventView>)
    ensures
        is_prefix(md_fold(x).lines, md_fold(x + b).lines),
    decreases b.len(),
{
    if b.len() == 0 {
        assert(x + b =~= x);
        assert(md_fold(x).lines.subrange(0, md_fold(x).lines.len() as int) =~= md_fold(x).lines);
    } else {
        assert((x + b).drop_last() =~= x + b.drop_last());
        assert((x + b).last() == b.last());
        lemma_fold_keeps_lines(x, b.drop_last());
        let mid = md_fold(x + b.drop_last());
        lemma_step_keeps_lines(mid, b.last());
        let p = md_fold(x).lines;
        let q = mid.lines;
        let r = md_fold(x + b).lines;
        assert(r.subrange(0, p.len() as int) =~= r.subrange(0, q.len() as int).subrange(0, p.len() as int));
    }
}

/// The start and the end of a paragraph each end the line being built:
/// after either, nothing is pending, the finished lines are exactly what the
/// events before rendered to, and whatever follows only adds lines after
/// them, so text on the two sides of a paragraph boundary never shares a
/// line.
pub proof fn law_paragraph_boundary_ends_line(a: Seq<MdEventView>, p: MdEventView, b: Seq<MdEventView>)
    requires
        p == MdEventView::Start(MdTag::Paragraph) || p == MdEventView::End(MdTag::Paragraph),
    ensures
        md_fold(a.push(p)).current.len() == 0,
        md_fold(a.push(p)).lines == rendered(a),
        is_prefix(rendered(a), rendered(a.push(p) + b)),
{
    assert(a.push(p).drop_last() =~= a);
    assert(a.push(p).last() == p);
    lemma_fold_keeps_lines(a.push(p), b);
    let st = md_fold(a.push(p) + b);
    let q = rendered(a);
    let r = rendered(a.push(p) + b);
    assert(st.lines.push(st.current).subrange(0, st.lines.len() as int) =~= st.lines);
    assert(r.subrange(0, q.len() as int) =~= st.lines.subrange(0, q.len() as int));
}

/// How each event changes the rendering, after any events `a`: text joins
/// the line being built in the current style (cyan inside a code block),
/// inline code in magenta, a soft break as one space; a hard break ends the
/// line even when it is empty; strong and emphasis switch bold and italic on
/// and off without ending the line; a code block starts and ends on lines of
/// its own, and after it the style is plain again.
pub proof fn law_md_event_effects(a: Seq<MdEventView>, e: MdEventView)
    ensures
        ({
            let st = md_fold(a);
            let nx = md_fold(a.push(e));
            &&& e matches MdEventView::Text(t) ==> nx.lines == st.lines && nx.current == st.current.push(
                SpanView {
                    text: t,
                    style: if st.in_code {
                        SpanStyle { fg: Some(TermColor::Cyan), bg: None, bold: false, italic: false }
                    } else {
                        st.style
                    },
                },
            )
            &&& e matches MdEventView::Code(t) ==> nx.lines == st.lines && nx.current == st.current.push(
                SpanView { text: t, style: SpanStyle { fg: Some(TermColor::Magenta), bg: None, bold: false, italic: false } },
            )
            &&& e == MdEventView::SoftBreak ==> nx.lines == st.lines && nx.current == st.current.push(
                SpanView { text: seq![' '], style: st.style },
            )
            &&& e == MdEventView::HardBreak ==> nx.lines == st.lines.push(st.current) && nx.current.len() == 0
            &&& e == MdEventView::Start(MdTag::Strong) ==> nx.style.bold && nx.style.italic == st.style.italic
                && nx.lines == st.lines && nx.current == st.current
            &&& e == MdEventView::End(MdTag::Strong) ==> !nx.style.bold && nx.style.italic == st.style.italic
                && nx.lines == st.lines && nx.current == st.current
            &&& e == MdEventView::Start(MdTag::Emphasis) ==> nx.style.italic && nx.style.bold == st.style.bold
                && nx.lines == st.lines && nx.current == st.current
            &&& e == MdEventView::End(MdTag::Emphasis) ==> !nx.style.italic && nx.style.bold == st.style.bold
                && nx.lines == st.lines && nx.current == st.current
            &&& e == MdEventView::Start(MdTag::CodeBlock) ==> nx.in_code && nx.current.len() == 0 && nx.lines
                == rendered(a)
            &&& e == MdEventView::End(MdTag::CodeBlock) ==> !nx.in_code && nx.current.len() == 0 && nx.lines
                == rendered(a) && nx.style == SpanStyle { fg: None, bg: None, bold: false, italic: false }
        }),
{
    assert(a.push(e).drop_last() =~= a);
    assert(a.push(e).last() == e);
}

} // verus!
