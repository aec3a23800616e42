//! Line-splitting and line-joining: the buffer's disk image.
//!
//! Saving writes every line followed by CRLF; loading splits on `'\n'`
//! and strips one trailing `'\r'` from each piece, so the two directions
//! round-trip for any buffer whose lines contain no `'\n'`.  This module
//! holds the character-level functions and proofs; the buffer type that
//! uses them lives beside it.

use vstd::prelude::*;

verus! {

/// Errors of bounded character insertion: the row or column is out of
/// range for the current buffer contents.
#[derive(Copy, Clone, PartialEq, Eq, Structural, Debug)]
pub enum EditError {
    InvalidRow,
    InvalidColumn,
}

/// Holds when `line` contains no line break, the invariant every buffer
/// line is meant to keep.
pub open spec fn no_newline(line: Seq<char>) -> bool {
    forall|i: int| 0 <= i < line.len() ==> line[i] != '\n'
}

/// The two-character line terminator written on save.
pub open spec fn crlf() -> Seq<char> {
    seq!['\r', '\n']
}

/// The exact text persisted for a buffer: every line followed by CRLF.
pub open spec fn file_image(lines: Seq<Seq<char>>) -> Seq<char>
    decreases lines.len(),
{
    if lines.len() == 0 {
        Seq::empty()
    } else {
        lines[0] + crlf() + file_image(lines.drop_first())
    }
}

/// The index of the first `'\n'` in `s`, or `s.len()` if there is none.
pub open spec fn line_break_at(s: Seq<char>) -> int
    decreases s.len(),
{
    if s.len() == 0 {
        0
    } else if s[0] == '\n' {
        0
    } else {
        1 + line_break_at(s.drop_first())
    }
}

/// One raw line with at most one trailing `'\r'` removed, the treatment a
/// loaded line gets after splitting on `'\n'`.
pub open spec fn strip_cr(raw: Seq<char>) -> Seq<char> {
    if raw.len() > 0 && raw.last() == '\r' {
        raw.drop_last()
    } else {
        raw
    }
}

/// The lines a text splits into: pieces between `'\n'` characters, each
/// with one trailing `'\r'` stripped; a final piece without a terminator
/// still counts, and empty text has no lines.
pub open spec fn split_lines(s: Seq<char>) -> Seq<Seq<char>>
    decreases s.len(),
{
    if s.len() == 0 {
        Seq::empty()
    } else {
        let i = line_break_at(s);
        if 0 <= i && i < s.len() {
            seq![strip_cr(s.subrange(0, i))] + split_lines(s.subrange(i + 1, s.len() as int))
        } else {
            seq![strip_cr(s)]
        }
    }
}

/// What a loaded buffer holds for given file text: its split lines, except
/// that an empty file opens as one empty line, so the cursor has a row to
/// sit on.
pub open spec fn loaded_lines(s: Seq<char>) -> Seq<Seq<char>> {
    if s.len() == 0 {
        seq![Seq::<char>::empty()]
    } else {
        split_lines(s)
    }
}

proof fn lemma_line_break_at_bounds(s: Seq<char>)
    ensures
        0 <= line_break_at(s) <= s.len(),
        line_break_at(s) < s.len() ==> s[line_break_at(s)] == '\n',
        forall|j: int| 0 <= j < line_break_at(s) ==> s[j] != '\n',
    decreases s.len(),
{
    if s.len() == 0 {
    } else if s[0] == '\n' {
    } else {
        lemma_line_break_at_bounds(s.drop_first());
        assert forall|j: int| 0 <= j < line_break_at(s) implies s[j] != '\n' by {
            if j > 0 {
                assert(s.drop_first()[j - 1] == s[j]);
            }
        }
    }
}

proof fn lemma_line_break_at_concat(a: Seq<char>, b: Seq<char>)
    requires
        no_newline(a),
    ensures
        line_break_at(a + seq!['\n'] + b) == a.len(),
    decreases a.len(),
{
    let s = a + seq!['\n'] + b;
    if a.len() == 0 {
        assert(s[0] == '\n');
    } else {
        assert(s[0] == a[0]);
        assert(no_newline(a.drop_first()));
        lemma_line_break_at_concat(a.drop_first(), b);
        assert(s.drop_first() =~= a.drop_first() + seq!['\n'] + b);
    }
}

/// Splitting text that consists of one break-free piece, a `'\n'`, and a
/// remainder yields that piece (stripped) followed by the remainder's lines.
proof fn lemma_split_concat(a: Seq<char>, b: Seq<char>)
    requires
        no_newline(a),
    ensures
        split_lines(a + seq!['\n'] + b) =~= seq![strip_cr(a)] + split_lines(b),
{
    let s = a + seq!['\n'] + b;
    lemma_line_break_at_concat(a, b);
    assert(s.subrange(0, a.len() as int) =~= a);
    assert(s.subrange(a.len() as int + 1, s.len() as int) =~= b);
}

proof fn lemma_split_single(a: Seq<char>)
    requires
        a.len() > 0,
        no_newline(a),
    ensures
        split_lines(a) =~= seq![strip_cr(a)],
{
    lemma_line_break_at_bounds(a);
}

proof fn lemma_file_image_push(lines: Seq<Seq<char>>, l: Seq<char>)
    ensures
        file_image(lines.push(l)) =~= file_image(lines) + l + crlf(),
    decreases lines.len(),
{
    let p = lines.push(l);
    if lines.len() == 0 {
        assert(p[0] == l);
        assert(p.drop_first() =~= Seq::<Seq<char>>::empty());
        assert(file_image(p.drop_first()) =~= Seq::<char>::empty());
        assert(file_image(p) =~= p[0] + crlf() + file_image(p.drop_first()));
        assert(file_image(lines) =~= Seq::<char>::empty());
    } else {
        assert(p[0] == lines[0]);
        assert(p.drop_first() =~= lines.drop_first().push(l));
        lemma_file_image_push(lines.drop_first(), l);
        assert(file_image(p) =~= p[0] + crlf() + file_image(p.drop_first()));
        assert(file_image(lines) =~= lines[0] + crlf() + file_image(lines.drop_first()));
    }
}

/// Persistence round-trips: for any non-empty buffer whose lines contain
/// no `'\n'`, loading the persisted image yields the buffer back exactly.
/// (An empty buffer persists as empty text, which loads as one empty
/// line, so it is excluded here.)
pub proof fn lemma_file_round_trip(lines: Seq<Seq<char>>)
    requires
        lines.len() > 0,
        forall|i: int| 0 <= i < lines.len() ==> no_newline(#[trigger] lines[i]),
    ensures
        loaded_lines(file_image(lines)) =~= lines,
    decreases lines.len(),
{
    let l0 = lines[0];
    let rest = lines.drop_first();
    let a = l0 + seq!['\r'];
    assert(no_newline(a)) by {
        assert(forall|i: int| 0 <= i < l0.len() ==> a[i] == l0[i]);
        assert(a[l0.len() as int] == '\r');
    }
    assert(file_image(lines) =~= a + seq!['\n'] + file_image(rest));
    lemma_split_concat(a, file_image(rest));
    assert(strip_cr(a) =~= l0);
    if rest.len() == 0 {
        assert(lines =~= seq![l0]);
    } else {
        lemma_file_round_trip(rest);
        assert(file_image(rest).len() > 0);
        assert(lines =~= seq![l0] + rest);
    }
}

proof fn lemma_strip_cr_no_newline(raw: Seq<char>)
    requires
        no_newline(raw),
    ensures
        no_newline(strip_cr(raw)),
{
    if raw.len() > 0 && raw.last() == '\r' {
        assert(forall|j: int|
            0 <= j < raw.drop_last().len() ==> raw.drop_last()[j] == raw[j]);
    }
}

proof fn lemma_split_lines_no_newline(s: Seq<char>)
    ensures
        forall|k: int|
            0 <= k < split_lines(s).len() ==> no_newline(#[trigger] split_lines(s)[k]),
    decreases s.len(),
{
    if s.len() > 0 {
        lemma_line_break_at_bounds(s);
        let i = line_break_at(s);
        if 0 <= i && i < s.len() {
            let head = s.subrange(0, i);
            assert(no_newline(head)) by {
                assert(forall|j: int| 0 <= j < i ==> head[j] == s[j]);
            }
            lemma_strip_cr_no_newline(head);
            let rest = s.subrange(i + 1, s.len() as int);
            lemma_split_lines_no_newline(rest);
            assert forall|k: int|
                0 <= k < split_lines(s).len() implies no_newline(#[trigger] split_lines(s)[k]) by {
                if k > 0 {
                    assert(split_lines(s)[k] == split_lines(rest)[k - 1]);
                }
            }
        } else {
            lemma_strip_cr_no_newline(s);
        }
    }
}

/// Loading establishes the buffer invariant that saving relies on: every
/// line a load produces is free of line breaks.
pub proof fn lemma_loaded_lines_no_newline(s: Seq<char>)
    ensures
        forall|k: int|
            0 <= k < loaded_lines(s).len() ==> no_newline(#[trigger] loaded_lines(s)[k]),
{
    if s.len() == 0 {
        assert(no_newline(loaded_lines(s)[0]));
    } else {
        lemma_split_lines_no_newline(s);
    }
}

/// Saving after loading changes nothing: for any file text, the image
/// persisted for the loaded buffer loads back as that same buffer.
/// Unlike the plain round trip this needs no hypothesis: a loaded buffer
/// is never empty and never holds a line break.
pub proof fn lemma_save_load_stable(s: Seq<char>)
    ensures
        loaded_lines(file_image(loaded_lines(s))) =~= loaded_lines(s),
{
    lemma_loaded_lines_no_newline(s);
    assert(loaded_lines(s).len() > 0);
    lemma_file_round_trip(loaded_lines(s));
}

/// Character insertion preserves the buffer invariant: splicing a
/// non-break character into a break-free line leaves it break-free, so a
/// buffer built by loading and keystrokes always persists faithfully.
pub proof fn lemma_insert_keeps_no_newline(line: Seq<char>, i: int, c: char)
    requires
        0 <= i <= line.len(),
        no_newline(line),
        c != '\n',
    ensures
        no_newline(line.insert(i, c)),
{
    line.insert_ensures(i, c);
    let r = line.insert(i, c);
    assert forall|j: int| 0 <= j < r.len() implies r[j] != '\n' by {
        if j < i {
            assert(r[j] == line[j]);
        } else if j == i {
            assert(r[j] == c);
        } else {
            assert(r[j] == line[j - 1]);
        }
    }
}

/// Relies on `String::push`: appends the given character to the end of
/// the string.
#[verifier::external_body]
pub(crate) fn push_char(s: &mut String, c: char)
    ensures
        final(s)@ == old(s)@.push(c),
{
    s.push(c);
}

/// One raw line with at most one trailing `'\r'` removed.
fn strip_cr_exec(s: &String) -> (r: String)
    ensures
        r@ =~= strip_cr(s@),
{
    let len = s.as_str().unicode_len();
    if len > 0 && s.as_str().get_char(len - 1) == '\r' {
        s.as_str().substring_char(0, len - 1).to_owned()
    } else {
        s.clone()
    }
}

/// Split file text into buffer lines: pieces between `'\n'` characters,
/// each with one trailing `'\r'` stripped.
pub fn parse_lines(content: &str) -> (r: Vec<String>)
    ensures
        r.deep_view() =~= split_lines(content@),
{
    let n = content.unicode_len();
    let mut out: Vec<String> = Vec::new();
    let mut cur: String = String::new();
    let mut i: usize = 0;
    proof {
        assert(cur@ + content@.subrange(0, n as int) =~= content@);
        assert(out.deep_view() + split_lines(content@) =~= split_lines(content@));
    }
    while i < n
        invariant
            n == content@.len(),
            i <= n,
            no_newline(cur@),
            out.deep_view() + split_lines(cur@ + content@.subrange(i as int, n as int))
                =~= split_lines(content@),
        decreases n - i,
    {
        let c = content.get_char(i);
        let ghost prev_cur = cur@;
        let ghost prev_out = out.deep_view();
        let ghost tail = content@.subrange(i + 1, n as int);
        proof {
            assert(content@.subrange(i as int, n as int) =~= seq![content@[i as int]] + tail);
        }
        if c == '\n' {
            proof {
                lemma_split_concat(prev_cur, tail);
                assert(prev_cur + content@.subrange(i as int, n as int)
                    =~= prev_cur + seq!['\n'] + tail);
            }
            let stripped = strip_cr_exec(&cur);
            out.push(stripped);
            cur = String::new();
            proof {
                assert(out.deep_view() =~= prev_out.push(strip_cr(prev_cur)));
                assert(cur@ + tail =~= tail);
                assert(prev_out + (seq![strip_cr(prev_cur)] + split_lines(tail))
                    =~= out.deep_view() + split_lines(tail));
            }
        } else {
            push_char(&mut cur, c);
            proof {
                assert(cur@ + tail =~= prev_cur + content@.subrange(i as int, n as int));
            }
        }
        i += 1;
    }
    proof {
        assert(cur@ + content@.subrange(n as int, n as int) =~= cur@);
    }
    if cur.as_str().unicode_len() > 0 {
        proof {
            lemma_split_single(cur@);
        }
        let last = strip_cr_exec(&cur);
        out.push(last);
        proof {
            assert(out.deep_view() =~= split_lines(content@));
        }
    } else {
        proof {
            assert(split_lines(cur@) =~= Seq::<Seq<char>>::empty());
            assert(out.deep_view() + Seq::<Seq<char>>::empty() =~= out.deep_view());
        }
    }
    out
}

/// The buffer lines loaded from this file text: its split lines, an
/// empty file opening as one empty line.
pub fn load_lines(content: &str) -> (r: Vec<String>)
    ensures
        r.deep_view() =~= loaded_lines(content@),
{
    let mut text = parse_lines(content);
    if text.len() == 0 {
        proof {
            if content@.len() > 0 {
                assert(split_lines(content@).len() > 0);
            }
        }
        text.push(String::new());
        proof {
            assert(text.deep_view() =~= seq![Seq::<char>::empty()]);
        }
    } else {
        proof {
            if content@.len() == 0 {
                assert(split_lines(content@).len() == 0);
            }
        }
    }
    text
}

/// The character length of one line.
pub fn line_len(s: &String) -> (n: usize)
    ensures
        n == s@.len(),
{
    s.as_str().unicode_len()
}

/// The line with `new_char` spliced in at `char_pos`, the characters
/// after it shifted right by one.
pub fn spliced(line: &String, char_pos: usize, new_char: char) -> (r: String)
    requires
        char_pos <= line@.len(),
    ensures
        r@ =~= line@.insert(char_pos as int, new_char),
{
    let len = line.as_str().unicode_len();
    let mut r = line.as_str().substring_char(0, char_pos).to_owned();
    push_char(&mut r, new_char);
    r.append(line.as_str().substring_char(char_pos, len));
    proof {
        assert(r@ =~= line@.insert(char_pos as int, new_char));
    }
    r
}

/// The persisted image of these lines: each followed by CRLF.
pub fn render_image(text: &Vec<String>) -> (r: String)
    ensures
        r@ =~= file_image(text.deep_view()),
{
    let ghost lines = text.deep_view();
    let mut out = String::new();
    let mut i: usize = 0;
    while i < text.len()
        invariant
            i <= text.len(),
            lines == text.deep_view(),
            out@ =~= file_image(lines.take(i as int)),
        decreases text.len() - i,
    {
        out.append(text[i].as_str());
        out.append("\r\n");
        proof {
            reveal_strlit("\r\n");
            assert("\r\n"@ =~= crlf());
            lemma_file_image_push(lines.take(i as int), lines[i as int]);
            assert(lines.take(i as int + 1) =~= lines.take(i as int).push(lines[i as int]));
        }
        i += 1;
    }
    proof {
        assert(lines.take(text.len() as int) =~= lines);
    }
    out
}

} // verus!
