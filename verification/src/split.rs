//! Cutting text into pieces and joining pieces back together.
use vstd::prelude::*;

use crate::text::{chars_of, space};

verus! {

/// The texts that a list of strings holds.
pub open spec fn views(v: Seq<String>) -> Seq<Seq<char>> {
    Seq::new(v.len(), |i: int| v[i]@)
}

/// `views` commutes with `push`.
pub proof fn lemma_views_push(v: Seq<String>, s: String)
    ensures
        views(v.push(s)) == views(v).push(s@),
{
    assert(views(v.push(s)) =~= views(v).push(s@));
}

// ----------------------------------------------------------------- separators

/// The pieces between the occurrences of `c`; there is always at least one.
pub open spec fn split_char(s: Seq<char>, c: char) -> Seq<Seq<char>>
    decreases s.len(),
{
    if s.len() == 0 {
        seq![Seq::empty()]
    } else {
        let done = split_char(s.drop_last(), c);
        if s.last() == c {
            done.push(Seq::empty())
        } else {
            done.drop_last().push(done.last().push(s.last()))
        }
    }
}

pub proof fn lemma_split_char_nonempty(s: Seq<char>, c: char)
    ensures
        split_char(s, c).len() >= 1,
    decreases s.len(),
{
    if s.len() > 0 {
        lemma_split_char_nonempty(s.drop_last(), c);
    }
}

pub fn split(s: &str, c: char) -> (r: Vec<String>)
    ensures
        views(r@) == split_char(s@, c),
        r@.len() >= 1,
{
    let cs = chars_of(s);
    let mut done: Vec<String> = Vec::new();
    let mut cur: String = String::new();
    let mut i: usize = 0;
    assert(s@.take(0) =~= Seq::<char>::empty());
    assert(views(done@).push(cur@) =~= split_char(s@.take(0), c));
    while i < cs.len()
        invariant
            i <= cs.len(),
            cs@ == s@,
            views(done@).push(cur@) == split_char(s@.take(i as int), c),
        decreases cs.len() - i,
    {
        let ghost piece = cur@;
        let ghost before = views(done@);
        let ghost upto = s@.take(i + 1);
        assert(upto.drop_last() =~= s@.take(i as int));
        assert(upto.last() == cs@[i as int]);
        assert(before.push(piece).drop_last() =~= before);
        if cs[i] == c {
            proof {
                lemma_views_push(done@, cur);
            }
            done.push(cur);
            cur = String::new();
            assert(views(done@).push(cur@) =~= split_char(upto, c));
        } else {
            cur.push(cs[i]);
            assert(views(done@).push(cur@) =~= split_char(upto, c));
        }
        i += 1;
    }
    assert(s@.take(i as int) =~= s@);
    proof {
        lemma_views_push(done@, cur);
    }
    done.push(cur);
    done
}

// ---------------------------------------------------------------------- lines

/// A line without the carriage return that may end it.
pub open spec fn without_cr(s: Seq<char>) -> Seq<char> {
    if s.len() > 0 && s.last() == '\r' {
        s.drop_last()
    } else {
        s
    }
}

/// The finished lines of a text, and what follows its last line feed.
pub open spec fn lines_and_rest(s: Seq<char>) -> (Seq<Seq<char>>, Seq<char>)
    decreases s.len(),
{
    if s.len() == 0 {
        (Seq::empty(), Seq::empty())
    } else {
        let (done, cur) = lines_and_rest(s.drop_last());
        if s.last() == '\n' {
            (done.push(without_cr(cur)), Seq::empty())
        } else {
            (done, cur.push(s.last()))
        }
    }
}

/// The lines of a text. A final line feed starts no further line.
pub open spec fn line_list(s: Seq<char>) -> Seq<Seq<char>> {
    let (done, cur) = lines_and_rest(s);
    if cur.len() > 0 {
        done.push(cur)
    } else {
        done
    }
}

pub fn lines(s: &str) -> (r: Vec<String>)
    ensures
        views(r@) == line_list(s@),
{
    let cs = chars_of(s);
    let mut done: Vec<String> = Vec::new();
    let mut cur: String = String::new();
    let mut i: usize = 0;
    assert(s@.take(0) =~= Seq::<char>::empty());
    assert(views(done@) =~= Seq::empty());
    assert(cur@ =~= Seq::empty());
    while i < cs.len()
        invariant
            i <= cs.len(),
            cs@ == s@,
            (views(done@), cur@) == lines_and_rest(s@.take(i as int)),
        decreases cs.len() - i,
    {
        let ghost upto = s@.take(i + 1);
        assert(upto.drop_last() =~= s@.take(i as int));
        assert(upto.last() == cs@[i as int]);
        if cs[i] == '\n' {
            let n = cur.as_str().unicode_len();
            let line = if n > 0 && cur.as_str().get_char(n - 1) == '\r' {
                let t = cur.as_str().substring_char(0, n - 1).to_owned();
                assert(cur@.subrange(0, n - 1) =~= cur@.drop_last());
                t
            } else {
                cur
            };
            proof {
                lemma_views_push(done@, line);
            }
            done.push(line);
            cur = String::new();
            assert(cur@ =~= Seq::empty());
        } else {
            cur.push(cs[i]);
        }
        i += 1;
    }
    assert(s@.take(i as int) =~= s@);
    if cur.as_str().unicode_len() > 0 {
        proof {
            lemma_views_push(done@, cur);
        }
        done.push(cur);
    }
    done
}

// ---------------------------------------------------------------------- words

/// The finished words of a text, and the word that its end may still continue.
pub open spec fn words_and_rest(s: Seq<char>) -> (Seq<Seq<char>>, Seq<char>)
    decreases s.len(),
{
    if s.len() == 0 {
        (Seq::empty(), Seq::empty())
    } else {
        let (done, cur) = words_and_rest(s.drop_last());
        if !crate::text::is_space(s.last()) {
            (done, cur.push(s.last()))
        } else if cur.len() > 0 {
            (done.push(cur), Seq::empty())
        } else {
            (done, cur)
        }
    }
}

/// The maximal pieces of a text that hold no white space.
pub open spec fn word_list(s: Seq<char>) -> Seq<Seq<char>> {
    let (done, cur) = words_and_rest(s);
    if cur.len() > 0 {
        done.push(cur)
    } else {
        done
    }
}

pub fn words(s: &str) -> (r: Vec<String>)
    ensures
        views(r@) == word_list(s@),
{
    let cs = chars_of(s);
    let mut done: Vec<String> = Vec::new();
    let mut cur: String = String::new();
    let mut i: usize = 0;
    assert(s@.take(0) =~= Seq::<char>::empty());
    assert(views(done@) =~= Seq::empty());
    assert(cur@ =~= Seq::empty());
    while i < cs.len()
        invariant
            i <= cs.len(),
            cs@ == s@,
            (views(done@), cur@) == words_and_rest(s@.take(i as int)),
        decreases cs.len() - i,
    {
        let ghost upto = s@.take(i + 1);
        assert(upto.drop_last() =~= s@.take(i as int));
        assert(upto.last() == cs@[i as int]);
        if !space(cs[i]) {
            cur.push(cs[i]);
        } else if cur.as_str().unicode_len() > 0 {
            proof {
                lemma_views_push(done@, cur);
            }
            done.push(cur);
            cur = String::new();
            assert(cur@ =~= Seq::empty());
        }
        i += 1;
    }
    assert(s@.take(i as int) =~= s@);
    if cur.as_str().unicode_len() > 0 {
        proof {
            lemma_views_push(done@, cur);
        }
        done.push(cur);
    }
    done
}

// -------------------------------------------------------------------- joining

/// The pieces one after the other, with `sep` between neighbours.
pub open spec fn joined(parts: Seq<Seq<char>>, sep: Seq<char>) -> Seq<char>
    decreases parts.len(),
{
    if parts.len() == 0 {
        Seq::empty()
    } else if parts.len() == 1 {
        parts[0]
    } else {
        joined(parts.drop_last(), sep) + sep + parts.last()
    }
}

pub fn join(parts: &Vec<String>, sep: &str) -> (r: String)
    ensures
        r@ == joined(views(parts@), sep@),
{
    let mut out: String = String::new();
    let mut i: usize = 0;
    assert(views(parts@).take(0) =~= Seq::empty());
    assert(out@ =~= Seq::empty());
    while i < parts.len()
        invariant
            i <= parts.len(),
            out@ == joined(views(parts@).take(i as int), sep@),
        decreases parts.len() - i,
    {
        let ghost upto = views(parts@).take(i + 1);
        assert(upto.drop_last() =~= views(parts@).take(i as int));
        assert(upto.last() == parts@[i as int]@);
        if i == 0 {
            out = parts[i].clone();
        } else {
            out = out.concat(sep).concat(parts[i].as_str());
        }
        i += 1;
    }
    assert(views(parts@).take(i as int) =~= views(parts@));
    out
}

// ------------------------------------------------------------------ replacing

/// The text with every `from` replaced by `to`.
pub open spec fn replaced(s: Seq<char>, from: char, to: char) -> Seq<char> {
    Seq::new(
        s.len(),
        |i: int|
            if s[i] == from {
                to
            } else {
                s[i]
            },
    )
}

pub fn replace(s: &str, from: char, to: char) -> (r: String)
    ensures
        r@ == replaced(s@, from, to),
{
    let cs = chars_of(s);
    let mut out: String = String::new();
    let mut i: usize = 0;
    while i < cs.len()
        invariant
            i <= cs.len(),
            cs@ == s@,
            out@.len() == i,
            forall|j: int| 0 <= j < i ==> out@[j] == replaced(s@, from, to)[j],
        decreases cs.len() - i,
    {
        out.push(
            if cs[i] == from {
                to
            } else {
                cs[i]
            },
        );
        i += 1;
    }
    assert(out@ =~= replaced(s@, from, to));
    out
}

// ----------------------------------------------------------------------- laws

/// The pieces of a text, with the separator between them, are the text again, and none of them
/// holds the separator.
pub proof fn pieces_join_to_the_text(s: Seq<char>, c: char)
    ensures
        joined(split_char(s, c), seq![c]) == s,
        forall|i: int, j: int|
            0 <= i < split_char(s, c).len() && 0 <= j < split_char(s, c)[i].len()
                ==> #[trigger] split_char(s, c)[i][j] != c,
    decreases s.len(),
{
    let all = split_char(s, c);
    if s.len() == 0 {
        assert(joined(all, seq![c]) =~= s);
    } else {
        let front = s.drop_last();
        let done = split_char(front, c);
        pieces_join_to_the_text(front, c);
        lemma_split_char_nonempty(front, c);
        assert(s =~= front.push(s.last()));
        if s.last() == c {
            assert(all.drop_last() =~= done);
            assert(joined(all, seq![c]) =~= s);
        } else {
            let last = done.last();
            assert(all.last() == last.push(s.last()));
            assert(all.drop_last() =~= done.drop_last());
            assert(joined(all, seq![c]) =~= joined(done, seq![c]).push(s.last()));
            assert forall|i: int, j: int|
                0 <= i < all.len() && 0 <= j < all[i].len() implies #[trigger] all[i][j] != c by {
                if i < done.len() - 1 {
                    assert(all[i] == done[i]);
                } else if j < last.len() {
                    assert(all[i][j] == done[done.len() - 1][j]);
                }
            }
        }
    }
}

/// A text is read line by line: its first line is what stands before the first line feed, and
/// the others are those of the rest.
pub proof fn lines_end_at_line_feeds(line: Seq<char>, rest: Seq<char>)
    requires
        forall|i: int| 0 <= i < line.len() ==> #[trigger] line[i] != '\n',
        line.len() > 0 ==> line.last() != '\r',
    ensures
        line_list(line.push('\n') + rest) == seq![line] + line_list(rest),
        line_list(line + seq!['\r', '\n'] + rest) == seq![line] + line_list(rest),
        line.len() > 0 ==> line_list(line) == seq![line],
{
    lemma_no_line_feed(line);
    let ended = line.push('\n');
    assert(ended.drop_last() =~= line);
    assert(lines_and_rest(ended) == (seq![line], Seq::<char>::empty())) by {
        assert(Seq::<Seq<char>>::empty().push(line) =~= seq![line]);
    }
    lemma_lines_go_on(ended, rest, line);
    let cr = line.push('\r');
    lemma_no_line_feed(cr);
    let crlf = cr.push('\n');
    assert(line + seq!['\r', '\n'] =~= crlf);
    assert(crlf.drop_last() =~= cr);
    assert(cr.drop_last() =~= line);
    assert(lines_and_rest(crlf) == (seq![line], Seq::<char>::empty())) by {
        assert(Seq::<Seq<char>>::empty().push(line) =~= seq![line]);
    }
    lemma_lines_go_on(crlf, rest, line);
    assert(Seq::<Seq<char>>::empty().push(line) =~= seq![line]);
}

proof fn lemma_no_line_feed(s: Seq<char>)
    requires
        forall|i: int| 0 <= i < s.len() ==> #[trigger] s[i] != '\n',
    ensures
        lines_and_rest(s) == (Seq::<Seq<char>>::empty(), s),
    decreases s.len(),
{
    if s.len() > 0 {
        lemma_no_line_feed(s.drop_last());
        assert(s[s.len() - 1] != '\n');
        assert(s.drop_last().push(s.last()) =~= s);
    } else {
        assert(s =~= Seq::empty());
    }
}

proof fn lemma_lines_go_on(a: Seq<char>, rest: Seq<char>, line: Seq<char>)
    requires
        lines_and_rest(a) == (seq![line], Seq::<char>::empty()),
    ensures
        lines_and_rest(a + rest) == (seq![line] + lines_and_rest(rest).0, lines_and_rest(rest).1),
        line_list(a + rest) == seq![line] + line_list(rest),
    decreases rest.len(),
{
    if rest.len() == 0 {
        assert(a + rest =~= a);
        assert(seq![line] + Seq::<Seq<char>>::empty() =~= seq![line]);
    } else {
        let front = rest.drop_last();
        lemma_lines_go_on(a, front, line);
        assert((a + rest).drop_last() =~= a + front);
        assert((a + rest).last() == rest.last());
        let (done, cur) = lines_and_rest(front);
        assert((seq![line] + done).push(without_cr(cur)) =~= seq![line] + done.push(
            without_cr(cur),
        ));
    }
    let (done, cur) = lines_and_rest(rest);
    assert((seq![line] + done).push(cur) =~= seq![line] + done.push(cur));
}

/// White space parts words: the words of two texts with white space between them are those of
/// the one and then those of the other, and a text without any is one word.
pub proof fn white_space_parts_words(a: Seq<char>, space: char, b: Seq<char>)
    requires
        crate::text::is_space(space),
    ensures
        word_list(a.push(space) + b) == word_list(a) + word_list(b),
        a.len() > 0 && (forall|i: int| 0 <= i < a.len() ==> !crate::text::is_space(#[trigger] a[i]))
            ==> word_list(a) == seq![a],
{
    lemma_words_go_on(a, space, b);
    let (done, cur) = words_and_rest(b);
    assert((word_list(a) + done).push(cur) =~= word_list(a) + done.push(cur));
    if a.len() > 0 && (forall|i: int|
        0 <= i < a.len() ==> !crate::text::is_space(#[trigger] a[i])) {
        lemma_one_word(a);
        assert(Seq::<Seq<char>>::empty().push(a) =~= seq![a]);
    }
}

proof fn lemma_one_word(a: Seq<char>)
    requires
        forall|i: int| 0 <= i < a.len() ==> !crate::text::is_space(#[trigger] a[i]),
    ensures
        words_and_rest(a) == (Seq::<Seq<char>>::empty(), a),
    decreases a.len(),
{
    if a.len() > 0 {
        lemma_one_word(a.drop_last());
        assert(!crate::text::is_space(a[a.len() - 1]));
        assert(a.drop_last().push(a.last()) =~= a);
    } else {
        assert(a =~= Seq::empty());
    }
}

proof fn lemma_words_go_on(a: Seq<char>, space: char, b: Seq<char>)
    requires
        crate::text::is_space(space),
    ensures
        words_and_rest(a.push(space) + b) == (word_list(a) + words_and_rest(b).0, words_and_rest(
            b,
        ).1),
    decreases b.len(),
{
    let start = a.push(space);
    if b.len() == 0 {
        assert(start + b =~= start);
        assert(start.drop_last() =~= a);
        assert(words_and_rest(a).1 =~= Seq::empty() || words_and_rest(a).1.len() > 0);
        assert(word_list(a) + Seq::<Seq<char>>::empty() =~= word_list(a));
    } else {
        let front = b.drop_last();
        lemma_words_go_on(a, space, front);
        assert((start + b).drop_last() =~= start + front);
        assert((start + b).last() == b.last());
        let (done, cur) = words_and_rest(front);
        assert((word_list(a) + done).push(cur) =~= word_list(a) + done.push(cur));
    }
}

} // verus!
