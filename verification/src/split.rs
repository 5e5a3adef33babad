//! Cutting texts into pieces and putting pieces together.
use crate::text::{chars_of, char_is_whitespace, string_of, string_range};
use vstd::prelude::*;
use vstd::string::*;

verus! {

broadcast use vstd::seq_lib::group_seq_properties;

use crate::text::{is_blank, is_whitespace, views, lemma_views_push};

/// The pieces of `s` between the occurrences of `c`: one more than there are of them.
pub open spec fn pieces(s: Seq<char>, c: char) -> Seq<Seq<char>>
    decreases s.len(),
{
    if s.len() == 0 {
        seq![Seq::empty()]
    } else {
        let before = pieces(s.drop_last(), c);
        if s.last() == c {
            before.push(Seq::empty())
        } else {
            before.drop_last().push(before.last().push(s.last()))
        }
    }
}

/// The pieces joined by `sep`.
pub open spec fn joined(parts: Seq<Seq<char>>, sep: Seq<char>) -> Seq<char>
    decreases parts.len(),
{
    if parts.len() == 0 {
        Seq::empty()
    } else if parts.len() == 1 {
        parts[0]
    } else {
        joined(parts.drop_last(), sep) + sep + parts.last()
    }
}

/// There is at least one piece.
pub proof fn lemma_pieces_nonempty(s: Seq<char>, c: char)
    ensures
        pieces(s, c).len() >= 1,
    decreases s.len(),
{
    if s.len() > 0 {
        lemma_pieces_nonempty(s.drop_last(), c);
    }
}

/// No piece holds the separator, and the pieces joined by it give the text back.
pub proof fn lemma_pieces_joined(s: Seq<char>, c: char)
    ensures
        joined(pieces(s, c), seq![c]) == s,
        forall|i: int| 0 <= i < pieces(s, c).len() ==> !(#[trigger] pieces(s, c)[i]).contains(c),
    decreases s.len(),
{
    lemma_pieces_nonempty(s, c);
    if s.len() > 0 {
        let t = s.drop_last();
        let before = pieces(t, c);
        lemma_pieces_joined(t, c);
        lemma_pieces_nonempty(t, c);
        assert(s =~= t.push(s.last()));
        let now = pieces(s, c);
        if s.last() == c {
            assert(now.drop_last() =~= before);
            assert(joined(now, seq![c]) =~= s);
        } else {
            assert(now.drop_last() =~= before.drop_last());
            assert(now.last() == before.last().push(s.last()));
            if before.len() == 1 {
                assert(before =~= seq![before[0]]);
                assert(joined(before, seq![c]) == before[0]);
                assert(joined(now, seq![c]) =~= s);
            } else {
                assert(joined(now, seq![c]) =~= joined(before.drop_last(), seq![c]) + seq![c]
                    + before.last().push(s.last()));
                assert(joined(now, seq![c]) =~= s);
            }
            assert forall|i: int| 0 <= i < now.len() implies !(#[trigger] now[i]).contains(c) by {
                if i < before.len() - 1 {
                    assert(now[i] == before[i]);
                } else {
                    assert(!before.last().contains(c));
                    assert(now[i] == before.last().push(s.last()));
                }
            }
        }
    }
}

/// The pieces of `s` between the occurrences of `c`.
pub fn split(s: &str, c: char) -> (r: Vec<String>)
    ensures
        views(r@) == pieces(s@, c),
{
    let cs = chars_of(s);
    let mut out: Vec<String> = Vec::new();
    let mut cur = String::new();
    let mut i: usize = 0;
    while i < cs.len()
        invariant
            i <= cs@.len(),
            views(out@).push(cur@) =~= pieces(cs@.take(i as int), c),
        decreases cs.len() - i,
    {
        let ch = cs[i];
        proof {
            assert(cs@.take(i + 1).drop_last() =~= cs@.take(i as int));
            assert(cs@.take(i + 1).last() == ch);
            assert(views(out@).push(cur@).drop_last() =~= views(out@));
        }
        if ch == c {
            let ghost before = out@;
            out.push(cur);
            proof {
                lemma_views_push(before, out@.last());
            }
            cur = String::new();
            assert(cur@ =~= Seq::<char>::empty());
        } else {
            cur.push(ch);
        }
        i = i + 1;
    }
    let ghost before = out@;
    out.push(cur);
    proof {
        lemma_views_push(before, out@.last());
        assert(cs@.take(i as int) =~= s@);
    }
    out
}

/// The strings joined by `sep`.
pub fn join(parts: &Vec<String>, sep: &str) -> (r: String)
    ensures
        r@ == joined(views(parts@), sep@),
{
    let mut out = String::new();
    let mut i: usize = 0;
    assert(views(parts@).take(0) =~= Seq::<Seq<char>>::empty());
    while i < parts.len()
        invariant
            i <= parts@.len(),
            out@ =~= joined(views(parts@).take(i as int), sep@),
        decreases parts.len() - i,
    {
        let ghost now = views(parts@).take(i + 1);
        assert(now.drop_last() =~= views(parts@).take(i as int));
        assert(now.last() == parts@[i as int]@);
        if i > 0 {
            out.append(sep);
        }
        out.append(parts[i].as_str());
        assert(i > 0 ==> out@ =~= joined(views(parts@).take(i as int), sep@) + sep@
            + parts@[i as int]@);
        i = i + 1;
    }
    assert(views(parts@).take(i as int) =~= views(parts@));
    out
}

// --- Lines ---

/// The text without one trailing carriage return.
pub open spec fn strip_cr(s: Seq<char>) -> Seq<char> {
    if s.len() > 0 && s.last() == '\r' {
        s.drop_last()
    } else {
        s
    }
}

/// The lines of a text: what stands before each line feed, without a carriage return
/// directly before it, and what stands after the last one, where that is not empty.
pub open spec fn lines_of(s: Seq<char>) -> Seq<Seq<char>> {
    let p = pieces(s, '\n');
    let ended = p.drop_last().map_values(|l: Seq<char>| strip_cr(l));
    if p.last().len() == 0 {
        ended
    } else {
        ended.push(p.last())
    }
}

/// The lines of a text.
pub fn lines(s: &str) -> (r: Vec<String>)
    ensures
        views(r@) == lines_of(s@),
{
    let parts = split(s, '\n');
    proof {
        lemma_pieces_nonempty(s@, '\n');
    }
    let ghost p = pieces(s@, '\n');
    let last: usize = parts.len() - 1;
    let mut out: Vec<String> = Vec::new();
    for i in 0..last
        invariant
            last + 1 == parts@.len(),
            views(parts@) == p,
            out@.len() == i,
            forall|j: int| 0 <= j < i ==> out@[j]@ == strip_cr(p[j]),
    {
        let cs = chars_of(parts[i].as_str());
        assert(cs@ == p[i as int]);
        if cs.len() > 0 && cs[cs.len() - 1] == '\r' {
            let line = string_range(&cs, 0, cs.len() - 1);
            assert(line@ =~= strip_cr(p[i as int]));
            out.push(line);
        } else {
            out.push(string_of(&cs));
        }
    }
    assert(p.last() == parts@[last as int]@);
    assert(views(out@) =~= p.drop_last().map_values(|l: Seq<char>| strip_cr(l)));
    let tail = chars_of(parts[last].as_str());
    if tail.len() > 0 {
        let ghost before = out@;
        out.push(string_of(&tail));
        proof {
            lemma_views_push(before, out@.last());
        }
    }
    out
}

// --- Words ---

/// The words completed in `s`, and the word that `s` ends in the middle of.
pub open spec fn words_so_far(s: Seq<char>) -> (Seq<Seq<char>>, Seq<char>)
    decreases s.len(),
{
    if s.len() == 0 {
        (Seq::empty(), Seq::empty())
    } else {
        let (done, cur) = words_so_far(s.drop_last());
        if !is_whitespace(s.last()) {
            (done, cur.push(s.last()))
        } else if cur.len() > 0 {
            (done.push(cur), Seq::empty())
        } else {
            (done, cur)
        }
    }
}

/// The maximal runs of characters that are not white space.
pub open spec fn words_of(s: Seq<char>) -> Seq<Seq<char>> {
    let (done, cur) = words_so_far(s);
    if cur.len() > 0 {
        done.push(cur)
    } else {
        done
    }
}

/// The maximal runs of characters that are not white space.
pub fn split_whitespace(s: &str) -> (r: Vec<String>)
    ensures
        views(r@) == words_of(s@),
{
    let cs = chars_of(s);
    let mut out: Vec<String> = Vec::new();
    let mut cur: Vec<char> = Vec::new();
    let mut i: usize = 0;
    while i < cs.len()
        invariant
            i <= cs@.len(),
            views(out@) =~= words_so_far(cs@.take(i as int)).0,
            cur@ =~= words_so_far(cs@.take(i as int)).1,
        decreases cs.len() - i,
    {
        let ch = cs[i];
        proof {
            assert(cs@.take(i + 1).drop_last() =~= cs@.take(i as int));
            assert(cs@.take(i + 1).last() == ch);
        }
        if !char_is_whitespace(ch) {
            cur.push(ch);
        } else if cur.len() > 0 {
            let ghost before = out@;
            out.push(string_of(&cur));
            proof {
                lemma_views_push(before, out@.last());
            }
            cur = Vec::new();
        }
        i = i + 1;
    }
    assert(cs@.take(i as int) =~= s@);
    if cur.len() > 0 {
        let ghost before = out@;
        out.push(string_of(&cur));
        proof {
            lemma_views_push(before, out@.last());
        }
    }
    out
}

/// A text without white space that is not empty.
pub open spec fn is_word(w: Seq<char>) -> bool {
    w.len() > 0 && forall|j: int| 0 <= j < w.len() ==> !is_whitespace(#[trigger] w[j])
}

/// A word is not empty and holds no white space.
pub proof fn law_words(s: Seq<char>)
    ensures
        forall|i: int| 0 <= i < words_of(s).len() ==> is_word(#[trigger] words_of(s)[i]),
{
    lemma_words_so_far(s);
}

proof fn lemma_words_so_far(s: Seq<char>)
    ensures
        forall|i: int| 0 <= i < words_so_far(s).0.len() ==> is_word(#[trigger] words_so_far(s).0[i]),
        words_so_far(s).1.len() > 0 ==> is_word(words_so_far(s).1),
    decreases s.len(),
{
    if s.len() > 0 {
        lemma_words_so_far(s.drop_last());
        let (done, cur) = words_so_far(s.drop_last());
        assert forall|i: int| 0 <= i < words_so_far(s).0.len() implies is_word(
            #[trigger] words_so_far(s).0[i],
        ) by {
            if i < done.len() {
                assert(words_so_far(s).0[i] == done[i]);
            }
        }
    }
}

/// The pieces of two texts with the separator between them are the pieces of the one, then
/// those of the other; a text without the separator is one piece.
pub proof fn law_pieces(a: Seq<char>, c: char, b: Seq<char>)
    ensures
        pieces(a + seq![c] + b, c) == pieces(a, c) + pieces(b, c),
        !a.contains(c) ==> pieces(a, c) == seq![a],
    decreases b.len(),
{
    let s = a + seq![c] + b;
    lemma_pieces_nonempty(b, c);
    if b.len() == 0 {
        assert(s.drop_last() =~= a);
        assert(s.last() == c);
        assert(pieces(s, c) =~= pieces(a, c) + pieces(b, c));
        lemma_one_piece(a, c);
    } else {
        let t = b.drop_last();
        law_pieces(a, c, t);
        lemma_pieces_nonempty(t, c);
        assert(s.drop_last() =~= a + seq![c] + t);
        assert(s.last() == b.last());
        assert((pieces(a, c) + pieces(t, c)).drop_last() =~= pieces(a, c) + pieces(
            t,
            c,
        ).drop_last());
        assert(pieces(s, c) =~= pieces(a, c) + pieces(b, c));
    }
}

proof fn lemma_one_piece(a: Seq<char>, c: char)
    ensures
        !a.contains(c) ==> pieces(a, c) == seq![a],
    decreases a.len(),
{
    if a.len() > 0 && !a.contains(c) {
        assert forall|i: int| 0 <= i < a.drop_last().len() implies a.drop_last()[i] != c by {
            assert(a.contains(a[i]));
        }
        assert(a.contains(a.last()));
        lemma_one_piece(a.drop_last(), c);
        assert(a.drop_last().push(a.last()) =~= a);
        assert(pieces(a, c) =~= seq![a]);
    } else if a.len() == 0 {
        assert(a =~= Seq::empty());
        assert(pieces(a, c) =~= seq![a]);
    }
}

/// Each line ends at a line feed, with which a carriage return before it goes away; what
/// follows the last line feed is a line only where it is not empty.
pub proof fn law_lines(a: Seq<char>, b: Seq<char>)
    requires
        !a.contains('\n'),
    ensures
        lines_of(a + seq!['\n'] + b) == seq![strip_cr(a)] + lines_of(b),
        lines_of(a) == (if a.len() == 0 {
            Seq::<Seq<char>>::empty()
        } else {
            seq![a]
        }),
        a.len() > 0 && a.last() == '\r' ==> strip_cr(a) == a.drop_last(),
        a.len() == 0 || a.last() != '\r' ==> strip_cr(a) == a,
{
    law_pieces(a, '\n', b);
    lemma_pieces_nonempty(b, '\n');
    let p = seq![a] + pieces(b, '\n');
    assert(pieces(a + seq!['\n'] + b, '\n') == p);
    assert(p.last() == pieces(b, '\n').last());
    let f = |l: Seq<char>| strip_cr(l);
    assert(p.drop_last().map_values(f) =~= seq![strip_cr(a)] + pieces(
        b,
        '\n',
    ).drop_last().map_values(f));
    assert(lines_of(a + seq!['\n'] + b) =~= seq![strip_cr(a)] + lines_of(b));
    assert(seq![a].drop_last().map_values(f) =~= Seq::<Seq<char>>::empty());
    assert(lines_of(a) =~= (if a.len() == 0 {
        Seq::<Seq<char>>::empty()
    } else {
        seq![a]
    }));
}

/// Putting lists of texts together puts the separator once between them, and one text is
/// itself.
pub proof fn law_joined(a: Seq<Seq<char>>, b: Seq<Seq<char>>, sep: Seq<char>)
    requires
        a.len() > 0,
        b.len() > 0,
    ensures
        joined(a + b, sep) == joined(a, sep) + sep + joined(b, sep),
        a.len() == 1 ==> joined(a, sep) == a[0],
        joined(Seq::empty(), sep).len() == 0,
    decreases b.len(),
{
    assert((a + b).drop_last() =~= a + b.drop_last());
    assert((a + b).last() == b.last());
    if b.len() == 1 {
        assert(a + b.drop_last() =~= a);
    } else {
        law_joined(a, b.drop_last(), sep);
        assert(joined(a + b, sep) =~= joined(a, sep) + sep + joined(b, sep));
    }
}

/// The words of two texts with white space between them are the words of the one, then those
/// of the other; a text without white space is one word, and blank text holds none.
pub proof fn law_words_parts(a: Seq<char>, c: char, b: Seq<char>)
    requires
        is_whitespace(c),
    ensures
        words_of(a + seq![c] + b) == words_of(a) + words_of(b),
        is_word(a) ==> words_of(a) == seq![a],
        is_blank(a) ==> words_of(a).len() == 0,
{
    lemma_words_between(a, c, b);
    lemma_one_word(a);
    lemma_no_word(a);
    assert(words_of(a + seq![c] + b) =~= words_of(a) + words_of(b));
}

proof fn lemma_words_between(a: Seq<char>, c: char, b: Seq<char>)
    requires
        is_whitespace(c),
    ensures
        words_so_far(a + seq![c] + b).0 == words_of(a) + words_so_far(b).0,
        words_so_far(a + seq![c] + b).1 == words_so_far(b).1,
    decreases b.len(),
{
    let s = a + seq![c] + b;
    if b.len() == 0 {
        assert(s.drop_last() =~= a);
        assert(s.last() == c);
        assert(words_so_far(s).0 =~= words_of(a) + words_so_far(b).0);
        assert(words_so_far(s).1 =~= words_so_far(b).1);
    } else {
        lemma_words_between(a, c, b.drop_last());
        assert(s.drop_last() =~= a + seq![c] + b.drop_last());
        assert(s.last() == b.last());
        assert(words_so_far(s).0 =~= words_of(a) + words_so_far(b).0);
    }
}

proof fn lemma_one_word(a: Seq<char>)
    ensures
        is_word(a) ==> words_so_far(a).0.len() == 0 && words_so_far(a).1 == a && words_of(a)
            == seq![a],
    decreases a.len(),
{
    if is_word(a) {
        let t = a.drop_last();
        assert(!is_whitespace(a.last()));
        assert(t.push(a.last()) =~= a);
        if t.len() > 0 {
            assert forall|j: int| 0 <= j < t.len() implies !is_whitespace(#[trigger] t[j]) by {
                assert(t[j] == a[j]);
            }
            lemma_one_word(t);
        } else {
            assert(words_so_far(t).1 =~= t);
        }
        assert(words_so_far(a).1 == a);
        assert(words_of(a) =~= seq![a]);
    }
}

proof fn lemma_no_word(a: Seq<char>)
    ensures
        is_blank(a) ==> words_so_far(a).0.len() == 0 && words_so_far(a).1.len() == 0,
    decreases a.len(),
{
    if is_blank(a) && a.len() > 0 {
        let t = a.drop_last();
        assert(is_whitespace(a.last()));
        assert forall|j: int| 0 <= j < t.len() implies is_whitespace(#[trigger] t[j]) by {
            assert(t[j] == a[j]);
        }
        lemma_no_word(t);
    }
}

/// Words that are put together with a space between them are the words of the text.
pub proof fn law_words_joined(words: Seq<Seq<char>>)
    requires
        forall|i: int| 0 <= i < words.len() ==> is_word(#[trigger] words[i]),
    ensures
        words_of(joined(words, " "@)) == words,
    decreases words.len(),
{
    reveal_strlit(" ");
    assert(" "@ =~= seq![' ']);
    if words.len() == 0 {
        lemma_no_word(joined(words, " "@));
        assert(words_of(joined(words, " "@)) =~= words);
    } else if words.len() == 1 {
        lemma_one_word(words[0]);
        assert(words_of(joined(words, " "@)) =~= words);
    } else {
        let before = words.drop_last();
        law_words_joined(before);
        law_words_parts(joined(before, " "@), ' ', words.last());
        law_words_parts(words.last(), ' ', Seq::empty());
        assert(is_word(words[words.len() - 1]));
        assert(words_of(joined(words, " "@)) =~= before + seq![words.last()]);
        assert(before + seq![words.last()] =~= words);
    }
}

}
