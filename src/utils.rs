//! Case classification and word segmentation.
use vstd::prelude::*;

use crate::unicode::{
    grapheme_clusters, graphemes_of, lower_of, lowercase, upper_of, uppercase, views,
};

verus! {

/// The characters that separate words: space, `.`, `/`, `_`, `-` and `\`.
/// Each stands as a grapheme of its own.
pub const DELIMITERS: [char; 6] = [' ', '.', '/', '_', '-', '\\'];

/// One of the characters of `DELIMITERS`.
pub open spec fn is_delimiter_char(c: char) -> bool {
    DELIMITERS@.contains(c)
}

/// A grapheme that consists of a single delimiter character.
pub open spec fn delimiter(g: Seq<char>) -> bool {
    g.len() == 1 && is_delimiter_char(g[0])
}

/// A text that occurs as one extended grapheme cluster of some text.
pub open spec fn is_grapheme(g: Seq<char>) -> bool {
    exists|s: Seq<char>, i: int|
        0 <= i < grapheme_clusters(s).len() && #[trigger] grapheme_clusters(s)[i] == g
}

/// A grapheme is uppercase when uppercasing leaves it as it is and
/// lowercasing changes it.
pub open spec fn uppercase_grapheme(g: Seq<char>) -> bool {
    upper_of(g) == g && lower_of(g) != g
}

/// Segmentation state: the word pieces closed so far (each a list of
/// graphemes), and the graphemes of the word being built.
pub type Scan = (Seq<Seq<Seq<char>>>, Seq<Seq<char>>);

/// Closes the pending piece, if it holds anything.
pub open spec fn close_piece(pieces: Seq<Seq<Seq<char>>>, pending: Seq<Seq<char>>) -> Seq<
    Seq<Seq<char>>,
> {
    if pending.len() == 0 {
        pieces
    } else {
        pieces.push(pending)
    }
}

/// One grapheme of segmentation: a delimiter closes the pending piece and is
/// dropped; an uppercase grapheme after buffered graphemes closes the pending
/// piece and opens the next one; any other grapheme joins the pending piece.
pub open spec fn scan_step(st: Scan, g: Seq<char>) -> Scan {
    if delimiter(g) {
        (close_piece(st.0, st.1), Seq::empty())
    } else if uppercase_grapheme(g) && st.1.len() > 0 {
        (close_piece(st.0, st.1), seq![g])
    } else {
        (st.0, st.1.push(g))
    }
}

/// The segmentation state after a left-to-right pass over `gs`.
pub open spec fn scan(gs: Seq<Seq<char>>) -> Scan
    decreases gs.len(),
{
    if gs.len() == 0 {
        (Seq::empty(), Seq::empty())
    } else {
        scan_step(scan(gs.drop_last()), gs.last())
    }
}

/// The word pieces of a grapheme sequence, before lowercasing.
pub open spec fn word_pieces(gs: Seq<Seq<char>>) -> Seq<Seq<Seq<char>>> {
    close_piece(scan(gs).0, scan(gs).1)
}

/// A piece as a word: its graphemes joined, then lowercased as one unit.
pub open spec fn piece_word(piece: Seq<Seq<char>>) -> Seq<char> {
    lower_of(piece.flatten())
}

/// The lowercase words of a text.
pub open spec fn segment(s: Seq<char>) -> Seq<Seq<char>> {
    word_pieces(grapheme_clusters(s)).map_values(|p: Seq<Seq<char>>| piece_word(p))
}

/// The first grapheme of `w` uppercased, followed by the rest of `w` as it is.
pub open spec fn capitalized(w: Seq<char>) -> Seq<char> {
    let first = grapheme_clusters(w)[0];
    upper_of(first) + w.subrange(first.len() as int, w.len() as int)
}

/// Tells whether a grapheme is one of the word delimiters.
pub fn is_delimiter(g: &str) -> (r: bool)
    ensures
        r == delimiter(g@),
{
    if g.unicode_len() != 1 {
        return false;
    }
    let c = g.get_char(0);
    let mut k: usize = 0;
    while k < DELIMITERS.len()
        invariant
            k <= DELIMITERS@.len(),
            g@.len() == 1,
            c == g@[0],
            forall|j: int| 0 <= j < k ==> DELIMITERS@[j] != c,
        decreases DELIMITERS@.len() - k,
    {
        if DELIMITERS[k] == c {
            assert(DELIMITERS@[k as int] == c);
            return true;
        }
        k = k + 1;
    }
    false
}

/// Tells whether a grapheme is uppercase. Defined for exactly one extended
/// grapheme cluster: digits, punctuation and caseless scripts are not
/// uppercase.
pub fn is_uppercase(character: &str) -> (r: bool)
    requires
        is_grapheme(character@),
    ensures
        r == uppercase_grapheme(character@),
{
    let original = String::from_str(character);
    let upper = uppercase(character);
    let lower = lowercase(character);
    upper == original && !(lower == original)
}

/// Concatenates a list of strings.
fn concat_all(parts: &Vec<String>) -> (r: String)
    ensures
        r@ == views(parts@).flatten(),
{
    let mut r = String::new();
    let mut i: usize = 0;
    while i < parts.len()
        invariant
            i <= parts.len(),
            r@ == views(parts@.take(i as int)).flatten(),
        decreases parts.len() - i,
    {
        proof {
            assert(views(parts@.take(i as int + 1)) =~= views(parts@.take(i as int)).push(
                parts@[i as int]@,
            ));
            views(parts@.take(i as int)).lemma_flatten_push(parts@[i as int]@);
        }
        r.append(parts[i].as_str());
        i = i + 1;
    }
    assert(parts@.take(parts@.len() as int) =~= parts@);
    r
}

/// Uppercases the first grapheme of a non-empty word and keeps the rest of
/// it unchanged. The uppercase form may be longer than the grapheme
/// (`ß` becomes `SS`).
pub fn uppercase_first_letter(word: &str) -> (r: String)
    requires
        word@.len() > 0,
    ensures
        r@ == capitalized(word@),
{
    let gs = graphemes_of(word);
    let ghost g = views(gs@);
    if gs.len() == 0 {
        proof {
            assert(g =~= Seq::<Seq<char>>::empty());
            assert(g.flatten() =~= Seq::<char>::empty());
        }
    }
    let mut res = uppercase(gs[0].as_str());
    let mut i: usize = 1;
    while i < gs.len()
        invariant
            1 <= i <= gs.len(),
            g == views(gs@),
            res@ == upper_of(g[0]) + g.subrange(1, i as int).flatten(),
        decreases gs.len() - i,
    {
        proof {
            assert(g.subrange(1, i as int + 1) =~= g.subrange(1, i as int).push(g[i as int]));
            g.subrange(1, i as int).lemma_flatten_push(g[i as int]);
        }
        res.append(gs[i].as_str());
        i = i + 1;
    }
    proof {
        assert(g.subrange(1, g.len() as int) =~= g.drop_first());
        assert(word@ == g[0] + g.drop_first().flatten());
        assert(word@.subrange(g[0].len() as int, word@.len() as int) =~= g.drop_first().flatten());
    }
    res
}

/// Appends the pending graphemes to `words`, joined and lowercased as one
/// word.
fn push_word(words: &mut Vec<String>, pending: &Vec<String>)
    requires
        pending@.len() > 0,
        forall|i: int| 0 <= i < pending@.len() ==> (#[trigger] pending@[i])@.len() > 0,
    ensures
        views(final(words)@) == views(old(words)@).push(piece_word(views(pending@))),
        final(words)@.len() == old(words)@.len() + 1,
        final(words)@.drop_last() == old(words)@,
        final(words)@.last()@.len() > 0,
{
    let joined = concat_all(pending);
    proof {
        let ps = views(pending@);
        assert(ps.flatten() == ps[0] + ps.drop_first().flatten());
        assert(ps[0] == pending@[0]@);
    }
    let word = lowercase(joined.as_str());
    words.push(word);
    proof {
        assert(views(final(words)@) =~= views(old(words)@).push(piece_word(views(pending@))));
        assert(final(words)@.drop_last() =~= old(words)@);
    }
}

/// Lowercasing the pieces commutes with adding one.
proof fn lemma_words_push(pieces: Seq<Seq<Seq<char>>>, p: Seq<Seq<char>>)
    ensures
        pieces.push(p).map_values(|q: Seq<Seq<char>>| piece_word(q)) == pieces.map_values(
            |q: Seq<Seq<char>>| piece_word(q),
        ).push(piece_word(p)),
{
    assert(pieces.push(p).map_values(|q: Seq<Seq<char>>| piece_word(q)) =~= pieces.map_values(
        |q: Seq<Seq<char>>| piece_word(q),
    ).push(piece_word(p)));
}

/// Splits a text into lowercase words. Delimiters (space, `.`, `/`, `_`, `-`,
/// `\`) separate words and are dropped; an uppercase grapheme that follows
/// other graphemes of a word starts a new word. No word is empty.
pub fn slice_into_words(input: String) -> (words: Vec<String>)
    ensures
        views(words@) == segment(input@),
        forall|i: int| 0 <= i < words@.len() ==> (#[trigger] words@[i])@.len() > 0,
{
    let graphemes = graphemes_of(input.as_str());
    let ghost gs = views(graphemes@);
    let mut words: Vec<String> = Vec::new();
    let mut pending: Vec<String> = Vec::new();
    let mut i: usize = 0;
    while i < graphemes.len()
        invariant
            i <= graphemes.len(),
            gs == views(graphemes@),
            gs == grapheme_clusters(input@),
            forall|j: int| 0 <= j < graphemes@.len() ==> (#[trigger] graphemes@[j])@.len() > 0,
            views(words@) == scan(gs.take(i as int)).0.map_values(
                |p: Seq<Seq<char>>| piece_word(p),
            ),
            views(pending@) == scan(gs.take(i as int)).1,
            forall|j: int| 0 <= j < words@.len() ==> (#[trigger] words@[j])@.len() > 0,
            forall|j: int| 0 <= j < pending@.len() ==> (#[trigger] pending@[j])@.len() > 0,
        decreases graphemes.len() - i,
    {
        let ghost before = gs.take(i as int);
        let ghost done = scan(before).0;
        proof {
            assert(gs.take(i as int + 1).drop_last() =~= before);
            assert(gs.take(i as int + 1).last() == gs[i as int]);
            lemma_words_push(done, scan(before).1);
        }
        let g = graphemes[i].as_str();
        if is_delimiter(g) {
            if pending.len() > 0 {
                push_word(&mut words, &pending);
                pending = Vec::new();
                proof {
                    assert forall|j: int| 0 <= j < words@.len() implies (#[trigger] words@[j])@.len()
                        > 0 by {
                        if j < words@.len() - 1 {
                            assert(words@[j] == words@.drop_last()[j]);
                        }
                    }
                }
            }
            proof {
                assert(views(pending@) =~= Seq::<Seq<char>>::empty());
            }
        } else {
            proof {
                assert(grapheme_clusters(input@)[i as int] == g@);
            }
            let upper = is_uppercase(g);
            if upper && pending.len() > 0 {
                push_word(&mut words, &pending);
                pending = Vec::new();
                proof {
                    assert forall|j: int| 0 <= j < words@.len() implies (#[trigger] words@[j])@.len()
                        > 0 by {
                        if j < words@.len() - 1 {
                            assert(words@[j] == words@.drop_last()[j]);
                        }
                    }
                }
            }
            let ghost pending_before = pending@;
            pending.push(graphemes[i].clone());
            proof {
                assert(views(pending@) =~= views(pending_before).push(gs[i as int]));
            }
        }
        i = i + 1;
    }
    proof {
        assert(gs.take(gs.len() as int) =~= gs);
        lemma_words_push(scan(gs).0, scan(gs).1);
    }
    if pending.len() > 0 {
        push_word(&mut words, &pending);
        proof {
            assert forall|j: int| 0 <= j < words@.len() implies (#[trigger] words@[j])@.len() > 0 by {
                if j < words@.len() - 1 {
                    assert(words@[j] == words@.drop_last()[j]);
                }
            }
        }
    }
    words
}

} // verus!
