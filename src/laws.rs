//! Properties of segmentation and rendering, proved over the specifications.
use vstd::prelude::*;

use crate::render::{
    alternated_word, alternated_words, alternating, grapheme_offset, join, render, styled_words,
    WordStyle,
};
use crate::unicode::grapheme_clusters;
use crate::utils::{
    close_piece, delimiter, piece_word, scan, segment, uppercase_grapheme, word_pieces,
};

verus! {

/// The graphemes of `gs` that are not delimiters, in order.
pub open spec fn non_delimiters(gs: Seq<Seq<char>>) -> Seq<Seq<char>> {
    gs.filter(|g: Seq<char>| !delimiter(g))
}

/// What a pass of segmentation keeps to: closed pieces are non-empty, no
/// piece and no pending grapheme is a delimiter, and pieces and pending
/// graphemes together are the non-delimiters read so far, in order.
proof fn lemma_scan_shape(gs: Seq<Seq<char>>)
    ensures
        forall|i: int| 0 <= i < scan(gs).0.len() ==> (#[trigger] scan(gs).0[i]).len() > 0,
        forall|i: int, j: int|
            0 <= i < scan(gs).0.len() && 0 <= j < scan(gs).0[i].len() ==> !delimiter(
                #[trigger] scan(gs).0[i][j],
            ),
        forall|j: int| 0 <= j < scan(gs).1.len() ==> !delimiter(#[trigger] scan(gs).1[j]),
        scan(gs).0.flatten() + scan(gs).1 == non_delimiters(gs),
    decreases gs.len(),
{
    reveal(Seq::filter);
    if gs.len() > 0 {
        let prev = gs.drop_last();
        let g = gs.last();
        lemma_scan_shape(prev);
        let (pieces, pending) = scan(prev);
        assert(non_delimiters(gs) == if !delimiter(g) {
            non_delimiters(prev).push(g)
        } else {
            non_delimiters(prev)
        });
        if pending.len() > 0 {
            pieces.lemma_flatten_push(pending);
        }
        if delimiter(g) {
            assert(close_piece(pieces, pending).flatten() + Seq::<Seq<char>>::empty()
                =~= pieces.flatten() + pending);
        } else if pending.len() > 0 && uppercase_grapheme(g) {
            assert(pieces.push(pending).flatten() + seq![g] =~= (pieces.flatten() + pending).push(
                g,
            ));
        } else {
            assert(pieces.flatten() + pending.push(g) =~= (pieces.flatten() + pending).push(g));
        }
    }
}

/// No word holds a delimiter: every word is a non-empty run of graphemes of
/// the text, none of them a delimiter, lowercased.
pub proof fn lemma_words_hold_no_delimiter(s: Seq<char>)
    ensures
        segment(s).len() == word_pieces(grapheme_clusters(s)).len(),
        forall|i: int|
            0 <= i < segment(s).len() ==> #[trigger] segment(s)[i] == piece_word(
                word_pieces(grapheme_clusters(s))[i],
            ),
        forall|i: int|
            0 <= i < word_pieces(grapheme_clusters(s)).len() ==> (#[trigger] word_pieces(
                grapheme_clusters(s),
            )[i]).len() > 0,
        forall|i: int, j: int|
            0 <= i < word_pieces(grapheme_clusters(s)).len() && 0 <= j < word_pieces(
                grapheme_clusters(s),
            )[i].len() ==> !delimiter(#[trigger] word_pieces(grapheme_clusters(s))[i][j]),
{
    let gs = grapheme_clusters(s);
    lemma_scan_shape(gs);
    let (pieces, pending) = scan(gs);
    if pending.len() > 0 {
        assert forall|i: int, j: int|
            0 <= i < word_pieces(gs).len() && 0 <= j < word_pieces(gs)[i].len() implies !delimiter(
            #[trigger] word_pieces(gs)[i][j],
        ) by {
            if i < pieces.len() {
                assert(word_pieces(gs)[i] == pieces[i]);
            }
        }
    }
}

/// Order is kept and nothing but delimiters is dropped: the words' graphemes,
/// taken in order, are exactly the text's graphemes that are not delimiters.
pub proof fn lemma_words_keep_order(s: Seq<char>)
    ensures
        word_pieces(grapheme_clusters(s)).flatten() == non_delimiters(grapheme_clusters(s)),
{
    let gs = grapheme_clusters(s);
    lemma_scan_shape(gs);
    let (pieces, pending) = scan(gs);
    if pending.len() > 0 {
        pieces.lemma_flatten_push(pending);
    } else {
        assert(pieces.flatten() + pending =~= pieces.flatten());
    }
}

/// A text with every occurrence of `a` replaced by `b`.
pub open spec fn replace_char(s: Seq<char>, a: char, b: char) -> Seq<char> {
    s.map_values(|c: char| if c == a { b } else { c })
}

/// Replacing one separator by another in joined words that do not hold the
/// first gives the words joined by the second.
proof fn lemma_join_replace(ws: Seq<Seq<char>>, a: char, b: char)
    requires
        forall|i: int| 0 <= i < ws.len() ==> !(#[trigger] ws[i]).contains(a),
    ensures
        replace_char(join(ws, seq![a]), a, b) == join(ws, seq![b]),
    decreases ws.len(),
{
    if ws.len() > 0 {
        let w = ws.last();
        assert(!ws[ws.len() - 1].contains(a));
        assert(replace_char(w, a, b) =~= w) by {
            assert forall|k: int| 0 <= k < w.len() implies w[k] != a by {
                if w[k] == a {
                    assert(w.contains(a));
                }
            }
        }
        if ws.len() == 1 {
            assert(join(ws, seq![a]) == w);
        } else {
            let prev = ws.drop_last();
            assert forall|i: int| 0 <= i < prev.len() implies !(#[trigger] prev[i]).contains(a) by {
                assert(prev[i] == ws[i]);
            }
            lemma_join_replace(prev, a, b);
            let left = join(prev, seq![a]);
            assert(replace_char(left + seq![a] + w, a, b) =~= replace_char(left, a, b) + seq![b]
                + replace_char(w, a, b));
        }
    }
}

/// The conventions that write the words as stored (`snake_case`,
/// `kebab-case`, `dot.case`, `path/case`, `windows\path\case`) differ only in
/// the separator: each joins the same words, and where no word holds the
/// separator `a`, replacing every `a` by `b` turns one into the other.
pub proof fn lemma_separator_orthogonality(t: Seq<char>, a: char, b: char)
    ensures
        render(segment(t), WordStyle::AsIs, WordStyle::AsIs, seq![a]) == join(segment(t), seq![a]),
        (forall|i: int| 0 <= i < segment(t).len() ==> !(#[trigger] segment(t)[i]).contains(a))
            ==> replace_char(render(segment(t), WordStyle::AsIs, WordStyle::AsIs, seq![a]), a, b)
            == render(segment(t), WordStyle::AsIs, WordStyle::AsIs, seq![b]),
{
    let ws = segment(t);
    assert(styled_words(ws, WordStyle::AsIs, WordStyle::AsIs) =~= ws);
    if forall|i: int| 0 <= i < ws.len() ==> !(#[trigger] ws[i]).contains(a) {
        lemma_join_replace(ws, a, b);
    }
}

/// Filtering out delimiters from delimiters only leaves nothing.
proof fn lemma_no_non_delimiters(gs: Seq<Seq<char>>)
    requires
        forall|i: int| 0 <= i < gs.len() ==> delimiter(#[trigger] gs[i]),
    ensures
        non_delimiters(gs) == Seq::<Seq<char>>::empty(),
    decreases gs.len(),
{
    reveal(Seq::filter);
    if gs.len() > 0 {
        let prev = gs.drop_last();
        assert forall|i: int| 0 <= i < prev.len() implies delimiter(#[trigger] prev[i]) by {
            assert(prev[i] == gs[i]);
        }
        lemma_no_non_delimiters(prev);
        assert(delimiter(gs[gs.len() - 1]));
    }
}

/// A text made of delimiters alone (or empty) has no words, and every
/// convention renders it as the empty string.
pub proof fn lemma_delimiters_only(t: Seq<char>)
    requires
        forall|i: int| 0 <= i < grapheme_clusters(t).len() ==> delimiter(
            #[trigger] grapheme_clusters(t)[i],
        ),
    ensures
        segment(t) == Seq::<Seq<char>>::empty(),
        forall|first: WordStyle, rest: WordStyle, sep: Seq<char>|
            #[trigger] render(segment(t), first, rest, sep) == Seq::<char>::empty(),
        alternating(segment(t)) == Seq::<char>::empty(),
{
    let gs = grapheme_clusters(t);
    let pieces = word_pieces(gs);
    lemma_no_non_delimiters(gs);
    lemma_words_keep_order(t);
    lemma_words_hold_no_delimiter(t);
    if pieces.len() > 0 {
        assert(pieces.flatten() == pieces[0] + pieces.drop_first().flatten());
        assert(pieces[0].len() > 0);
    }
    assert(segment(t) =~= Seq::<Seq<char>>::empty());
}

/// Rendering reads nothing but the text: renderings of equal texts agree, and
/// the alternation of alternating case starts afresh, in lowercase, at the
/// first grapheme of every rendering.
pub proof fn lemma_rendering_repeatable(t: Seq<char>, u: Seq<char>)
    requires
        t == u,
    ensures
        forall|first: WordStyle, rest: WordStyle, sep: Seq<char>|
            #[trigger] render(segment(t), first, rest, sep) == render(segment(u), first, rest, sep),
        alternating(segment(t)) == alternating(segment(u)),
        segment(t).len() > 0 ==> alternated_words(segment(t))[0] == alternated_word(
            grapheme_clusters(segment(t)[0]),
            0,
        ),
{
    assert(grapheme_offset(segment(t), 0) == 0);
}

} // verus!
