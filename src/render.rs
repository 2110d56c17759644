//! Rendering a word list in a naming convention: each word gets a style, and
//! the styled words are joined by a separator.
use vstd::prelude::*;

use crate::unicode::{grapheme_clusters, graphemes_of, lower_of, lowercase, upper_of, uppercase, views};
use crate::utils::{capitalized, uppercase_first_letter};

verus! {

/// How a single word is written.
#[derive(Clone, Copy, Debug, PartialEq, Eq, Structural)]
pub enum WordStyle {
    /// As stored: lowercase.
    AsIs,
    /// First grapheme uppercased, the rest as stored.
    Capitalized,
    /// Every grapheme uppercased.
    Upper,
}

/// A word written in a style.
pub open spec fn styled(w: Seq<char>, style: WordStyle) -> Seq<char> {
    match style {
        WordStyle::AsIs => w,
        WordStyle::Capitalized => capitalized(w),
        WordStyle::Upper => upper_of(w),
    }
}

/// The words written in `first` style for the first word, `rest` for the
/// others.
pub open spec fn styled_words(ws: Seq<Seq<char>>, first: WordStyle, rest: WordStyle) -> Seq<
    Seq<char>,
> {
    ws.map(|i: int, w: Seq<char>| styled(w, if i == 0 { first } else { rest }))
}

/// The words with `sep` between each two neighbours; empty for no words.
pub open spec fn join(ws: Seq<Seq<char>>, sep: Seq<char>) -> Seq<char>
    decreases ws.len(),
{
    if ws.len() == 0 {
        Seq::empty()
    } else if ws.len() == 1 {
        ws[0]
    } else {
        join(ws.drop_last(), sep) + sep + ws.last()
    }
}

/// A word list rendered with one style for the first word, one for the
/// others, and a separator.
pub open spec fn render(ws: Seq<Seq<char>>, first: WordStyle, rest: WordStyle, sep: Seq<char>) -> Seq<
    char,
> {
    join(styled_words(ws, first, rest), sep)
}

/// Writes one word in a style.
fn style_word(w: &str, style: WordStyle) -> (r: String)
    requires
        w@.len() > 0,
    ensures
        r@ == styled(w@, style),
{
    match style {
        WordStyle::AsIs => String::from_str(w),
        WordStyle::Capitalized => uppercase_first_letter(w),
        WordStyle::Upper => uppercase(w),
    }
}

/// Renders non-empty words: the first in style `first`, the others in style
/// `rest`, joined by `sep`.
pub(crate) fn render_words(words: &Vec<String>, first: WordStyle, rest: WordStyle, sep: &str) -> (r:
    String)
    requires
        forall|i: int| 0 <= i < words@.len() ==> (#[trigger] words@[i])@.len() > 0,
    ensures
        r@ == render(views(words@), first, rest, sep@),
{
    let ghost all = styled_words(views(words@), first, rest);
    let mut out = String::new();
    let mut i: usize = 0;
    while i < words.len()
        invariant
            i <= words.len(),
            all == styled_words(views(words@), first, rest),
            forall|j: int| 0 <= j < words@.len() ==> (#[trigger] words@[j])@.len() > 0,
            out@ == join(all.take(i as int), sep@),
        decreases words.len() - i,
    {
        let style = if i == 0 {
            first
        } else {
            rest
        };
        let piece = style_word(words[i].as_str(), style);
        proof {
            assert(all.take(i as int + 1).drop_last() =~= all.take(i as int));
            assert(all[i as int] == piece@);
        }
        if i > 0 {
            out.append(sep);
        } else {
            assert(all.take(1) =~= seq![piece@]);
        }
        out.append(piece.as_str());
        i = i + 1;
    }
    assert(all.take(all.len() as int) =~= all);
    out
}

/// A grapheme at position `k` of an alternating rendering: lowercase at even
/// positions, uppercase at odd ones.
pub open spec fn toggled(g: Seq<char>, k: int) -> Seq<char> {
    if k % 2 == 1 {
        upper_of(g)
    } else {
        lower_of(g)
    }
}

/// The graphemes `gs` of one word in alternating case, the first of them at
/// position `start` of the whole rendering.
pub open spec fn alternated_word(gs: Seq<Seq<char>>, start: int) -> Seq<char> {
    Seq::new(gs.len(), |i: int| toggled(gs[i], start + i)).flatten()
}

/// How many graphemes the words before word `j` hold.
pub open spec fn grapheme_offset(ws: Seq<Seq<char>>, j: int) -> int
    decreases j,
{
    if j <= 0 {
        0
    } else {
        grapheme_offset(ws, j - 1) + grapheme_clusters(ws[j - 1]).len()
    }
}

/// Each word in alternating case; the alternation runs on across words.
pub open spec fn alternated_words(ws: Seq<Seq<char>>) -> Seq<Seq<char>> {
    Seq::new(
        ws.len(),
        |j: int| alternated_word(grapheme_clusters(ws[j]), grapheme_offset(ws, j)),
    )
}

/// A word list in alternating case, words separated by one space.
pub open spec fn alternating(ws: Seq<Seq<char>>) -> Seq<char> {
    join(alternated_words(ws), seq![' '])
}

/// Renders words in alternating case: graphemes take turns being lowercased
/// and uppercased, starting with lowercase, across the words; the words are
/// separated by one space.
pub(crate) fn render_alternating(words: &Vec<String>) -> (r: String)
    ensures
        r@ == alternating(views(words@)),
{
    let ghost ws = views(words@);
    let ghost all = alternated_words(ws);
    let sep = " ";
    proof {
        reveal_strlit(" ");
    }
    let mut out = String::new();
    let mut upper = true;
    let ghost mut k: int = 0;
    let mut j: usize = 0;
    while j < words.len()
        invariant
            j <= words.len(),
            ws == views(words@),
            all == alternated_words(ws),
            sep@ == seq![' '],
            k == grapheme_offset(ws, j as int),
            upper == (k % 2 == 0),
            out@ == join(all.take(j as int), seq![' ']),
        decreases words.len() - j,
    {
        let gs = graphemes_of(words[j].as_str());
        let ghost g = views(gs@);
        let mut word = String::new();
        let mut i: usize = 0;
        while i < gs.len()
            invariant
                i <= gs.len(),
                g == views(gs@),
                upper == ((k + i) % 2 == 0),
                word@ == Seq::new(i as nat, |t: int| toggled(g[t], k + t)).flatten(),
            decreases gs.len() - i,
        {
            upper = !upper;
            let piece = if upper {
                uppercase(gs[i].as_str())
            } else {
                lowercase(gs[i].as_str())
            };
            proof {
                let f = |t: int| toggled(g[t], k + t);
                assert(Seq::new(i as nat + 1, f) =~= Seq::new(i as nat, f).push(f(i as int)));
                Seq::new(i as nat, f).lemma_flatten_push(f(i as int));
            }
            word.append(piece.as_str());
            i = i + 1;
        }
        proof {
            assert(all[j as int] == word@);
            assert(all.take(j as int + 1).drop_last() =~= all.take(j as int));
            k = k + g.len();
        }
        if j > 0 {
            out.append(sep);
        } else {
            assert(all.take(1) =~= seq![word@]);
        }
        out.append(word.as_str());
        j = j + 1;
    }
    assert(all.take(all.len() as int) =~= all);
    out
}

} // verus!
