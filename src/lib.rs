//! `recase` changes free-form text into naming conventions (camelCase,
//! snake_case, Title Case, ...), working on extended grapheme clusters so that
//! non-ASCII scripts are segmented and cased correctly.
use vstd::prelude::*;

pub mod laws;
pub mod render;
pub mod unicode;
pub mod utils;

use crate::render::{alternating, render, render_alternating, render_words, WordStyle};
use crate::unicode::views;
use crate::utils::{segment, slice_into_words};

verus! {

/// A value that can be turned into the text to be re-cased.
pub trait TextLike: Sized {
    /// The characters of the value.
    spec fn text_view(&self) -> Seq<char>;

    /// The value as an owned string with the same characters.
    fn into_text(self) -> (r: String)
        ensures
            r@ == self.text_view(),
    ;
}

impl<'a> TextLike for &'a str {
    open spec fn text_view(&self) -> Seq<char> {
        (**self)@
    }

    fn into_text(self) -> (r: String) {
        String::from_str(self)
    }
}

impl TextLike for String {
    open spec fn text_view(&self) -> Seq<char> {
        self@
    }

    fn into_text(self) -> (r: String) {
        self
    }
}

/// Why a text was refused.
#[derive(Clone, Copy, Debug, PartialEq, Eq, Structural)]
pub enum ReCaseError {
    /// The text has no words: it is empty, or made of delimiters alone.
    EmptyInput,
}

/// The conventions a text can be rendered in.
#[derive(Clone, Copy, Debug, PartialEq, Eq, Structural)]
pub enum Case {
    /// The text as given.
    Original,
    /// `normal case`
    Normal,
    /// `camelCase`
    Camel,
    /// `PascalCase`
    Pascal,
    /// `snake_case`
    Snake,
    /// `kebab-case`
    Kebab,
    /// `dot.case`
    Dot,
    /// `path/case`
    Path,
    /// `windows\path\case`
    WindowsPath,
    /// `Sentence case`
    Sentence,
    /// `Title Case`
    Title,
    /// `Header-Case`
    Header,
    /// `UPPER_SNAKE_CASE`
    UpperSnake,
    /// `aLtErNaTiNg cAsE`
    Alternating,
}

/// A text rendered in a convention.
pub open spec fn cased(t: Seq<char>, case: Case) -> Seq<char> {
    let ws = segment(t);
    match case {
        Case::Original => t,
        Case::Normal => render(ws, WordStyle::AsIs, WordStyle::AsIs, seq![' ']),
        Case::Camel => render(ws, WordStyle::AsIs, WordStyle::Capitalized, Seq::empty()),
        Case::Pascal => render(ws, WordStyle::Capitalized, WordStyle::Capitalized, Seq::empty()),
        Case::Snake => render(ws, WordStyle::AsIs, WordStyle::AsIs, seq!['_']),
        Case::Kebab => render(ws, WordStyle::AsIs, WordStyle::AsIs, seq!['-']),
        Case::Dot => render(ws, WordStyle::AsIs, WordStyle::AsIs, seq!['.']),
        Case::Path => render(ws, WordStyle::AsIs, WordStyle::AsIs, seq!['/']),
        Case::WindowsPath => render(ws, WordStyle::AsIs, WordStyle::AsIs, seq!['\\']),
        Case::Sentence => render(ws, WordStyle::Capitalized, WordStyle::AsIs, seq![' ']),
        Case::Title => render(ws, WordStyle::Capitalized, WordStyle::Capitalized, seq![' ']),
        Case::Header => render(ws, WordStyle::Capitalized, WordStyle::Capitalized, seq!['-']),
        Case::UpperSnake => render(ws, WordStyle::Upper, WordStyle::Upper, seq!['_']),
        Case::Alternating => alternating(ws),
    }
}

/// Renders a `&str` or a `String` in a convention in one call; the same as
/// building a `ReCase` and calling the convention's method.
pub fn convert_case<S: TextLike>(text: S, case: Case) -> (r: String)
    ensures
        r@ == cased(text.text_view(), case),
{
    ReCase::new(text).to_case(case)
}

/// An instance that holds the text to be re-cased, and the words it splits
/// into. Once built, it renders the text in any of the supported conventions.
#[derive(Debug)]
pub struct ReCase {
    original_text: String,
    words: Vec<String>,
}

impl View for ReCase {
    type V = Seq<char>;

    /// The original text.
    closed spec fn view(&self) -> Seq<char> {
        self.original_text@
    }
}

impl ReCase {
    /// The stored words are the segmentation of the original text, none of
    /// them empty.
    #[verifier::type_invariant]
    spec fn well_formed(self) -> bool {
        &&& views(self.words@) == segment(self.original_text@)
        &&& forall|i: int| 0 <= i < self.words@.len() ==> (#[trigger] self.words@[i])@.len() > 0
    }

    /// Creates an instance from a `&str` or a `String`. The text is split into
    /// words once, here. A text without words (empty, or only delimiters) is
    /// accepted: every convention then renders it as the empty string.
    pub fn new<S: TextLike>(original_text: S) -> (r: ReCase)
        ensures
            r@ == original_text.text_view(),
    {
        let original_text = original_text.into_text();
        let words = slice_into_words(original_text.clone());
        ReCase { original_text, words }
    }

    /// Creates an instance like `new`, but refuses a text without words.
    pub fn try_new<S: TextLike>(original_text: S) -> (r: Result<ReCase, ReCaseError>)
        ensures
            match r {
                Ok(c) => c@ == original_text.text_view() && segment(c@).len() > 0,
                Err(e) => e == ReCaseError::EmptyInput && segment(original_text.text_view()).len()
                    == 0,
            },
    {
        let c = ReCase::new(original_text);
        proof {
            use_type_invariant(&c);
        }
        if c.words.len() == 0 {
            Err(ReCaseError::EmptyInput)
        } else {
            Ok(c)
        }
    }

    /// Creates an instance from a `&str`; the same as `new`, which should be
    /// preferred.
    pub fn new_from_str(original_text: &str) -> (r: ReCase)
        ensures
            r@ == original_text@,
    {
        ReCase::new(original_text)
    }

    /// The words of the text, lowercase, in order.
    pub fn words(&self) -> (r: Vec<String>)
        ensures
            views(r@) == segment(self@),
    {
        proof {
            use_type_invariant(self);
        }
        self.words.clone()
    }

    /// Renders the words: the first in style `first`, the others in style
    /// `rest`, joined by `sep`.
    fn render_with(&self, first: WordStyle, rest: WordStyle, sep: &str) -> (r: String)
        ensures
            r@ == render(segment(self@), first, rest, sep@),
    {
        proof {
            use_type_invariant(self);
        }
        render_words(&self.words, first, rest, sep)
    }

    /// The original text, unchanged.
    pub fn original_case(&self) -> (r: String)
        ensures
            r@ == self@,
    {
        self.original_text.clone()
    }

    /// `normal case`: the lowercase words separated by spaces.
    pub fn normal_case(&self) -> (r: String)
        ensures
            r@ == render(segment(self@), WordStyle::AsIs, WordStyle::AsIs, seq![' ']),
    {
        let sep = " ";
        proof {
            reveal_strlit(" ");
            assert(sep@ =~= seq![' ']);
        }
        self.render_with(WordStyle::AsIs, WordStyle::AsIs, sep)
    }

    /// `camelCase`: the first word lowercase, each other word capitalized,
    /// with no separator.
    pub fn camel_case(&self) -> (r: String)
        ensures
            r@ == render(segment(self@), WordStyle::AsIs, WordStyle::Capitalized, Seq::empty()),
    {
        let sep = "";
        proof {
            reveal_strlit("");
            assert(sep@ =~= Seq::<char>::empty());
        }
        self.render_with(WordStyle::AsIs, WordStyle::Capitalized, sep)
    }

    /// `PascalCase`: every word capitalized, with no separator.
    pub fn pascal_case(&self) -> (r: String)
        ensures
            r@ == render(
                segment(self@),
                WordStyle::Capitalized,
                WordStyle::Capitalized,
                Seq::empty(),
            ),
    {
        let sep = "";
        proof {
            reveal_strlit("");
            assert(sep@ =~= Seq::<char>::empty());
        }
        self.render_with(WordStyle::Capitalized, WordStyle::Capitalized, sep)
    }

    /// `snake_case`: the lowercase words separated by `_`.
    pub fn snake_case(&self) -> (r: String)
        ensures
            r@ == render(segment(self@), WordStyle::AsIs, WordStyle::AsIs, seq!['_']),
    {
        let sep = "_";
        proof {
            reveal_strlit("_");
            assert(sep@ =~= seq!['_']);
        }
        self.render_with(WordStyle::AsIs, WordStyle::AsIs, sep)
    }

    /// `kebab-case`: the lowercase words separated by `-`.
    pub fn kebab_case(&self) -> (r: String)
        ensures
            r@ == render(segment(self@), WordStyle::AsIs, WordStyle::AsIs, seq!['-']),
    {
        let sep = "-";
        proof {
            reveal_strlit("-");
            assert(sep@ =~= seq!['-']);
        }
        self.render_with(WordStyle::AsIs, WordStyle::AsIs, sep)
    }

    /// `dot.case`: the lowercase words separated by `.`.
    pub fn dot_case(&self) -> (r: String)
        ensures
            r@ == render(segment(self@), WordStyle::AsIs, WordStyle::AsIs, seq!['.']),
    {
        let sep = ".";
        proof {
            reveal_strlit(".");
            assert(sep@ =~= seq!['.']);
        }
        self.render_with(WordStyle::AsIs, WordStyle::AsIs, sep)
    }

    /// `path/case`: the lowercase words separated by `/`.
    pub fn path_case(&self) -> (r: String)
        ensures
            r@ == render(segment(self@), WordStyle::AsIs, WordStyle::AsIs, seq!['/']),
    {
        let sep = "/";
        proof {
            reveal_strlit("/");
            assert(sep@ =~= seq!['/']);
        }
        self.render_with(WordStyle::AsIs, WordStyle::AsIs, sep)
    }

    /// `windows\path\case`: the lowercase words separated by `\`.
    pub fn windows_path_case(&self) -> (r: String)
        ensures
            r@ == render(segment(self@), WordStyle::AsIs, WordStyle::AsIs, seq!['\\']),
    {
        let sep = "\\";
        proof {
            reveal_strlit("\\");
            assert(sep@ =~= seq!['\\']);
        }
        self.render_with(WordStyle::AsIs, WordStyle::AsIs, sep)
    }

    /// `Sentence case`: the first word capitalized, the others lowercase,
    /// separated by spaces.
    pub fn sentence_case(&self) -> (r: String)
        ensures
            r@ == render(segment(self@), WordStyle::Capitalized, WordStyle::AsIs, seq![' ']),
    {
        let sep = " ";
        proof {
            reveal_strlit(" ");
            assert(sep@ =~= seq![' ']);
        }
        self.render_with(WordStyle::Capitalized, WordStyle::AsIs, sep)
    }

    /// `Title Case`: every word capitalized, separated by spaces.
    pub fn title_case(&self) -> (r: String)
        ensures
            r@ == render(segment(self@), WordStyle::Capitalized, WordStyle::Capitalized, seq![' ']),
    {
        let sep = " ";
        proof {
            reveal_strlit(" ");
            assert(sep@ =~= seq![' ']);
        }
        self.render_with(WordStyle::Capitalized, WordStyle::Capitalized, sep)
    }

    /// `Header-Case`: every word capitalized, separated by `-`.
    pub fn header_case(&self) -> (r: String)
        ensures
            r@ == render(segment(self@), WordStyle::Capitalized, WordStyle::Capitalized, seq!['-']),
    {
        let sep = "-";
        proof {
            reveal_strlit("-");
            assert(sep@ =~= seq!['-']);
        }
        self.render_with(WordStyle::Capitalized, WordStyle::Capitalized, sep)
    }

    /// `UPPER_SNAKE_CASE`: every word fully uppercased, separated by `_`.
    pub fn upper_snake_case(&self) -> (r: String)
        ensures
            r@ == render(segment(self@), WordStyle::Upper, WordStyle::Upper, seq!['_']),
    {
        let sep = "_";
        proof {
            reveal_strlit("_");
            assert(sep@ =~= seq!['_']);
        }
        self.render_with(WordStyle::Upper, WordStyle::Upper, sep)
    }

    /// The text rendered in the convention `case`.
    pub fn to_case(&self, case: Case) -> (r: String)
        ensures
            r@ == cased(self@, case),
    {
        match case {
            Case::Original => self.original_case(),
            Case::Normal => self.normal_case(),
            Case::Camel => self.camel_case(),
            Case::Pascal => self.pascal_case(),
            Case::Snake => self.snake_case(),
            Case::Kebab => self.kebab_case(),
            Case::Dot => self.dot_case(),
            Case::Path => self.path_case(),
            Case::WindowsPath => self.windows_path_case(),
            Case::Sentence => self.sentence_case(),
            Case::Title => self.title_case(),
            Case::Header => self.header_case(),
            Case::UpperSnake => self.upper_snake_case(),
            Case::Alternating => self.alternating_case(),
        }
    }

    /// `aLtErNaTiNg cAsE`: graphemes take turns being lowercased and
    /// uppercased, starting with lowercase and running on across words; the
    /// words are separated by one space.
    pub fn alternating_case(&self) -> (r: String)
        ensures
            r@ == alternating(segment(self@)),
    {
        proof {
            use_type_invariant(self);
        }
        render_alternating(&self.words)
    }
}

} // verus!
