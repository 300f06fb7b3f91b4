//! The tokens emitted by the lexer, and their mathematical views.
//!
//! A `Token` is one discrete lexical unit: a single character of text, a
//! literal character replayed from an abandoned character reference, a fully
//! parsed tag, a comment, or the terminal end-of-file marker. A tag carries
//! its name, a self-closing flag, and an ordered list of attributes in which
//! every name occurs at most once (insertion is first-value-wins; the lexer
//! enforces this when it commits attributes).
use vstd::prelude::*;

verus! {

/// One attribute of a tag: a name and a value.
#[derive(Debug, PartialEq, Eq)]
pub struct TagAttr {
    pub name: Vec<char>,
    pub value: Vec<char>,
}

/// The mathematical view of an attribute: both buffers as sequences.
#[verifier::ext_equal]
pub struct TagAttrView {
    pub name: Seq<char>,
    pub value: Seq<char>,
}

impl View for TagAttr {
    type V = TagAttrView;

    open spec fn view(&self) -> TagAttrView {
        TagAttrView { name: self.name@, value: self.value@ }
    }
}

/// The views of a sequence of attributes, element by element.
pub open spec fn attr_views(s: Seq<TagAttr>) -> Seq<TagAttrView> {
    Seq::new(s.len(), |i: int| s[i]@)
}

/// The payload of a tag token: its name, whether the tag closed itself with
/// `/>`, and its attributes in document order with first-value-wins names.
#[derive(Debug, PartialEq, Eq)]
pub struct TagData {
    pub tag_name: Vec<char>,
    pub self_closing: bool,
    pub attributes: Vec<TagAttr>,
}

/// The mathematical view of a tag.
#[verifier::ext_equal]
pub struct TagDataView {
    pub tag_name: Seq<char>,
    pub self_closing: bool,
    pub attributes: Seq<TagAttrView>,
}

impl TagDataView {
    /// The view of a freshly created tag builder.
    pub open spec fn empty() -> TagDataView {
        TagDataView { tag_name: Seq::empty(), self_closing: false, attributes: Seq::empty() }
    }
}

impl View for TagData {
    type V = TagDataView;

    open spec fn view(&self) -> TagDataView {
        TagDataView {
            tag_name: self.tag_name@,
            self_closing: self.self_closing,
            attributes: attr_views(self.attributes@),
        }
    }
}

impl TagData {
    /// A fresh tag builder: empty name, not self-closing, no attributes.
    pub fn new() -> (t: TagData)
        ensures
            t@ == TagDataView::empty(),
    {
        let t = TagData { tag_name: Vec::new(), self_closing: false, attributes: Vec::new() };
        proof {
            assert(t@ =~~= TagDataView::empty());
        }
        t
    }
}

/// One lexical unit emitted by a call to `Lexer::next_token`.
#[derive(Debug, PartialEq, Eq)]
pub enum Token {
    /// A single literal character of text.
    Character(char),
    /// A single character produced by an attempted or literal character
    /// reference; kept apart from `Character` for consumers that must
    /// reinsert ambiguous-ampersand text verbatim.
    CharacterReference(char),
    /// A comment body (reserved for the comment states).
    Comment(Vec<char>),
    /// A completely parsed start or end tag.
    Tag(TagData),
    /// The terminal marker: once emitted, every later call emits it again.
    EndOfFile,
}

/// The mathematical view of a token.
#[verifier::ext_equal]
pub enum TokenView {
    Character(char),
    CharacterReference(char),
    Comment(Seq<char>),
    Tag(TagDataView),
    EndOfFile,
}

impl View for Token {
    type V = TokenView;

    open spec fn view(&self) -> TokenView {
        match self {
            Token::Character(c) => TokenView::Character(*c),
            Token::CharacterReference(c) => TokenView::CharacterReference(*c),
            Token::Comment(s) => TokenView::Comment(s@),
            Token::Tag(t) => TokenView::Tag(t@),
            Token::EndOfFile => TokenView::EndOfFile,
        }
    }
}

/// The views of a sequence of tokens, element by element.
pub open spec fn token_views(s: Seq<Token>) -> Seq<TokenView> {
    Seq::new(s.len(), |i: int| s[i]@)
}

} // verus!
