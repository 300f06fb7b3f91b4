//! The tokenizer's state machine, as a mathematical object.
//!
//! `LexerView` is the abstract state of the lexer: the remaining input, the
//! one-slot reconsume buffer, the current and return states, the token under
//! construction, the character-reference scratch buffer, and the errors
//! reported so far. `step` consumes at most one character and says exactly
//! what one transition of the machine does; `run` iterates `step` until a
//! token is produced. The executable lexer is proved to return exactly
//! `run(self@)` on every call, so every statement proved about `run` here is
//! a statement about the running code.
use vstd::prelude::*;

use crate::html::tokens::{TagAttrView, TagDataView, TokenView};

verus! {

/// The lexical states of the tokenizer.
///
/// The first group is fully implemented. `NamedCharacterReference`,
/// `NumericCharacterReference`, `MarkupDeclarationOpen` and `BogusComment`
/// are reserved extension points: until a reference table and the comment
/// and DOCTYPE state families are wired in, the character-reference ones
/// fall back to the literal-replay rule and the other two terminate the
/// stream, as placeholders.
#[derive(Debug, Clone, Copy)]
pub enum LexerState {
    Data,
    TagOpen,
    EndTagOpen,
    TagName,
    BeforeAttributeName,
    AttributeName,
    AfterAttributeName,
    BeforeAttributeValue,
    AttributeValueDoubleQuoted,
    AttributeValueSingleQuoted,
    AttributeValueUnquoted,
    AfterAttributeValueQuoted,
    SelfClosingStartTag,
    CharacterReference,
    NamedCharacterReference,
    NumericCharacterReference,
    MarkupDeclarationOpen,
    BogusComment,
}

/// The fixed vocabulary of parse-error codes. Errors are reported, never
/// fatal: the lexer records them and goes on by the state-specific recovery
/// rule.
#[derive(Debug, Clone, Copy, PartialEq, Eq)]
pub enum ParseError {
    UnexpectedNullCharacter,
    EofBeforeTagName,
    EofInTag,
    InvalidFirstCharacterOfTagName,
    MissingEndTagName,
    UnexpectedEqualsSignBeforeAttributeName,
    UnexpectedCharacterInAttributeName,
    MissingAttributeValue,
    UnexpectedCharacterInUnquotedAttributeValue,
    UnexpectedSolidusInTag,
    UnexpectedQuestionMarkInsteadOfTagName,
    MissingWhitespaceBetweenAttributes,
    DuplicateAttribute,
}

impl ParseError {
    /// The stable string form of the code, as delivered to consumers.
    pub open spec fn code_spec(self) -> Seq<char> {
        match self {
            ParseError::UnexpectedNullCharacter => "unexpected-null-character"@,
            ParseError::EofBeforeTagName => "eof-before-tag-name"@,
            ParseError::EofInTag => "eof-in-tag"@,
            ParseError::InvalidFirstCharacterOfTagName => "invalid-first-character-of-tag-name"@,
            ParseError::MissingEndTagName => "missing-end-tag-name"@,
            ParseError::UnexpectedEqualsSignBeforeAttributeName => "unexpected-equals-sign-before-attribute-name"@,
            ParseError::UnexpectedCharacterInAttributeName => "unexpected-character-in-attribute-name"@,
            ParseError::MissingAttributeValue => "missing-attribute-value"@,
            ParseError::UnexpectedCharacterInUnquotedAttributeValue => "unexpected-character-in-unquoted-attribute-value"@,
            ParseError::UnexpectedSolidusInTag => "unexpected-solidus-in-tag"@,
            ParseError::UnexpectedQuestionMarkInsteadOfTagName => "unexpected-question-mark-instead-of-tag-name"@,
            ParseError::MissingWhitespaceBetweenAttributes => "missing-whitespace-between-attributes"@,
            ParseError::DuplicateAttribute => "duplicate-attribute"@,
        }
    }

    /// The stable string code of this error.
    pub fn code(&self) -> (s: &'static str)
        ensures
            s@ == self.code_spec(),
    {
        match self {
            ParseError::UnexpectedNullCharacter => "unexpected-null-character",
            ParseError::EofBeforeTagName => "eof-before-tag-name",
            ParseError::EofInTag => "eof-in-tag",
            ParseError::InvalidFirstCharacterOfTagName => "invalid-first-character-of-tag-name",
            ParseError::MissingEndTagName => "missing-end-tag-name",
            ParseError::UnexpectedEqualsSignBeforeAttributeName => "unexpected-equals-sign-before-attribute-name",
            ParseError::UnexpectedCharacterInAttributeName => "unexpected-character-in-attribute-name",
            ParseError::MissingAttributeValue => "missing-attribute-value",
            ParseError::UnexpectedCharacterInUnquotedAttributeValue => "unexpected-character-in-unquoted-attribute-value",
            ParseError::UnexpectedSolidusInTag => "unexpected-solidus-in-tag",
            ParseError::UnexpectedQuestionMarkInsteadOfTagName => "unexpected-question-mark-instead-of-tag-name",
            ParseError::MissingWhitespaceBetweenAttributes => "missing-whitespace-between-attributes",
            ParseError::DuplicateAttribute => "duplicate-attribute",
        }
    }
}

/// The abstract state of the lexer.
#[verifier::ext_equal]
pub struct LexerView {
    /// The whole input, as Unicode scalar values.
    pub input: Seq<char>,
    /// How many characters of `input` have been consumed.
    pub pos: int,
    /// The one-slot reconsume buffer: a character handed back to be
    /// reprocessed by the next state before the input cursor advances.
    pub reconsume: Option<char>,
    /// The current lexical state.
    pub state: LexerState,
    /// The state to resume once the character-reference sub-machine ends.
    pub return_state: LexerState,
    /// The character-reference scratch buffer; begins with `&` while a
    /// reference is being classified.
    pub buffer: Seq<char>,
    /// The tag under construction.
    pub tag: TagDataView,
    /// The name buffer of the attribute under construction.
    pub attr_name: Seq<char>,
    /// The value buffer of the attribute under construction.
    pub attr_value: Seq<char>,
    /// Every parse error reported so far, in order.
    pub errors: Seq<ParseError>,
    /// Whether the `<` swallowed before an end-of-input `</` has already
    /// been replayed as a literal character token.
    pub lt_replayed: bool,
    /// Whether the end-of-file token has been emitted; once set, every call
    /// emits it again.
    pub done: bool,
}

/// The whitespace characters that separate tag and attribute parts: tab,
/// line feed, form feed and space.
pub open spec fn is_ws(c: char) -> bool {
    c == '\u{0009}' || c == '\u{000A}' || c == '\u{000C}' || c == ' '
}

/// ASCII letters, either case.
pub open spec fn is_ascii_alpha(c: char) -> bool {
    ('a' <= c && c <= 'z') || ('A' <= c && c <= 'Z')
}

/// ASCII uppercase letters mapped to lowercase; everything else unchanged.
pub open spec fn lower_char(c: char) -> char {
    if 'A' <= c && c <= 'Z' {
        ((c as int) + 32) as char
    } else {
        c
    }
}

/// Consume one character: the reconsume slot if it is occupied, otherwise
/// the next input character; none at end of input.
pub open spec fn read_char(m: LexerView) -> (Option<char>, LexerView) {
    match m.reconsume {
        Some(c) => (Some(c), LexerView { reconsume: None, ..m }),
        None => if m.pos < m.input.len() {
            (Some(m.input[m.pos]), LexerView { pos: m.pos + 1, ..m })
        } else {
            (None, m)
        },
    }
}

/// Whether an attribute with this name is already present.
pub open spec fn attr_name_present(attrs: Seq<TagAttrView>, name: Seq<char>) -> bool {
    exists|i: int| 0 <= i < attrs.len() && attrs[i].name == name
}

/// Commit the attribute under construction into the tag, first value wins:
/// an empty name means no attribute was started and nothing is added; a name
/// already present is a `duplicate-attribute` parse error and its value is
/// discarded, never overwriting the first; otherwise the attribute is
/// appended. The pending buffers are reset either way.
pub open spec fn commit_pending(m: LexerView) -> LexerView {
    if m.attr_name.len() == 0 {
        LexerView { attr_name: Seq::empty(), attr_value: Seq::empty(), ..m }
    } else if attr_name_present(m.tag.attributes, m.attr_name) {
        LexerView {
            errors: m.errors.push(ParseError::DuplicateAttribute),
            attr_name: Seq::empty(),
            attr_value: Seq::empty(),
            ..m
        }
    } else {
        LexerView {
            tag: TagDataView {
                attributes: m.tag.attributes.push(
                    TagAttrView { name: m.attr_name, value: m.attr_value },
                ),
                ..m.tag
            },
            attr_name: Seq::empty(),
            attr_value: Seq::empty(),
            ..m
        }
    }
}

/// Emit the tag under construction and return to the data state with fresh
/// builders.
pub open spec fn finalize_tag(m: LexerView) -> (LexerView, Option<TokenView>) {
    (
        LexerView {
            state: LexerState::Data,
            tag: TagDataView::empty(),
            attr_name: Seq::empty(),
            attr_value: Seq::empty(),
            ..m
        },
        Some(TokenView::Tag(m.tag)),
    )
}

/// Report the end of input inside a tag and terminate the stream, discarding
/// the tag under construction.
pub open spec fn eof_in_tag(m: LexerView, s: LexerState) -> (LexerView, Option<TokenView>) {
    (
        LexerView { state: s, errors: m.errors.push(ParseError::EofInTag), done: true, ..m },
        Some(TokenView::EndOfFile),
    )
}

/// The data state: ordinary text is passed through one character at a time;
/// `&` enters the character-reference sub-machine, `<` opens a tag, a NUL is
/// reported and emitted as the replacement character, and end of input emits
/// the end-of-file token.
pub open spec fn step_data(m: LexerView) -> (LexerView, Option<TokenView>) {
    let (oc, m1) = read_char(m);
    match oc {
        None => (LexerView { done: true, ..m1 }, Some(TokenView::EndOfFile)),
        Some(c) => if c == '&' {
            (
                LexerView {
                    state: LexerState::CharacterReference,
                    return_state: LexerState::Data,
                    buffer: seq!['&'],
                    ..m1
                },
                None,
            )
        } else if c == '<' {
            (LexerView { state: LexerState::TagOpen, ..m1 }, None)
        } else if c == '\u{0000}' {
            (
                LexerView { errors: m1.errors.push(ParseError::UnexpectedNullCharacter), ..m1 },
                Some(TokenView::Character('\u{FFFD}')),
            )
        } else {
            (m1, Some(TokenView::Character(c)))
        },
    }
}

/// The tag-open state, entered after `<`.
pub open spec fn step_tag_open(m: LexerView) -> (LexerView, Option<TokenView>) {
    let (oc, m1) = read_char(m);
    match oc {
        None => (
            LexerView {
                state: LexerState::Data,
                errors: m1.errors.push(ParseError::EofBeforeTagName),
                ..m1
            },
            Some(TokenView::Character('>')),
        ),
        Some(c) => if is_ascii_alpha(c) {
            (
                LexerView {
                    reconsume: Some(c),
                    state: LexerState::TagName,
                    tag: TagDataView::empty(),
                    attr_name: Seq::empty(),
                    attr_value: Seq::empty(),
                    ..m1
                },
                None,
            )
        } else if c == '!' {
            (LexerView { state: LexerState::MarkupDeclarationOpen, ..m1 }, None)
        } else if c == '/' {
            (LexerView { state: LexerState::EndTagOpen, ..m1 }, None)
        } else if c == '?' {
            (
                LexerView {
                    errors: m1.errors.push(ParseError::UnexpectedQuestionMarkInsteadOfTagName),
                    reconsume: Some('?'),
                    state: LexerState::BogusComment,
                    ..m1
                },
                Some(TokenView::Comment(Seq::empty())),
            )
        } else {
            (
                LexerView {
                    errors: m1.errors.push(ParseError::InvalidFirstCharacterOfTagName),
                    reconsume: Some(c),
                    state: LexerState::Data,
                    ..m1
                },
                Some(TokenView::Character('>')),
            )
        },
    }
}

/// The end-tag-open state, entered after `</`. At end of input the swallowed
/// `<` and `/` are replayed as literal character tokens, one per call, so
/// that `</` just before the end of the text is not silently dropped.
pub open spec fn step_end_tag_open(m: LexerView) -> (LexerView, Option<TokenView>) {
    let (oc, m1) = read_char(m);
    match oc {
        None => if !m1.lt_replayed {
            (
                LexerView {
                    errors: m1.errors.push(ParseError::EofBeforeTagName),
                    lt_replayed: true,
                    ..m1
                },
                Some(TokenView::Character('<')),
            )
        } else {
            (LexerView { state: LexerState::Data, ..m1 }, Some(TokenView::Character('/')))
        },
        Some(c) => if is_ascii_alpha(c) {
            (
                LexerView {
                    reconsume: Some(c),
                    state: LexerState::TagName,
                    tag: TagDataView::empty(),
                    attr_name: Seq::empty(),
                    attr_value: Seq::empty(),
                    ..m1
                },
                None,
            )
        } else if c == '>' {
            (
                LexerView {
                    errors: m1.errors.push(ParseError::MissingEndTagName),
                    state: LexerState::TagName,
                    tag: TagDataView::empty(),
                    attr_name: Seq::empty(),
                    attr_value: Seq::empty(),
                    ..m1
                },
                None,
            )
        } else {
            (
                LexerView {
                    errors: m1.errors.push(ParseError::InvalidFirstCharacterOfTagName),
                    state: LexerState::BogusComment,
                    ..m1
                },
                None,
            )
        },
    }
}

/// The tag-name state: uppercase ASCII is lowercased, NUL is reported and
/// replaced, whitespace moves to the attribute states, `/` to the
/// self-closing state, and `>` emits the finished tag.
pub open spec fn step_tag_name(m: LexerView) -> (LexerView, Option<TokenView>) {
    let (oc, m1) = read_char(m);
    match oc {
        None => eof_in_tag(m1, LexerState::TagName),
        Some(c) => if is_ws(c) {
            (LexerView { state: LexerState::BeforeAttributeName, ..m1 }, None)
        } else if c == '/' {
            (LexerView { state: LexerState::SelfClosingStartTag, ..m1 }, None)
        } else if c == '>' {
            finalize_tag(m1)
        } else if c == '\u{0000}' {
            (
                LexerView {
                    errors: m1.errors.push(ParseError::UnexpectedNullCharacter),
                    tag: TagDataView { tag_name: m1.tag.tag_name.push('\u{FFFD}'), ..m1.tag },
                    ..m1
                },
                None,
            )
        } else {
            (
                LexerView {
                    tag: TagDataView { tag_name: m1.tag.tag_name.push(lower_char(c)), ..m1.tag },
                    ..m1
                },
                None,
            )
        },
    }
}

/// The before-attribute-name state: skips whitespace and starts the next
/// attribute, or hands `/` and `>` on for the tag to be finished.
pub open spec fn step_before_attribute_name(m: LexerView) -> (LexerView, Option<TokenView>) {
    let (oc, m1) = read_char(m);
    match oc {
        None => (
            LexerView {
                state: LexerState::AfterAttributeName,
                attr_name: Seq::empty(),
                attr_value: Seq::empty(),
                errors: m1.errors.push(ParseError::EofInTag),
                done: true,
                ..m1
            },
            Some(TokenView::EndOfFile),
        ),
        Some(c) => if is_ws(c) {
            (m1, None)
        } else if c == '/' || c == '>' {
            (
                LexerView {
                    reconsume: Some(c),
                    state: LexerState::AfterAttributeName,
                    attr_name: Seq::empty(),
                    attr_value: Seq::empty(),
                    ..m1
                },
                None,
            )
        } else if c == '=' {
            (
                LexerView {
                    errors: m1.errors.push(ParseError::UnexpectedEqualsSignBeforeAttributeName),
                    attr_name: seq!['='],
                    attr_value: Seq::empty(),
                    state: LexerState::AttributeName,
                    ..m1
                },
                None,
            )
        } else {
            (
                LexerView {
                    reconsume: Some(c),
                    attr_name: Seq::empty(),
                    attr_value: Seq::empty(),
                    state: LexerState::AttributeName,
                    ..m1
                },
                None,
            )
        },
    }
}

/// The attribute-name state: accumulates the name with the same lowercasing
/// and NUL-replacement rules as tag names; quotes and `<` are kept but
/// reported.
pub open spec fn step_attribute_name(m: LexerView) -> (LexerView, Option<TokenView>) {
    let (oc, m1) = read_char(m);
    match oc {
        None => eof_in_tag(m1, LexerState::AfterAttributeName),
        Some(c) => if is_ws(c) || c == '/' || c == '>' {
            (
                LexerView { reconsume: Some(c), state: LexerState::AfterAttributeName, ..m1 },
                None,
            )
        } else if c == '=' {
            (LexerView { state: LexerState::BeforeAttributeValue, ..m1 }, None)
        } else if c == '\u{0000}' {
            (
                LexerView {
                    errors: m1.errors.push(ParseError::UnexpectedNullCharacter),
                    attr_name: m1.attr_name.push('\u{FFFD}'),
                    ..m1
                },
                None,
            )
        } else if c == '\u{0022}' || c == '\u{0027}' || c == '<' {
            (
                LexerView {
                    errors: m1.errors.push(ParseError::UnexpectedCharacterInAttributeName),
                    attr_name: m1.attr_name.push(c),
                    ..m1
                },
                None,
            )
        } else {
            (LexerView { attr_name: m1.attr_name.push(lower_char(c)), ..m1 }, None)
        },
    }
}

/// The after-attribute-name state: commits the pending attribute when the
/// tag goes on without a value for it.
pub open spec fn step_after_attribute_name(m: LexerView) -> (LexerView, Option<TokenView>) {
    let (oc, m1) = read_char(m);
    match oc {
        None => eof_in_tag(m1, LexerState::AfterAttributeName),
        Some(c) => if is_ws(c) {
            (m1, None)
        } else if c == '/' {
            (
                LexerView {
                    state: LexerState::SelfClosingStartTag,
                    ..commit_pending(m1)
                },
                None,
            )
        } else if c == '=' {
            (LexerView { state: LexerState::BeforeAttributeValue, ..m1 }, None)
        } else if c == '>' {
            finalize_tag(commit_pending(m1))
        } else {
            (
                LexerView {
                    reconsume: Some(c),
                    state: LexerState::AttributeName,
                    ..commit_pending(m1)
                },
                None,
            )
        },
    }
}

/// The before-attribute-value state: picks the quoting style of the value;
/// a bare `>` is a missing value.
pub open spec fn step_before_attribute_value(m: LexerView) -> (LexerView, Option<TokenView>) {
    let (oc, m1) = read_char(m);
    match oc {
        None => eof_in_tag(m1, LexerState::AttributeValueUnquoted),
        Some(c) => if is_ws(c) {
            (m1, None)
        } else if c == '\u{0022}' {
            (LexerView { state: LexerState::AttributeValueDoubleQuoted, ..m1 }, None)
        } else if c == '\u{0027}' {
            (LexerView { state: LexerState::AttributeValueSingleQuoted, ..m1 }, None)
        } else if c == '>' {
            finalize_tag(
                commit_pending(
                    LexerView {
                        errors: m1.errors.push(ParseError::MissingAttributeValue),
                        ..m1
                    },
                ),
            )
        } else {
            (
                LexerView { reconsume: Some(c), state: LexerState::AttributeValueUnquoted, ..m1 },
                None,
            )
        },
    }
}

/// A quoted attribute-value state (the quote character is `"` or `'`): the
/// matching quote ends and commits the value, `&` enters the
/// character-reference sub-machine, NUL is reported and replaced.
pub open spec fn step_quoted_value(m: LexerView, quote: char) -> (LexerView, Option<TokenView>) {
    let (oc, m1) = read_char(m);
    match oc {
        None => eof_in_tag(m1, m1.state),
        Some(c) => if c == quote {
            (
                LexerView {
                    state: LexerState::AfterAttributeValueQuoted,
                    ..commit_pending(m1)
                },
                None,
            )
        } else if c == '&' {
            (
                LexerView {
                    return_state: m1.state,
                    buffer: seq!['&'],
                    state: LexerState::CharacterReference,
                    ..m1
                },
                None,
            )
        } else if c == '\u{0000}' {
            (
                LexerView {
                    errors: m1.errors.push(ParseError::UnexpectedNullCharacter),
                    attr_value: m1.attr_value.push('\u{FFFD}'),
                    ..m1
                },
                None,
            )
        } else {
            (LexerView { attr_value: m1.attr_value.push(c), ..m1 }, None)
        },
    }
}

/// The unquoted attribute-value state: whitespace or `>` ends and commits
/// the value; a handful of characters are kept but reported.
pub open spec fn step_unquoted_value(m: LexerView) -> (LexerView, Option<TokenView>) {
    let (oc, m1) = read_char(m);
    match oc {
        None => eof_in_tag(m1, LexerState::AttributeValueUnquoted),
        Some(c) => if is_ws(c) {
            (
                LexerView {
                    state: LexerState::BeforeAttributeName,
                    ..commit_pending(m1)
                },
                None,
            )
        } else if c == '&' {
            (
                LexerView {
                    return_state: LexerState::AttributeValueUnquoted,
                    buffer: seq!['&'],
                    state: LexerState::CharacterReference,
                    ..m1
                },
                None,
            )
        } else if c == '>' {
            finalize_tag(commit_pending(m1))
        } else if c == '\u{0000}' {
            (
                LexerView {
                    errors: m1.errors.push(ParseError::UnexpectedNullCharacter),
                    attr_value: m1.attr_value.push('\u{FFFD}'),
                    ..m1
                },
                None,
            )
        } else if c == '\u{0022}' || c == '\u{0027}' || c == '<' || c == '=' || c == '\u{0060}' {
            (
                LexerView {
                    errors: m1.errors.push(
                        ParseError::UnexpectedCharacterInUnquotedAttributeValue,
                    ),
                    attr_value: m1.attr_value.push(c),
                    ..m1
                },
                None,
            )
        } else {
            (LexerView { attr_value: m1.attr_value.push(c), ..m1 }, None)
        },
    }
}

/// The after-attribute-value-quoted state: anything but whitespace, `/` or
/// the end of the tag is a missing-whitespace error and is reprocessed.
pub open spec fn step_after_quoted_value(m: LexerView) -> (LexerView, Option<TokenView>) {
    let (oc, m1) = read_char(m);
    match oc {
        None => eof_in_tag(m1, LexerState::AfterAttributeValueQuoted),
        Some(c) => if is_ws(c) {
            (LexerView { state: LexerState::BeforeAttributeName, ..m1 }, None)
        } else if c == '/' {
            (LexerView { state: LexerState::SelfClosingStartTag, ..m1 }, None)
        } else {
            (
                LexerView {
                    errors: m1.errors.push(ParseError::MissingWhitespaceBetweenAttributes),
                    reconsume: Some(c),
                    state: LexerState::BeforeAttributeName,
                    ..m1
                },
                None,
            )
        },
    }
}

/// The self-closing-start-tag state: `>` marks the tag self-closing and
/// emits it; anything else means the `/` did not close the tag.
pub open spec fn step_self_closing(m: LexerView) -> (LexerView, Option<TokenView>) {
    let (oc, m1) = read_char(m);
    match oc {
        None => eof_in_tag(m1, LexerState::SelfClosingStartTag),
        Some(c) => if c == '>' {
            finalize_tag(
                LexerView { tag: TagDataView { self_closing: true, ..m1.tag }, ..m1 },
            )
        } else {
            (
                LexerView {
                    errors: m1.errors.push(ParseError::UnexpectedSolidusInTag),
                    reconsume: Some(c),
                    state: LexerState::BeforeAttributeName,
                    ..m1
                },
                None,
            )
        },
    }
}

/// The character-reference entry state: a letter goes to the named-reference
/// extension point, `#` to the numeric one; anything else abandons the
/// reference, replays the `&` as a literal token, and resumes the state that
/// entered the sub-machine.
pub open spec fn step_character_reference(m: LexerView) -> (LexerView, Option<TokenView>) {
    let (oc, m1) = read_char(m);
    match oc {
        None => (
            LexerView { state: m1.return_state, buffer: Seq::empty(), ..m1 },
            Some(TokenView::CharacterReference('&')),
        ),
        Some(c) => if is_ascii_alpha(c) {
            (
                LexerView {
                    reconsume: Some(c),
                    state: LexerState::NamedCharacterReference,
                    ..m1
                },
                None,
            )
        } else if c == '#' {
            (
                LexerView {
                    buffer: m1.buffer.push('#'),
                    state: LexerState::NumericCharacterReference,
                    ..m1
                },
                None,
            )
        } else {
            (
                LexerView {
                    reconsume: Some(c),
                    state: m1.return_state,
                    buffer: Seq::empty(),
                    ..m1
                },
                Some(TokenView::CharacterReference('&')),
            )
        },
    }
}

/// The reserved named- and numeric-character-reference states: with no
/// reference table wired in, classification fails without consuming further
/// input and the literal-replay rule applies.
pub open spec fn step_reference_fallback(m: LexerView) -> (LexerView, Option<TokenView>) {
    (
        LexerView { state: m.return_state, buffer: Seq::empty(), ..m },
        Some(TokenView::CharacterReference('&')),
    )
}

/// The reserved markup-declaration-open and bogus-comment states: as
/// placeholders they terminate the stream.
pub open spec fn step_reserved_end(m: LexerView) -> (LexerView, Option<TokenView>) {
    (LexerView { done: true, ..m }, Some(TokenView::EndOfFile))
}

/// One transition of the machine: consume at most one character in the
/// current state, mutate the state accordingly, and perhaps produce a token.
pub open spec fn step(m: LexerView) -> (LexerView, Option<TokenView>) {
    match m.state {
        LexerState::Data => step_data(m),
        LexerState::TagOpen => step_tag_open(m),
        LexerState::EndTagOpen => step_end_tag_open(m),
        LexerState::TagName => step_tag_name(m),
        LexerState::BeforeAttributeName => step_before_attribute_name(m),
        LexerState::AttributeName => step_attribute_name(m),
        LexerState::AfterAttributeName => step_after_attribute_name(m),
        LexerState::BeforeAttributeValue => step_before_attribute_value(m),
        LexerState::AttributeValueDoubleQuoted => step_quoted_value(m, '\u{0022}'),
        LexerState::AttributeValueSingleQuoted => step_quoted_value(m, '\u{0027}'),
        LexerState::AttributeValueUnquoted => step_unquoted_value(m),
        LexerState::AfterAttributeValueQuoted => step_after_quoted_value(m),
        LexerState::SelfClosingStartTag => step_self_closing(m),
        LexerState::CharacterReference => step_character_reference(m),
        LexerState::NamedCharacterReference => step_reference_fallback(m),
        LexerState::NumericCharacterReference => step_reference_fallback(m),
        LexerState::MarkupDeclarationOpen => step_reserved_end(m),
        LexerState::BogusComment => step_reserved_end(m),
    }
}

/// The structural invariant of a reachable lexer state: the cursor is within
/// the input; the reconsume slot is empty in the states that always consume
/// their entering character, and in the states reached only by reconsuming a
/// particular kind of character it holds only such a character; the return
/// state is one of the states that may enter the character-reference
/// sub-machine.
pub open spec fn minv(m: LexerView) -> bool {
    &&& 0 <= m.pos <= m.input.len()
    &&& match m.state {
        LexerState::TagOpen
        | LexerState::EndTagOpen
        | LexerState::BeforeAttributeValue
        | LexerState::AfterAttributeValueQuoted
        | LexerState::SelfClosingStartTag
        | LexerState::CharacterReference => m.reconsume is None,
        LexerState::TagName => match m.reconsume {
            Some(c) => is_ascii_alpha(c),
            None => true,
        },
        LexerState::AttributeName => match m.reconsume {
            Some(c) => !(is_ws(c) || c == '/' || c == '>' || c == '='),
            None => true,
        },
        LexerState::AfterAttributeName => match m.reconsume {
            Some(c) => is_ws(c) || c == '/' || c == '>',
            None => true,
        },
        _ => true,
    }
    &&& match m.return_state {
        LexerState::Data
        | LexerState::AttributeValueDoubleQuoted
        | LexerState::AttributeValueSingleQuoted
        | LexerState::AttributeValueUnquoted => true,
        _ => false,
    }
}

/// A bound on the work left before the machine must produce a token: states
/// that may hand a value character on without consuming fresh input rank
/// higher than those they hand it to.
pub open spec fn rank(s: LexerState) -> int {
    match s {
        LexerState::BeforeAttributeName
        | LexerState::BeforeAttributeValue
        | LexerState::AttributeValueDoubleQuoted
        | LexerState::AttributeValueSingleQuoted
        | LexerState::AttributeValueUnquoted => 2,
        _ => 1,
    }
}

/// The termination measure of the machine: every transition that does not
/// produce a token strictly decreases it.
pub open spec fn measure(m: LexerView) -> int {
    3 * (m.input.len() - m.pos) + (if m.reconsume is Some {
        1int
    } else {
        0int
    }) + rank(m.state)
}

/// Every transition preserves the input and the structural invariant, sets
/// the terminal flag exactly when it emits the end-of-file token, and, when
/// it produces no token, strictly decreases the measure.
pub proof fn lemma_step(m: LexerView)
    requires
        minv(m),
        !m.done,
    ensures
        step(m).0.input == m.input,
        minv(step(m).0),
        step(m).1 is None ==> !step(m).0.done && 0 <= measure(step(m).0) < measure(m),
        step(m).1 == Some(TokenView::EndOfFile) ==> step(m).0.done,
{
}

/// Drive the machine until it produces a token: the result of one call to
/// `Lexer::next_token`. Once the end-of-file token has been emitted the
/// state is left untouched and the end-of-file token is produced again.
pub open spec fn run(m: LexerView) -> (LexerView, TokenView)
    decreases measure(m),
        via run_decreases
{
    if m.done || !minv(m) {
        (m, TokenView::EndOfFile)
    } else {
        let r = step(m);
        match r.1 {
            Some(t) => (r.0, t),
            None => run(r.0),
        }
    }
}

#[via_fn]
proof fn run_decreases(m: LexerView) {
    if !m.done && minv(m) {
        lemma_step(m);
    }
}

/// The machine's whole run preserves the structural invariant.
pub proof fn lemma_run_minv(m: LexerView)
    requires
        minv(m),
    ensures
        minv(run(m).0),
        run(m).0.input == m.input,
    decreases measure(m),
{
    if !m.done {
        lemma_step(m);
        let r = step(m);
        if r.1 is None {
            lemma_run_minv(r.0);
        }
    }
}

/// The initial state of the machine on a given input.
pub open spec fn init_view(input: Seq<char>) -> LexerView {
    LexerView {
        input: input,
        pos: 0,
        reconsume: None,
        state: LexerState::Data,
        return_state: LexerState::Data,
        buffer: Seq::empty(),
        tag: TagDataView::empty(),
        attr_name: Seq::empty(),
        attr_value: Seq::empty(),
        errors: Seq::empty(),
        lt_replayed: false,
        done: false,
    }
}

} // verus!
