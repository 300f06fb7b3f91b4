//! The executable lexer.
//!
//! `Lexer` owns the input text and the state of the tokenizer. Its public
//! `next_token` drives the state machine of [`crate::html::machine`] until
//! exactly one token is ready, and is proved to return exactly what the
//! mathematical machine prescribes: `next_token` returns `run(self@).1` and
//! leaves the lexer in state `run(self@).0`. Parse errors are collected in
//! order rather than delivered through a callback; `errors` exposes them.
use vstd::prelude::*;

use crate::html::machine::{
    attr_name_present, commit_pending, finalize_tag, init_view, is_ascii_alpha, is_ws,
    lemma_run_minv, lemma_step, lower_char, measure, minv, read_char, run, step,
    step_after_attribute_name, step_after_quoted_value, step_attribute_name,
    step_before_attribute_name, step_before_attribute_value, step_character_reference, step_data,
    step_end_tag_open, step_quoted_value, step_reference_fallback, step_reserved_end,
    step_self_closing, step_tag_name, step_tag_open, step_unquoted_value, LexerState, LexerView,
    ParseError,
};
use crate::html::tokens::{attr_views, token_views, TagAttr, TagData, Token, TokenView};

verus! {

/// The view of an optional token.
spec fn opt_token_view(ot: Option<Token>) -> Option<TokenView> {
    match ot {
        Some(t) => Some(t@),
        None => None,
    }
}

/// The tokenizer: input text, cursor, one-slot reconsume buffer, current and
/// return states, the builders for the token under construction, the
/// character-reference scratch buffer, the parse errors reported so far, and
/// the tokens emitted so far.
pub struct Lexer {
    input: Vec<char>,
    pos: usize,
    reconsume: Option<char>,
    state: LexerState,
    return_state: LexerState,
    buffer: Vec<char>,
    tag: TagData,
    attr_name: Vec<char>,
    attr_value: Vec<char>,
    errors: Vec<ParseError>,
    elements: Vec<Token>,
    lt_replayed: bool,
    done: bool,
}

impl View for Lexer {
    type V = LexerView;

    closed spec fn view(&self) -> LexerView {
        LexerView {
            input: self.input@,
            pos: self.pos as int,
            reconsume: self.reconsume,
            state: self.state,
            return_state: self.return_state,
            buffer: self.buffer@,
            tag: self.tag@,
            attr_name: self.attr_name@,
            attr_value: self.attr_value@,
            errors: self.errors@,
            lt_replayed: self.lt_replayed,
            done: self.done,
        }
    }
}

/// Whitespace test matching [`is_ws`].
fn is_ws_char(c: char) -> (r: bool)
    ensures
        r == is_ws(c),
{
    c == '\u{0009}' || c == '\u{000A}' || c == '\u{000C}' || c == ' '
}

/// ASCII-letter test matching [`is_ascii_alpha`].
fn is_alpha_char(c: char) -> (r: bool)
    ensures
        r == is_ascii_alpha(c),
{
    (c >= 'a' && c <= 'z') || (c >= 'A' && c <= 'Z')
}

/// ASCII lowercasing matching [`lower_char`].
fn lower(c: char) -> (r: char)
    ensures
        r == lower_char(c),
{
    if c >= 'A' && c <= 'Z' {
        let b = c as u8;
        (b + 32) as char
    } else {
        c
    }
}

/// A fresh vector with the same characters.
fn copy_chars(v: &Vec<char>) -> (r: Vec<char>)
    ensures
        r@ == v@,
{
    let mut r: Vec<char> = Vec::new();
    let mut i: usize = 0;
    while i < v.len()
        invariant
            i <= v.len(),
            r@ == v@.subrange(0, i as int),
        decreases v.len() - i,
    {
        r.push(v[i]);
        proof {
            assert(r@ =~= v@.subrange(0, i + 1));
        }
        i = i + 1;
    }
    proof {
        assert(r@ =~= v@);
    }
    r
}

/// A fresh attribute list with the same names and values.
fn copy_attrs(v: &Vec<TagAttr>) -> (r: Vec<TagAttr>)
    ensures
        attr_views(r@) == attr_views(v@),
{
    let mut r: Vec<TagAttr> = Vec::new();
    let mut i: usize = 0;
    while i < v.len()
        invariant
            i <= v.len(),
            r@.len() == i,
            forall|j: int| 0 <= j < i ==> r@[j]@ == v@[j]@,
        decreases v.len() - i,
    {
        let a = TagAttr { name: copy_chars(&v[i].name), value: copy_chars(&v[i].value) };
        proof {
            assert(a@ =~= v@[i as int]@);
        }
        r.push(a);
        i = i + 1;
    }
    proof {
        assert(attr_views(r@) =~= attr_views(v@));
    }
    r
}

/// A fresh tag with the same view.
fn copy_tag(t: &TagData) -> (r: TagData)
    ensures
        r@ == t@,
{
    let r = TagData {
        tag_name: copy_chars(&t.tag_name),
        self_closing: t.self_closing,
        attributes: copy_attrs(&t.attributes),
    };
    proof {
        assert(r@ =~= t@);
    }
    r
}

/// A fresh token with the same view.
fn copy_token(t: &Token) -> (r: Token)
    ensures
        r@ == t@,
{
    match t {
        Token::Character(c) => Token::Character(*c),
        Token::CharacterReference(c) => Token::CharacterReference(*c),
        Token::Comment(s) => Token::Comment(copy_chars(s)),
        Token::Tag(d) => Token::Tag(copy_tag(d)),
        Token::EndOfFile => Token::EndOfFile,
    }
}

/// Character-for-character equality of two buffers.
fn chars_eq(a: &Vec<char>, b: &Vec<char>) -> (r: bool)
    ensures
        r == (a@ == b@),
{
    if a.len() != b.len() {
        return false;
    }
    let mut i: usize = 0;
    while i < a.len()
        invariant
            i <= a.len(),
            a.len() == b.len(),
            forall|j: int| 0 <= j < i ==> a@[j] == b@[j],
        decreases a.len() - i,
    {
        if a[i] != b[i] {
            return false;
        }
        i = i + 1;
    }
    proof {
        assert(a@ =~= b@);
    }
    true
}

/// Whether the attribute list already holds an attribute of this name.
fn has_attr(attrs: &Vec<TagAttr>, name: &Vec<char>) -> (r: bool)
    ensures
        r == attr_name_present(attr_views(attrs@), name@),
{
    let mut i: usize = 0;
    while i < attrs.len()
        invariant
            i <= attrs.len(),
            forall|j: int| 0 <= j < i ==> attr_views(attrs@)[j].name != name@,
        decreases attrs.len() - i,
    {
        if chars_eq(&attrs[i].name, name) {
            proof {
                assert(attr_views(attrs@)[i as int].name == name@);
            }
            return true;
        }
        i = i + 1;
    }
    false
}

impl Lexer {
    /// The tokens emitted so far, most recent last.
    pub closed spec fn tokens(&self) -> Seq<TokenView> {
        token_views(self.elements@)
    }

    /// The lexer's state is structurally sound; `new` establishes this and
    /// every operation preserves it.
    pub open spec fn wf(&self) -> bool {
        minv(self@)
    }

    /// A lexer over the given input, in the data state, with nothing
    /// consumed, no errors and no tokens emitted.
    pub fn new(input: String) -> (l: Lexer)
        ensures
            l@ == init_view(input@),
            l.tokens() == Seq::<TokenView>::empty(),
            l.wf(),
    {
        let n = input.as_str().unicode_len();
        let mut chars: Vec<char> = Vec::new();
        let mut i: usize = 0;
        while i < n
            invariant
                i <= n,
                n == input@.len(),
                chars@ == input@.subrange(0, i as int),
            decreases n - i,
        {
            let c = input.as_str().get_char(i);
            chars.push(c);
            proof {
                assert(chars@ =~= input@.subrange(0, i + 1));
            }
            i = i + 1;
        }
        proof {
            assert(chars@ =~= input@);
        }
        let l = Lexer {
            input: chars,
            pos: 0,
            reconsume: None,
            state: LexerState::Data,
            return_state: LexerState::Data,
            buffer: Vec::new(),
            tag: TagData::new(),
            attr_name: Vec::new(),
            attr_value: Vec::new(),
            errors: Vec::new(),
            elements: Vec::new(),
            lt_replayed: false,
            done: false,
        };
        proof {
            assert(l@ =~~= init_view(input@));
            assert(l.tokens() =~= Seq::<TokenView>::empty());
        }
        l
    }

    /// The parse errors reported so far, in order.
    pub fn errors(&self) -> (e: &Vec<ParseError>)
        ensures
            e@ == self@.errors,
    {
        &self.errors
    }

    /// The most recently emitted token, or the end-of-file token if none has
    /// been emitted yet.
    pub fn get_top_token(self) -> (t: Token)
        ensures
            t@ == if self.tokens().len() == 0 {
                TokenView::EndOfFile
            } else {
                self.tokens().last()
            },
    {
        let mut elements = self.elements;
        match elements.pop() {
            Some(t) => t,
            None => Token::EndOfFile,
        }
    }

    /// Consume one character: the reconsume slot if it is occupied,
    /// otherwise the next input character; none at end of input.
    pub fn next_character(&mut self) -> (c: Option<char>)
        ensures
            c == read_char(old(self)@).0,
            final(self)@ == read_char(old(self)@).1,
            final(self).tokens() == old(self).tokens(),
    {
        match self.reconsume {
            Some(c) => {
                self.reconsume = None;
                Some(c)
            },
            None => {
                if self.pos < self.input.len() {
                    let c = self.input[self.pos];
                    self.pos = self.pos + 1;
                    Some(c)
                } else {
                    None
                }
            },
        }
    }

    /// Commit the attribute under construction into the tag, first value
    /// wins, as [`commit_pending`] prescribes.
    fn commit_attribute(&mut self)
        ensures
            final(self)@ == commit_pending(old(self)@),
            final(self).elements@ == old(self).elements@,
    {
        if self.attr_name.len() == 0 {
            self.attr_value = Vec::new();
            proof {
                assert(self@ =~~= commit_pending(old(self)@));
            }
        } else if has_attr(&self.tag.attributes, &self.attr_name) {
            self.errors.push(ParseError::DuplicateAttribute);
            self.attr_name = Vec::new();
            self.attr_value = Vec::new();
            proof {
                assert(self@ =~~= commit_pending(old(self)@));
            }
        } else {
            let mut name: Vec<char> = Vec::new();
            core::mem::swap(&mut name, &mut self.attr_name);
            let mut value: Vec<char> = Vec::new();
            core::mem::swap(&mut value, &mut self.attr_value);
            self.tag.attributes.push(TagAttr { name, value });
            proof {
                assert(attr_views(self.tag.attributes@) =~= commit_pending(old(self)@).tag.attributes);
                assert(self@ =~~= commit_pending(old(self)@));
            }
        }
    }

    /// Emit the tag under construction, as [`finalize_tag`] prescribes.
    fn finish_tag(&mut self) -> (t: Token)
        ensures
            final(self)@ == finalize_tag(old(self)@).0,
            Some(t@) == finalize_tag(old(self)@).1,
            final(self).elements@ == old(self).elements@,
    {
        let mut tag = TagData::new();
        core::mem::swap(&mut tag, &mut self.tag);
        self.state = LexerState::Data;
        self.attr_name = Vec::new();
        self.attr_value = Vec::new();
        proof {
            assert(self@ =~~= finalize_tag(old(self)@).0);
        }
        Token::Tag(tag)
    }

    /// One transition in the data state.
    fn on_data(&mut self) -> (ot: Option<Token>)
        ensures
            final(self)@ == step_data(old(self)@).0,
            opt_token_view(ot) == step_data(old(self)@).1,
            final(self).tokens() == old(self).tokens(),
    {
        match self.next_character() {
            None => {
                self.done = true;
                Some(Token::EndOfFile)
            },
            Some(c) => {
                if c == '&' {
                    self.return_state = LexerState::Data;
                    let mut b: Vec<char> = Vec::new();
                    b.push('&');
                    self.buffer = b;
                    self.state = LexerState::CharacterReference;
                    None
                } else if c == '<' {
                    self.state = LexerState::TagOpen;
                    None
                } else if c == '\u{0000}' {
                    self.errors.push(ParseError::UnexpectedNullCharacter);
                    Some(Token::Character('\u{FFFD}'))
                } else {
                    Some(Token::Character(c))
                }
            },
        }
    }

    /// One transition in the tag-open state.
    fn on_tag_open(&mut self) -> (ot: Option<Token>)
        ensures
            final(self)@ == step_tag_open(old(self)@).0,
            opt_token_view(ot) == step_tag_open(old(self)@).1,
            final(self).tokens() == old(self).tokens(),
    {
        match self.next_character() {
            None => {
                self.state = LexerState::Data;
                self.errors.push(ParseError::EofBeforeTagName);
                Some(Token::Character('>'))
            },
            Some(c) => {
                if is_alpha_char(c) {
                    self.reconsume = Some(c);
                    self.state = LexerState::TagName;
                    self.tag = TagData::new();
                    self.attr_name = Vec::new();
                    self.attr_value = Vec::new();
                    None
                } else if c == '!' {
                    self.state = LexerState::MarkupDeclarationOpen;
                    None
                } else if c == '/' {
                    self.state = LexerState::EndTagOpen;
                    None
                } else if c == '?' {
                    self.errors.push(ParseError::UnexpectedQuestionMarkInsteadOfTagName);
                    self.reconsume = Some('?');
                    self.state = LexerState::BogusComment;
                    Some(Token::Comment(Vec::new()))
                } else {
                    self.errors.push(ParseError::InvalidFirstCharacterOfTagName);
                    self.reconsume = Some(c);
                    self.state = LexerState::Data;
                    Some(Token::Character('>'))
                }
            },
        }
    }

    /// One transition in the end-tag-open state.
    fn on_end_tag_open(&mut self) -> (ot: Option<Token>)
        ensures
            final(self)@ == step_end_tag_open(old(self)@).0,
            opt_token_view(ot) == step_end_tag_open(old(self)@).1,
            final(self).tokens() == old(self).tokens(),
    {
        match self.next_character() {
            None => {
                if !self.lt_replayed {
                    self.errors.push(ParseError::EofBeforeTagName);
                    self.lt_replayed = true;
                    Some(Token::Character('<'))
                } else {
                    self.state = LexerState::Data;
                    Some(Token::Character('/'))
                }
            },
            Some(c) => {
                if is_alpha_char(c) {
                    self.reconsume = Some(c);
                    self.state = LexerState::TagName;
                    self.tag = TagData::new();
                    self.attr_name = Vec::new();
                    self.attr_value = Vec::new();
                    None
                } else if c == '>' {
                    self.errors.push(ParseError::MissingEndTagName);
                    self.state = LexerState::TagName;
                    self.tag = TagData::new();
                    self.attr_name = Vec::new();
                    self.attr_value = Vec::new();
                    None
                } else {
                    self.errors.push(ParseError::InvalidFirstCharacterOfTagName);
                    self.state = LexerState::BogusComment;
                    None
                }
            },
        }
    }

    /// One transition in the tag-name state.
    fn on_tag_name(&mut self) -> (ot: Option<Token>)
        ensures
            final(self)@ == step_tag_name(old(self)@).0,
            opt_token_view(ot) == step_tag_name(old(self)@).1,
            final(self).tokens() == old(self).tokens(),
    {
        match self.next_character() {
            None => {
                self.state = LexerState::TagName;
                self.errors.push(ParseError::EofInTag);
                self.done = true;
                Some(Token::EndOfFile)
            },
            Some(c) => {
                if is_ws_char(c) {
                    self.state = LexerState::BeforeAttributeName;
                    None
                } else if c == '/' {
                    self.state = LexerState::SelfClosingStartTag;
                    None
                } else if c == '>' {
                    Some(self.finish_tag())
                } else if c == '\u{0000}' {
                    self.errors.push(ParseError::UnexpectedNullCharacter);
                    self.tag.tag_name.push('\u{FFFD}');
                    None
                } else {
                    let lc = lower(c);
                    self.tag.tag_name.push(lc);
                    None
                }
            },
        }
    }

    /// One transition in the before-attribute-name state.
    fn on_before_attribute_name(&mut self) -> (ot: Option<Token>)
        ensures
            final(self)@ == step_before_attribute_name(old(self)@).0,
            opt_token_view(ot) == step_before_attribute_name(old(self)@).1,
            final(self).tokens() == old(self).tokens(),
    {
        match self.next_character() {
            None => {
                self.state = LexerState::AfterAttributeName;
                self.attr_name = Vec::new();
                self.attr_value = Vec::new();
                self.errors.push(ParseError::EofInTag);
                self.done = true;
                Some(Token::EndOfFile)
            },
            Some(c) => {
                if is_ws_char(c) {
                    None
                } else if c == '/' || c == '>' {
                    self.reconsume = Some(c);
                    self.state = LexerState::AfterAttributeName;
                    self.attr_name = Vec::new();
                    self.attr_value = Vec::new();
                    None
                } else if c == '=' {
                    self.errors.push(ParseError::UnexpectedEqualsSignBeforeAttributeName);
                    let mut n: Vec<char> = Vec::new();
                    n.push('=');
                    self.attr_name = n;
                    self.attr_value = Vec::new();
                    self.state = LexerState::AttributeName;
                    None
                } else {
                    self.reconsume = Some(c);
                    self.attr_name = Vec::new();
                    self.attr_value = Vec::new();
                    self.state = LexerState::AttributeName;
                    None
                }
            },
        }
    }

    /// One transition in the attribute-name state.
    fn on_attribute_name(&mut self) -> (ot: Option<Token>)
        ensures
            final(self)@ == step_attribute_name(old(self)@).0,
            opt_token_view(ot) == step_attribute_name(old(self)@).1,
            final(self).tokens() == old(self).tokens(),
    {
        match self.next_character() {
            None => {
                self.state = LexerState::AfterAttributeName;
                self.errors.push(ParseError::EofInTag);
                self.done = true;
                Some(Token::EndOfFile)
            },
            Some(c) => {
                if is_ws_char(c) || c == '/' || c == '>' {
                    self.reconsume = Some(c);
                    self.state = LexerState::AfterAttributeName;
                    None
                } else if c == '=' {
                    self.state = LexerState::BeforeAttributeValue;
                    None
                } else if c == '\u{0000}' {
                    self.errors.push(ParseError::UnexpectedNullCharacter);
                    self.attr_name.push('\u{FFFD}');
                    None
                } else if c == '\u{0022}' || c == '\u{0027}' || c == '<' {
                    self.errors.push(ParseError::UnexpectedCharacterInAttributeName);
                    self.attr_name.push(c);
                    None
                } else {
                    let lc = lower(c);
                    self.attr_name.push(lc);
                    None
                }
            },
        }
    }

    /// One transition in the after-attribute-name state.
    fn on_after_attribute_name(&mut self) -> (ot: Option<Token>)
        ensures
            final(self)@ == step_after_attribute_name(old(self)@).0,
            opt_token_view(ot) == step_after_attribute_name(old(self)@).1,
            final(self).tokens() == old(self).tokens(),
    {
        match self.next_character() {
            None => {
                self.state = LexerState::AfterAttributeName;
                self.errors.push(ParseError::EofInTag);
                self.done = true;
                Some(Token::EndOfFile)
            },
            Some(c) => {
                if is_ws_char(c) {
                    None
                } else if c == '/' {
                    self.commit_attribute();
                    self.state = LexerState::SelfClosingStartTag;
                    None
                } else if c == '=' {
                    self.state = LexerState::BeforeAttributeValue;
                    None
                } else if c == '>' {
                    self.commit_attribute();
                    Some(self.finish_tag())
                } else {
                    self.commit_attribute();
                    self.reconsume = Some(c);
                    self.state = LexerState::AttributeName;
                    None
                }
            },
        }
    }

    /// One transition in the before-attribute-value state.
    fn on_before_attribute_value(&mut self) -> (ot: Option<Token>)
        ensures
            final(self)@ == step_before_attribute_value(old(self)@).0,
            opt_token_view(ot) == step_before_attribute_value(old(self)@).1,
            final(self).tokens() == old(self).tokens(),
    {
        match self.next_character() {
            None => {
                self.state = LexerState::AttributeValueUnquoted;
                self.errors.push(ParseError::EofInTag);
                self.done = true;
                Some(Token::EndOfFile)
            },
            Some(c) => {
                if is_ws_char(c) {
                    None
                } else if c == '\u{0022}' {
                    self.state = LexerState::AttributeValueDoubleQuoted;
                    None
                } else if c == '\u{0027}' {
                    self.state = LexerState::AttributeValueSingleQuoted;
                    None
                } else if c == '>' {
                    self.errors.push(ParseError::MissingAttributeValue);
                    self.commit_attribute();
                    Some(self.finish_tag())
                } else {
                    self.reconsume = Some(c);
                    self.state = LexerState::AttributeValueUnquoted;
                    None
                }
            },
        }
    }

    /// One transition in a quoted attribute-value state; `quote` is the
    /// closing quote character of the state.
    fn on_quoted_value(&mut self, quote: char) -> (ot: Option<Token>)
        ensures
            final(self)@ == step_quoted_value(old(self)@, quote).0,
            opt_token_view(ot) == step_quoted_value(old(self)@, quote).1,
            final(self).tokens() == old(self).tokens(),
    {
        match self.next_character() {
            None => {
                self.errors.push(ParseError::EofInTag);
                self.done = true;
                Some(Token::EndOfFile)
            },
            Some(c) => {
                if c == quote {
                    self.commit_attribute();
                    self.state = LexerState::AfterAttributeValueQuoted;
                    None
                } else if c == '&' {
                    self.return_state = self.state;
                    let mut b: Vec<char> = Vec::new();
                    b.push('&');
                    self.buffer = b;
                    self.state = LexerState::CharacterReference;
                    None
                } else if c == '\u{0000}' {
                    self.errors.push(ParseError::UnexpectedNullCharacter);
                    self.attr_value.push('\u{FFFD}');
                    None
                } else {
                    self.attr_value.push(c);
                    None
                }
            },
        }
    }

    /// One transition in the unquoted attribute-value state.
    fn on_unquoted_value(&mut self) -> (ot: Option<Token>)
        ensures
            final(self)@ == step_unquoted_value(old(self)@).0,
            opt_token_view(ot) == step_unquoted_value(old(self)@).1,
            final(self).tokens() == old(self).tokens(),
    {
        match self.next_character() {
            None => {
                self.state = LexerState::AttributeValueUnquoted;
                self.errors.push(ParseError::EofInTag);
                self.done = true;
                Some(Token::EndOfFile)
            },
            Some(c) => {
                if is_ws_char(c) {
                    self.commit_attribute();
                    self.state = LexerState::BeforeAttributeName;
                    None
                } else if c == '&' {
                    self.return_state = LexerState::AttributeValueUnquoted;
                    let mut b: Vec<char> = Vec::new();
                    b.push('&');
                    self.buffer = b;
                    self.state = LexerState::CharacterReference;
                    None
                } else if c == '>' {
                    self.commit_attribute();
                    Some(self.finish_tag())
                } else if c == '\u{0000}' {
                    self.errors.push(ParseError::UnexpectedNullCharacter);
                    self.attr_value.push('\u{FFFD}');
                    None
                } else if c == '\u{0022}' || c == '\u{0027}' || c == '<' || c == '='
                    || c == '\u{0060}' {
                    self.errors.push(ParseError::UnexpectedCharacterInUnquotedAttributeValue);
                    self.attr_value.push(c);
                    None
                } else {
                    self.attr_value.push(c);
                    None
                }
            },
        }
    }

    /// One transition in the after-attribute-value-quoted state.
    fn on_after_quoted_value(&mut self) -> (ot: Option<Token>)
        ensures
            final(self)@ == step_after_quoted_value(old(self)@).0,
            opt_token_view(ot) == step_after_quoted_value(old(self)@).1,
            final(self).tokens() == old(self).tokens(),
    {
        match self.next_character() {
            None => {
                self.state = LexerState::AfterAttributeValueQuoted;
                self.errors.push(ParseError::EofInTag);
                self.done = true;
                Some(Token::EndOfFile)
            },
            Some(c) => {
                if is_ws_char(c) {
                    self.state = LexerState::BeforeAttributeName;
                    None
                } else if c == '/' {
                    self.state = LexerState::SelfClosingStartTag;
                    None
                } else {
                    self.errors.push(ParseError::MissingWhitespaceBetweenAttributes);
                    self.reconsume = Some(c);
                    self.state = LexerState::BeforeAttributeName;
                    None
                }
            },
        }
    }

    /// One transition in the self-closing-start-tag state.
    fn on_self_closing(&mut self) -> (ot: Option<Token>)
        ensures
            final(self)@ == step_self_closing(old(self)@).0,
            opt_token_view(ot) == step_self_closing(old(self)@).1,
            final(self).tokens() == old(self).tokens(),
    {
        match self.next_character() {
            None => {
                self.state = LexerState::SelfClosingStartTag;
                self.errors.push(ParseError::EofInTag);
                self.done = true;
                Some(Token::EndOfFile)
            },
            Some(c) => {
                if c == '>' {
                    self.tag.self_closing = true;
                    Some(self.finish_tag())
                } else {
                    self.errors.push(ParseError::UnexpectedSolidusInTag);
                    self.reconsume = Some(c);
                    self.state = LexerState::BeforeAttributeName;
                    None
                }
            },
        }
    }

    /// One transition in the character-reference entry state.
    fn on_character_reference(&mut self) -> (ot: Option<Token>)
        ensures
            final(self)@ == step_character_reference(old(self)@).0,
            opt_token_view(ot) == step_character_reference(old(self)@).1,
            final(self).tokens() == old(self).tokens(),
    {
        match self.next_character() {
            None => {
                self.state = self.return_state;
                self.buffer = Vec::new();
                Some(Token::CharacterReference('&'))
            },
            Some(c) => {
                if is_alpha_char(c) {
                    self.reconsume = Some(c);
                    self.state = LexerState::NamedCharacterReference;
                    None
                } else if c == '#' {
                    self.buffer.push('#');
                    self.state = LexerState::NumericCharacterReference;
                    None
                } else {
                    self.reconsume = Some(c);
                    self.state = self.return_state;
                    self.buffer = Vec::new();
                    Some(Token::CharacterReference('&'))
                }
            },
        }
    }

    /// The reserved named- and numeric-character-reference states: the
    /// literal-replay fallback.
    fn on_reference_fallback(&mut self) -> (ot: Option<Token>)
        ensures
            final(self)@ == step_reference_fallback(old(self)@).0,
            opt_token_view(ot) == step_reference_fallback(old(self)@).1,
            final(self).tokens() == old(self).tokens(),
    {
        self.state = self.return_state;
        self.buffer = Vec::new();
        Some(Token::CharacterReference('&'))
    }

    /// The reserved markup-declaration-open and bogus-comment states: the
    /// placeholder terminates the stream.
    fn on_reserved_end(&mut self) -> (ot: Option<Token>)
        ensures
            final(self)@ == step_reserved_end(old(self)@).0,
            opt_token_view(ot) == step_reserved_end(old(self)@).1,
            final(self).tokens() == old(self).tokens(),
    {
        self.done = true;
        Some(Token::EndOfFile)
    }

    /// One transition of the machine in the current state.
    fn step_once(&mut self) -> (ot: Option<Token>)
        ensures
            final(self)@ == step(old(self)@).0,
            opt_token_view(ot) == step(old(self)@).1,
            final(self).tokens() == old(self).tokens(),
    {
        match self.state {
            LexerState::Data => self.on_data(),
            LexerState::TagOpen => self.on_tag_open(),
            LexerState::EndTagOpen => self.on_end_tag_open(),
            LexerState::TagName => self.on_tag_name(),
            LexerState::BeforeAttributeName => self.on_before_attribute_name(),
            LexerState::AttributeName => self.on_attribute_name(),
            LexerState::AfterAttributeName => self.on_after_attribute_name(),
            LexerState::BeforeAttributeValue => self.on_before_attribute_value(),
            LexerState::AttributeValueDoubleQuoted => self.on_quoted_value('\u{0022}'),
            LexerState::AttributeValueSingleQuoted => self.on_quoted_value('\u{0027}'),
            LexerState::AttributeValueUnquoted => self.on_unquoted_value(),
            LexerState::AfterAttributeValueQuoted => self.on_after_quoted_value(),
            LexerState::SelfClosingStartTag => self.on_self_closing(),
            LexerState::CharacterReference => self.on_character_reference(),
            LexerState::NamedCharacterReference => self.on_reference_fallback(),
            LexerState::NumericCharacterReference => self.on_reference_fallback(),
            LexerState::MarkupDeclarationOpen => self.on_reserved_end(),
            LexerState::BogusComment => self.on_reserved_end(),
        }
    }

    /// Pull one token: drive the state machine until exactly one token is
    /// ready, record it, and return it. The call returns exactly what the
    /// mathematical machine prescribes, `run(self@)`; in particular, once
    /// the end-of-file token has been emitted, every later call emits it
    /// again without consulting the exhausted input.
    #[verifier::loop_isolation(false)]
    pub fn next_token(&mut self) -> (t: Token)
        requires
            old(self).wf(),
        ensures
            final(self)@ == run(old(self)@).0,
            t@ == run(old(self)@).1,
            final(self).wf(),
            final(self).tokens() == old(self).tokens().push(t@),
    {
        if self.done {
            let t = Token::EndOfFile;
            self.elements.push(Token::EndOfFile);
            proof {
                assert(self.tokens() =~= old(self).tokens().push(t@));
            }
            return t;
        }
        loop
            invariant
                minv(self@),
                !self@.done,
                run(self@) == run(old(self)@),
                self.tokens() == old(self).tokens(),
            decreases measure(self@),
        {
            let ghost pre = self@;
            let ot = self.step_once();
            proof {
                lemma_step(pre);
            }
            match ot {
                Some(t) => {
                    let c = copy_token(&t);
                    self.elements.push(c);
                    proof {
                        lemma_run_minv(old(self)@);
                        assert(self.tokens() =~= old(self).tokens().push(t@));
                    }
                    return t;
                },
                None => {},
            }
        }
    }
}

} // verus!
