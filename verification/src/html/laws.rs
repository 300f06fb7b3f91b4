//! Laws of the tokenizer, proved once and for all over the state machine.
//!
//! `Lexer::next_token` is proved to return exactly `run(self@)`, so each law
//! stated here about `run` holds of every token the running lexer emits.
use vstd::prelude::*;

use crate::html::machine::{
    attr_name_present, commit_pending, lemma_step, measure, minv, read_char, run, step,
    LexerState, LexerView, ParseError,
};
use crate::html::tokens::{TagAttrView, TagDataView, TokenView};

verus! {

/// The sequence holds no raw NUL character.
pub open spec fn no_raw_nul(s: Seq<char>) -> bool {
    forall|i: int| 0 <= i < s.len() ==> s[i] != '\u{0000}'
}

/// The sequence holds no uppercase ASCII letter: its ASCII content is
/// entirely lowercase-normalized.
pub open spec fn lowercase_ok(s: Seq<char>) -> bool {
    forall|i: int| 0 <= i < s.len() ==> !('A' <= s[i] && s[i] <= 'Z')
}

/// The form every committed attribute takes: a nonempty, NUL-free,
/// lowercase-normalized name and a NUL-free value.
pub open spec fn attr_ok(a: TagAttrView) -> bool {
    a.name.len() > 0 && no_raw_nul(a.name) && lowercase_ok(a.name) && no_raw_nul(a.value)
}

/// Every attribute is well formed and no name occurs twice.
pub open spec fn attrs_ok(attrs: Seq<TagAttrView>) -> bool {
    &&& forall|i: int| 0 <= i < attrs.len() ==> attr_ok(#[trigger] attrs[i])
    &&& forall|i: int, j: int|
        0 <= i < j < attrs.len() ==> #[trigger] attrs[i].name != #[trigger] attrs[j].name
}

/// The form every emitted tag takes.
pub open spec fn tag_ok(t: TagDataView) -> bool {
    no_raw_nul(t.tag_name) && lowercase_ok(t.tag_name) && attrs_ok(t.attributes)
}

/// What holds of every emitted token: text and reference characters are
/// never the raw NUL, comment bodies are NUL-free, and tags are well formed.
pub open spec fn token_ok(t: TokenView) -> bool {
    match t {
        TokenView::Character(c) => c != '\u{0000}',
        TokenView::CharacterReference(c) => c != '\u{0000}',
        TokenView::Comment(s) => no_raw_nul(s),
        TokenView::Tag(td) => tag_ok(td),
        TokenView::EndOfFile => true,
    }
}

/// The token-under-construction buffers are as clean as what they are built
/// into: the machine establishes this at the start and preserves it forever.
pub open spec fn builders_ok(m: LexerView) -> bool {
    &&& tag_ok(m.tag)
    &&& no_raw_nul(m.attr_name)
    &&& lowercase_ok(m.attr_name)
    &&& no_raw_nul(m.attr_value)
}

/// Committing the pending attribute preserves clean builders.
proof fn lemma_commit_ok(m: LexerView)
    requires
        builders_ok(m),
    ensures
        builders_ok(commit_pending(m)),
{
    if m.attr_name.len() > 0 && !attr_name_present(m.tag.attributes, m.attr_name) {
        let a = TagAttrView { name: m.attr_name, value: m.attr_value };
        let new_attrs = m.tag.attributes.push(a);
        assert forall|i: int| 0 <= i < new_attrs.len() implies attr_ok(#[trigger] new_attrs[i]) by {
            if i < m.tag.attributes.len() {
                assert(new_attrs[i] == m.tag.attributes[i]);
            } else {
                assert(new_attrs[i] == a);
            }
        }
        assert forall|i: int, j: int| 0 <= i < j < new_attrs.len() implies #[trigger] new_attrs[i].name
            != #[trigger] new_attrs[j].name by {
            if j < m.tag.attributes.len() {
                assert(new_attrs[i] == m.tag.attributes[i]);
                assert(new_attrs[j] == m.tag.attributes[j]);
            } else {
                assert(new_attrs[i] == m.tag.attributes[i]);
                assert(new_attrs[j] == a);
                assert(!attr_name_present(m.tag.attributes, m.attr_name));
                assert(m.tag.attributes[i].name != m.attr_name);
            }
        }
    }
}

/// One transition preserves clean builders and emits only well-formed
/// tokens.
proof fn lemma_step_ok(m: LexerView)
    requires
        builders_ok(m),
        !m.done,
    ensures
        builders_ok(step(m).0),
        (match step(m).1 {
            Some(t) => token_ok(t),
            None => true,
        }),
{
    let (oc, m1) = read_char(m);
    match m.state {
        LexerState::Data => {},
        LexerState::TagOpen => {},
        LexerState::EndTagOpen => {},
        LexerState::TagName => {
            match oc {
                Some(c) => {
                    if !(is_ws_spec(c) || c == '/' || c == '>' || c == '\u{0000}') {
                        lemma_lower_char_ok(c);
                        assert(no_raw_nul(m1.tag.tag_name.push(lower_char_of(c))));
                        assert(lowercase_ok(m1.tag.tag_name.push(lower_char_of(c))));
                    } else if c == '\u{0000}' {
                        assert(no_raw_nul(m1.tag.tag_name.push('\u{FFFD}')));
                        assert(lowercase_ok(m1.tag.tag_name.push('\u{FFFD}')));
                    }
                },
                None => {},
            }
        },
        LexerState::BeforeAttributeName => {
            match oc {
                Some(c) => {
                    if c == '=' {
                        assert(no_raw_nul(seq!['=']));
                        assert(lowercase_ok(seq!['=']));
                    }
                },
                None => {},
            }
        },
        LexerState::AttributeName => {
            match oc {
                Some(c) => {
                    if is_ws_spec(c) || c == '/' || c == '>' || c == '=' {
                    } else if c == '\u{0000}' {
                        assert(no_raw_nul(m1.attr_name.push('\u{FFFD}')));
                        assert(lowercase_ok(m1.attr_name.push('\u{FFFD}')));
                    } else if c == '\u{0022}' || c == '\u{0027}' || c == '<' {
                        assert(no_raw_nul(m1.attr_name.push(c)));
                        assert(lowercase_ok(m1.attr_name.push(c)));
                    } else {
                        lemma_lower_char_ok(c);
                        assert(no_raw_nul(m1.attr_name.push(lower_char_of(c))));
                        assert(lowercase_ok(m1.attr_name.push(lower_char_of(c))));
                    }
                },
                None => {},
            }
        },
        LexerState::AfterAttributeName => {
            lemma_commit_ok(m1);
        },
        LexerState::BeforeAttributeValue => {
            match oc {
                Some(c) => {
                    if c == '>' {
                        lemma_commit_ok(
                            LexerView {
                                errors: m1.errors.push(ParseError::MissingAttributeValue),
                                ..m1
                            },
                        );
                    }
                },
                None => {},
            }
        },
        LexerState::AttributeValueDoubleQuoted => {
            lemma_step_ok_quoted(m, '\u{0022}');
        },
        LexerState::AttributeValueSingleQuoted => {
            lemma_step_ok_quoted(m, '\u{0027}');
        },
        LexerState::AttributeValueUnquoted => {
            match oc {
                Some(c) => {
                    if is_ws_spec(c) || c == '>' {
                        lemma_commit_ok(m1);
                    } else if c == '\u{0000}' {
                        assert(no_raw_nul(m1.attr_value.push('\u{FFFD}')));
                    } else if c != '&' {
                        assert(no_raw_nul(m1.attr_value.push(c)));
                    }
                },
                None => {},
            }
        },
        LexerState::AfterAttributeValueQuoted => {},
        LexerState::SelfClosingStartTag => {},
        LexerState::CharacterReference => {},
        LexerState::NamedCharacterReference => {},
        LexerState::NumericCharacterReference => {},
        LexerState::MarkupDeclarationOpen => {},
        LexerState::BogusComment => {},
    }
}

/// The quoted-value cases of [`lemma_step_ok`].
proof fn lemma_step_ok_quoted(m: LexerView, quote: char)
    requires
        builders_ok(m),
        !m.done,
    ensures
        builders_ok(crate::html::machine::step_quoted_value(m, quote).0),
        (match crate::html::machine::step_quoted_value(m, quote).1 {
            Some(t) => token_ok(t),
            None => true,
        }),
{
    let (oc, m1) = read_char(m);
    match oc {
        Some(c) => {
            if c == quote {
                lemma_commit_ok(m1);
            } else if c == '\u{0000}' {
                assert(no_raw_nul(m1.attr_value.push('\u{FFFD}')));
            } else if c != '&' {
                assert(no_raw_nul(m1.attr_value.push(c)));
            }
        },
        None => {},
    }
}

/// Shorthand for the machine's whitespace test, for use in proofs here.
spec fn is_ws_spec(c: char) -> bool {
    crate::html::machine::is_ws(c)
}

/// Shorthand for the machine's lowercasing map, for use in proofs here.
spec fn lower_char_of(c: char) -> char {
    crate::html::machine::lower_char(c)
}

/// Lowercasing yields neither a NUL nor an uppercase ASCII letter, provided
/// the input is not a NUL.
proof fn lemma_lower_char_ok(c: char)
    requires
        c != '\u{0000}',
    ensures
        lower_char_of(c) != '\u{0000}',
        !('A' <= lower_char_of(c) && lower_char_of(c) <= 'Z'),
{
    if 'A' <= c && c <= 'Z' {
        assert(lower_char_of(c) == ((c as int) + 32) as char);
        assert('a' <= lower_char_of(c) && lower_char_of(c) <= 'z');
    }
}

/// A whole run preserves clean builders and produces only well-formed
/// tokens.
proof fn lemma_run_ok(m: LexerView)
    requires
        builders_ok(m),
    ensures
        builders_ok(run(m).0),
        token_ok(run(m).1),
    decreases measure(m),
{
    if !m.done && minv(m) {
        lemma_step(m);
        lemma_step_ok(m);
        let r = step(m);
        if r.1 is None {
            lemma_run_ok(r.0);
        }
    }
}

/// A fresh machine is structurally sound and its builders are clean, so
/// every law below applies to a lexer from its construction on.
pub proof fn lemma_init_ok(input: Seq<char>)
    ensures
        minv(crate::html::machine::init_view(input)),
        builders_ok(crate::html::machine::init_view(input)),
{
}

/// Law: the end-of-file token is terminal and idempotent. Whenever a call
/// emits it the machine is finished, and on a finished machine every call
/// emits it again while leaving the state untouched.
pub proof fn lemma_end_of_file_idempotent(m: LexerView)
    requires
        minv(m),
    ensures
        m.done ==> run(m) == (m, TokenView::EndOfFile),
        run(m).1 == TokenView::EndOfFile ==> run(m).0.done,
        run(m).1 == TokenView::EndOfFile ==> run(run(m).0) == (
            run(m).0,
            TokenView::EndOfFile,
        ),
    decreases measure(m),
{
    if !m.done {
        lemma_step(m);
        let r = step(m);
        if r.1 is None {
            lemma_end_of_file_idempotent(r.0);
        }
    }
}

/// Law: emitted data never contains the raw NUL character — wherever a NUL
/// occurred in text, a tag or attribute name, or an attribute value, the
/// replacement character stands in the emitted token instead.
pub proof fn lemma_no_raw_nul(m: LexerView)
    requires
        builders_ok(m),
    ensures
        builders_ok(run(m).0),
        (match run(m).1 {
            TokenView::Character(c) => c != '\u{0000}',
            TokenView::CharacterReference(c) => c != '\u{0000}',
            TokenView::Comment(s) => no_raw_nul(s),
            TokenView::Tag(td) => no_raw_nul(td.tag_name) && forall|i: int|
                0 <= i < td.attributes.len() ==> no_raw_nul(#[trigger] td.attributes[i].name)
                    && no_raw_nul(td.attributes[i].value),
            TokenView::EndOfFile => true,
        }),
{
    lemma_run_ok(m);
}

/// Law: tag and attribute names are emitted entirely lowercase-ASCII
/// normalized, whatever the case of the input.
pub proof fn lemma_names_lowercase(m: LexerView)
    requires
        builders_ok(m),
    ensures
        (match run(m).1 {
            TokenView::Tag(td) => lowercase_ok(td.tag_name) && forall|i: int|
                0 <= i < td.attributes.len() ==> lowercase_ok(#[trigger] td.attributes[i].name),
            _ => true,
        }),
{
    lemma_run_ok(m);
}

/// Law: no emitted tag carries the same attribute name twice.
pub proof fn lemma_attribute_names_unique(m: LexerView)
    requires
        builders_ok(m),
    ensures
        (match run(m).1 {
            TokenView::Tag(td) => forall|i: int, j: int|
                0 <= i < j < td.attributes.len() ==> #[trigger] td.attributes[i].name
                    != #[trigger] td.attributes[j].name,
            _ => true,
        }),
{
    lemma_run_ok(m);
}

/// Law: attribute insertion is first-value-wins. Committing a pending
/// attribute whose name is already present reports `duplicate-attribute`
/// and leaves the tag untouched — the earlier value is never overwritten
/// and no new entry appears; a fresh name is appended without an error.
pub proof fn lemma_commit_first_value_wins(m: LexerView)
    requires
        m.attr_name.len() > 0,
    ensures
        attr_name_present(m.tag.attributes, m.attr_name) ==> commit_pending(m).tag == m.tag
            && commit_pending(m).errors == m.errors.push(ParseError::DuplicateAttribute),
        !attr_name_present(m.tag.attributes, m.attr_name) ==> commit_pending(m).tag.attributes
            == m.tag.attributes.push(
            (TagAttrView { name: m.attr_name, value: m.attr_value }),
        ) && commit_pending(m).errors == m.errors,
{
}

/// How many times this error code has been reported.
pub open spec fn error_count(s: Seq<ParseError>, e: ParseError) -> int
    decreases s.len(),
{
    if s.len() == 0 {
        0
    } else {
        error_count(s.drop_last(), e) + if s.last() == e {
            1int
        } else {
            0int
        }
    }
}

/// Appending one error raises exactly that error's count by one.
pub broadcast proof fn lemma_error_count_push(s: Seq<ParseError>, x: ParseError, e: ParseError)
    ensures
        #[trigger] error_count(s.push(x), e) == error_count(s, e) + if x == e {
            1int
        } else {
            0int
        },
{
    assert(s.push(x).drop_last() =~= s);
    assert(s.push(x).last() == x);
}

/// The contexts in which a consumed NUL is substituted and reported: text,
/// tag names, attribute names, and the three attribute-value states.
pub open spec fn nul_reporting_state(s: LexerState) -> bool {
    match s {
        LexerState::Data
        | LexerState::TagName
        | LexerState::AttributeName
        | LexerState::AttributeValueDoubleQuoted
        | LexerState::AttributeValueSingleQuoted
        | LexerState::AttributeValueUnquoted => true,
        _ => false,
    }
}

/// Law: each NUL consumed in a text, name or value context is reported as
/// `unexpected-null-character` exactly once, and the code is never reported
/// when no NUL was consumed in such a context.
pub proof fn lemma_nul_reported_exactly_once(m: LexerView)
    requires
        !m.done,
    ensures
        error_count(step(m).0.errors, ParseError::UnexpectedNullCharacter) == error_count(
            m.errors,
            ParseError::UnexpectedNullCharacter,
        ) + if read_char(m).0 == Some('\u{0000}') && nul_reporting_state(m.state) {
            1int
        } else {
            0int
        },
{
    broadcast use lemma_error_count_push;
}

} // verus!
