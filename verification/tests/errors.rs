use html_lexer::html::lexer::Lexer;
use html_lexer::html::machine::ParseError;
use html_lexer::html::tokens::{TagAttr, TagData, Token};

fn lex_all(input: &str) -> (Vec<Token>, Vec<&'static str>) {
    let mut lexer = Lexer::new(input.to_string());
    let mut tokens = Vec::new();
    loop {
        let t = lexer.next_token();
        let end = matches!(t, Token::EndOfFile);
        tokens.push(t);
        if end {
            break;
        }
    }
    let codes = lexer.errors().iter().map(|e| e.code()).collect();
    (tokens, codes)
}

fn chars(s: &str) -> Vec<char> {
    s.chars().collect()
}

#[test]
fn nul_in_text_is_replaced_and_reported_once() {
    let (tokens, codes) = lex_all("a\u{0000}b");
    assert_eq!(
        tokens,
        vec![
            Token::Character('a'),
            Token::Character('\u{FFFD}'),
            Token::Character('b'),
            Token::EndOfFile
        ]
    );
    assert_eq!(codes, vec!["unexpected-null-character"]);
}

#[test]
fn nul_in_tag_name_is_replaced() {
    let (tokens, codes) = lex_all("<p\u{0000}q>");
    assert_eq!(
        tokens,
        vec![
            Token::Tag(TagData {
                tag_name: chars("p\u{FFFD}q"),
                self_closing: false,
                attributes: vec![],
            }),
            Token::EndOfFile
        ]
    );
    assert_eq!(codes, vec!["unexpected-null-character"]);
}

#[test]
fn nul_in_attribute_name_and_value_reported_once_each() {
    let (tokens, codes) = lex_all("<p a\u{0000}b='x\u{0000}y'>");
    assert_eq!(
        tokens,
        vec![
            Token::Tag(TagData {
                tag_name: chars("p"),
                self_closing: false,
                attributes: vec![TagAttr {
                    name: chars("a\u{FFFD}b"),
                    value: chars("x\u{FFFD}y"),
                }],
            }),
            Token::EndOfFile
        ]
    );
    assert_eq!(
        codes,
        vec![
            "unexpected-null-character",
            "unexpected-null-character",
            "missing-whitespace-between-attributes"
        ]
    );
}

#[test]
fn no_raw_nul_in_any_emitted_data() {
    let (tokens, _) = lex_all("\u{0000}<p\u{0000} a\u{0000}=\u{0000}'\u{0000}'>\u{0000}");
    for t in &tokens {
        match t {
            Token::Character(c) => assert_ne!(*c, '\u{0000}'),
            Token::CharacterReference(c) => assert_ne!(*c, '\u{0000}'),
            Token::Comment(s) => assert!(!s.contains(&'\u{0000}')),
            Token::Tag(d) => {
                assert!(!d.tag_name.contains(&'\u{0000}'));
                for a in &d.attributes {
                    assert!(!a.name.contains(&'\u{0000}'));
                    assert!(!a.value.contains(&'\u{0000}'));
                }
            },
            Token::EndOfFile => {},
        }
    }
}

#[test]
fn quotes_in_attribute_name_are_kept_but_reported() {
    let (tokens, codes) = lex_all("<p a\"b='x'>");
    assert_eq!(
        tokens,
        vec![
            Token::Tag(TagData {
                tag_name: chars("p"),
                self_closing: false,
                attributes: vec![TagAttr { name: chars("a\"b"), value: chars("x") }],
            }),
            Token::EndOfFile
        ]
    );
    assert_eq!(
        codes,
        vec![
            "unexpected-character-in-attribute-name",
            "missing-whitespace-between-attributes"
        ]
    );
}

#[test]
fn reported_characters_in_unquoted_value() {
    let (tokens, codes) = lex_all("<p a=b\"c>");
    assert_eq!(
        tokens,
        vec![
            Token::Tag(TagData {
                tag_name: chars("p"),
                self_closing: false,
                attributes: vec![TagAttr { name: chars("a"), value: chars("b\"c") }],
            }),
            Token::EndOfFile
        ]
    );
    assert_eq!(codes, vec!["unexpected-character-in-unquoted-attribute-value"]);
}

#[test]
fn error_codes_are_verbatim() {
    assert_eq!(
        ParseError::UnexpectedNullCharacter.code(),
        "unexpected-null-character"
    );
    assert_eq!(ParseError::EofBeforeTagName.code(), "eof-before-tag-name");
    assert_eq!(ParseError::EofInTag.code(), "eof-in-tag");
    assert_eq!(
        ParseError::InvalidFirstCharacterOfTagName.code(),
        "invalid-first-character-of-tag-name"
    );
    assert_eq!(ParseError::MissingEndTagName.code(), "missing-end-tag-name");
    assert_eq!(
        ParseError::UnexpectedEqualsSignBeforeAttributeName.code(),
        "unexpected-equals-sign-before-attribute-name"
    );
    assert_eq!(
        ParseError::UnexpectedCharacterInAttributeName.code(),
        "unexpected-character-in-attribute-name"
    );
    assert_eq!(
        ParseError::MissingAttributeValue.code(),
        "missing-attribute-value"
    );
    assert_eq!(
        ParseError::UnexpectedCharacterInUnquotedAttributeValue.code(),
        "unexpected-character-in-unquoted-attribute-value"
    );
    assert_eq!(
        ParseError::UnexpectedSolidusInTag.code(),
        "unexpected-solidus-in-tag"
    );
    assert_eq!(
        ParseError::UnexpectedQuestionMarkInsteadOfTagName.code(),
        "unexpected-question-mark-instead-of-tag-name"
    );
    assert_eq!(
        ParseError::MissingWhitespaceBetweenAttributes.code(),
        "missing-whitespace-between-attributes"
    );
    assert_eq!(ParseError::DuplicateAttribute.code(), "duplicate-attribute");
}
