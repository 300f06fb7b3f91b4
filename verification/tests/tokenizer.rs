use html_lexer::html::lexer::Lexer;
use html_lexer::html::tokens::{TagAttr, TagData, Token};

/// Pull every token up to and including the first `EndOfFile`, plus the
/// error codes reported along the way.
fn lex_all(input: &str) -> (Vec<Token>, Vec<&'static str>) {
    let mut lexer = Lexer::new(input.to_string());
    let mut tokens = Vec::new();
    loop {
        let t = lexer.next_token();
        let end = matches!(t, Token::EndOfFile);
        tokens.push(t);
        if end {
            break;
        }
    }
    let codes = lexer.errors().iter().map(|e| e.code()).collect();
    (tokens, codes)
}

fn chars(s: &str) -> Vec<char> {
    s.chars().collect()
}

fn tag(name: &str, self_closing: bool, attrs: &[(&str, &str)]) -> Token {
    Token::Tag(TagData {
        tag_name: chars(name),
        self_closing,
        attributes: attrs
            .iter()
            .map(|(n, v)| TagAttr { name: chars(n), value: chars(v) })
            .collect(),
    })
}

#[test]
fn plain_text() {
    let (tokens, codes) = lex_all("ab");
    assert_eq!(
        tokens,
        vec![Token::Character('a'), Token::Character('b'), Token::EndOfFile]
    );
    assert!(codes.is_empty());
}

#[test]
fn empty_input() {
    let (tokens, codes) = lex_all("");
    assert_eq!(tokens, vec![Token::EndOfFile]);
    assert!(codes.is_empty());
}

#[test]
fn ampersand_at_end_of_input_is_literal() {
    let (tokens, codes) = lex_all("a&");
    assert_eq!(
        tokens,
        vec![
            Token::Character('a'),
            Token::CharacterReference('&'),
            Token::EndOfFile
        ]
    );
    assert!(codes.is_empty());
}

#[test]
fn simple_tag() {
    let (tokens, codes) = lex_all("<p>");
    assert_eq!(tokens, vec![tag("p", false, &[]), Token::EndOfFile]);
    assert!(codes.is_empty());
}

#[test]
fn self_closing_tag() {
    let (tokens, codes) = lex_all("<br/>");
    assert_eq!(tokens, vec![tag("br", true, &[]), Token::EndOfFile]);
    assert!(codes.is_empty());
}

#[test]
fn end_tag() {
    let (tokens, codes) = lex_all("</p>");
    assert_eq!(tokens, vec![tag("p", false, &[]), Token::EndOfFile]);
    assert!(codes.is_empty());
}

#[test]
fn end_of_file_idempotent() {
    let mut lexer = Lexer::new("x".to_string());
    assert_eq!(lexer.next_token(), Token::Character('x'));
    assert_eq!(lexer.next_token(), Token::EndOfFile);
    assert_eq!(lexer.next_token(), Token::EndOfFile);
    assert_eq!(lexer.next_token(), Token::EndOfFile);
}

#[test]
fn end_of_file_idempotent_after_placeholder() {
    // The markup-declaration placeholder terminates the stream; the terminal
    // marker must then be idempotent as everywhere else.
    let mut lexer = Lexer::new("<!doctype html>".to_string());
    assert_eq!(lexer.next_token(), Token::EndOfFile);
    assert_eq!(lexer.next_token(), Token::EndOfFile);
}

#[test]
fn duplicate_attribute_first_wins() {
    let (tokens, codes) = lex_all("<p id=\"a\" id=\"b\">");
    assert_eq!(
        tokens,
        vec![tag("p", false, &[("id", "a")]), Token::EndOfFile]
    );
    assert_eq!(
        codes,
        vec!["duplicate-attribute", "missing-whitespace-between-attributes"]
    );
}

#[test]
fn duplicate_attribute_unquoted() {
    let (tokens, _) = lex_all("<p a=1 a=2 b=3>");
    assert_eq!(
        tokens,
        vec![tag("p", false, &[("a", "1"), ("b", "3")]), Token::EndOfFile]
    );
}

#[test]
fn end_tag_at_end_of_input_replays_swallowed_characters() {
    let (tokens, codes) = lex_all("</");
    assert_eq!(
        tokens,
        vec![Token::Character('<'), Token::Character('/'), Token::EndOfFile]
    );
    assert_eq!(codes, vec!["eof-before-tag-name"]);
}

#[test]
fn end_tag_name_cut_off_by_end_of_input() {
    // A letter moves to the tag-name state, whose end-of-input rule discards
    // the half-built tag: no tag is fabricated.
    let (tokens, codes) = lex_all("</p");
    assert_eq!(tokens, vec![Token::EndOfFile]);
    assert_eq!(codes, vec!["eof-in-tag"]);
}

#[test]
fn ampersand_not_followed_by_reference_is_literal() {
    let (tokens, codes) = lex_all("a&b");
    assert_eq!(
        tokens,
        vec![
            Token::Character('a'),
            Token::CharacterReference('&'),
            Token::Character('b'),
            Token::EndOfFile
        ]
    );
    assert!(codes.is_empty());
}

#[test]
fn single_quoted_value_round_trips_interior_exactly() {
    let (tokens, codes) = lex_all("<a href='it''s'>");
    // The interior of the first quoted value, `it`, survives exactly; the
    // characters after the early closing quote are reprocessed as a (very
    // odd) further attribute name, so nothing is dropped.
    assert_eq!(
        tokens,
        vec![
            tag("a", false, &[("href", "it"), ("'s'", "")]),
            Token::EndOfFile
        ]
    );
    assert_eq!(
        codes,
        vec![
            "missing-whitespace-between-attributes",
            "unexpected-character-in-attribute-name",
            "unexpected-character-in-attribute-name"
        ]
    );
}

#[test]
fn double_quoted_value_keeps_every_character() {
    let (tokens, _) = lex_all("<a x=\" a='b' <>; \t\">");
    // Inside a double-quoted value only the quote, `&` and NUL act.
    assert_eq!(
        tokens,
        vec![tag("a", false, &[("x", " a='b' <>; \t")]), Token::EndOfFile]
    );
}

#[test]
fn uppercase_names_are_lowercased() {
    let (tokens, codes) = lex_all("<DiV ID='X'>");
    assert_eq!(
        tokens,
        vec![tag("div", false, &[("id", "X")]), Token::EndOfFile]
    );
    // The `>` right after the closing quote is the spec-mandated
    // missing-whitespace recovery path; the tag itself is unharmed.
    assert_eq!(codes, vec!["missing-whitespace-between-attributes"]);
}

#[test]
fn unquoted_values() {
    let (tokens, codes) = lex_all("<p a=b c=d>");
    assert_eq!(
        tokens,
        vec![tag("p", false, &[("a", "b"), ("c", "d")]), Token::EndOfFile]
    );
    assert!(codes.is_empty());
}

#[test]
fn value_less_attributes() {
    let (tokens, codes) = lex_all("<input disabled checked>");
    assert_eq!(
        tokens,
        vec![
            tag("input", false, &[("disabled", ""), ("checked", "")]),
            Token::EndOfFile
        ]
    );
    assert!(codes.is_empty());
}

#[test]
fn missing_attribute_value() {
    let (tokens, codes) = lex_all("<p a=>");
    assert_eq!(tokens, vec![tag("p", false, &[("a", "")]), Token::EndOfFile]);
    assert_eq!(codes, vec!["missing-attribute-value"]);
}

#[test]
fn equals_sign_before_attribute_name() {
    let (tokens, codes) = lex_all("<p =b>");
    assert_eq!(tokens, vec![tag("p", false, &[("=b", "")]), Token::EndOfFile]);
    assert_eq!(codes, vec!["unexpected-equals-sign-before-attribute-name"]);
}

#[test]
fn tag_open_at_end_of_input() {
    let (tokens, codes) = lex_all("<");
    assert_eq!(tokens, vec![Token::Character('>'), Token::EndOfFile]);
    assert_eq!(codes, vec!["eof-before-tag-name"]);
}

#[test]
fn tag_open_invalid_first_character() {
    let (tokens, codes) = lex_all("<1>");
    assert_eq!(
        tokens,
        vec![
            Token::Character('>'),
            Token::Character('1'),
            Token::Character('>'),
            Token::EndOfFile
        ]
    );
    assert_eq!(codes, vec!["invalid-first-character-of-tag-name"]);
}

#[test]
fn question_mark_instead_of_tag_name() {
    let (tokens, codes) = lex_all("<?x");
    assert_eq!(tokens, vec![Token::Comment(vec![]), Token::EndOfFile]);
    assert_eq!(codes, vec!["unexpected-question-mark-instead-of-tag-name"]);
}

#[test]
fn missing_end_tag_name_keeps_filling() {
    let (tokens, codes) = lex_all("</>x>");
    assert_eq!(tokens, vec![tag("x", false, &[]), Token::EndOfFile]);
    assert_eq!(codes, vec!["missing-end-tag-name"]);
}

#[test]
fn numeric_reference_placeholder_replays_ampersand() {
    let (tokens, _) = lex_all("a&#x;");
    assert_eq!(
        tokens,
        vec![
            Token::Character('a'),
            Token::CharacterReference('&'),
            Token::Character('x'),
            Token::Character(';'),
            Token::EndOfFile
        ]
    );
}

#[test]
fn character_reference_in_attribute_value() {
    let (tokens, codes) = lex_all("<p a='x&y'>");
    assert_eq!(
        tokens,
        vec![
            Token::CharacterReference('&'),
            tag("p", false, &[("a", "xy")]),
            Token::EndOfFile
        ]
    );
    assert_eq!(codes, vec!["missing-whitespace-between-attributes"]);
}

#[test]
fn solidus_not_closing_the_tag() {
    let (tokens, codes) = lex_all("<p/ b>");
    assert_eq!(tokens, vec![tag("p", false, &[("b", "")]), Token::EndOfFile]);
    assert_eq!(codes, vec!["unexpected-solidus-in-tag"]);
}

#[test]
fn end_of_input_inside_tag_discards_it() {
    let (tokens, codes) = lex_all("<p");
    assert_eq!(tokens, vec![Token::EndOfFile]);
    assert_eq!(codes, vec!["eof-in-tag"]);
}

#[test]
fn end_of_input_inside_quoted_value_discards_tag() {
    let (tokens, codes) = lex_all("<p a='x");
    assert_eq!(tokens, vec![Token::EndOfFile]);
    assert_eq!(codes, vec!["eof-in-tag"]);
}

#[test]
fn all_whitespace_forms_separate_attributes() {
    let (tokens, codes) = lex_all("<p\ta=1\nb=2\u{000C}c=3 d=4>");
    assert_eq!(
        tokens,
        vec![
            tag(
                "p",
                false,
                &[("a", "1"), ("b", "2"), ("c", "3"), ("d", "4")]
            ),
            Token::EndOfFile
        ]
    );
    assert!(codes.is_empty());
}

#[test]
fn get_top_token_of_fresh_lexer_is_end_of_file() {
    let lexer = Lexer::new("abc".to_string());
    assert_eq!(lexer.get_top_token(), Token::EndOfFile);
}

#[test]
fn get_top_token_returns_most_recent() {
    let mut lexer = Lexer::new("ab".to_string());
    lexer.next_token();
    let t = lexer.next_token();
    assert_eq!(t, Token::Character('b'));
    assert_eq!(lexer.get_top_token(), Token::Character('b'));
}

#[test]
fn next_character_consumes_in_order() {
    let mut lexer = Lexer::new("ab".to_string());
    assert_eq!(lexer.next_character(), Some('a'));
    assert_eq!(lexer.next_character(), Some('b'));
    assert_eq!(lexer.next_character(), None);
    assert_eq!(lexer.next_character(), None);
}
