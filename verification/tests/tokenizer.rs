use f750c::opcode::ReservedWord;
use f750c::parser::ParseError;
use f750c::tokenizer::{classify_parsed_word, tokenize_line, Token, TokenStream};

fn word(s: &str) -> Token {
    Token::Token(s.to_string())
}

#[test]
fn tokenizes_an_instruction() {
    let tokens = tokenize_line("mov a64, 5").unwrap();
    assert_eq!(
        tokens,
        vec![word("mov"), Token::Whitespace, word("a64"), Token::Separator, Token::Whitespace, Token::IntLiteral(5)]
    );
}

#[test]
fn drops_comments_and_trailing_whitespace() {
    let tokens = tokenize_line("push a64   ; keep the value").unwrap();
    assert_eq!(tokens, vec![word("push"), Token::Whitespace, word("a64")]);
    assert_eq!(tokenize_line("; only a comment").unwrap(), vec![]);
    assert_eq!(tokenize_line("").unwrap(), vec![]);
}

#[test]
fn tab_is_whitespace() {
    let tokens = tokenize_line("\tret").unwrap();
    assert_eq!(tokens, vec![Token::Whitespace, word("ret")]);
}

#[test]
fn colons_and_namespace_separators() {
    assert_eq!(tokenize_line("_start:").unwrap(), vec![word("_start"), Token::Colon]);
    assert_eq!(
        tokenize_line("jmp _lib::entry").unwrap(),
        vec![word("jmp"), Token::Whitespace, word("_lib"), Token::NamespaceSeparator, word("entry")]
    );
}

#[test]
fn special_characters() {
    let tokens = tokenize_line("&x+4 #param @if").unwrap();
    assert_eq!(
        tokens,
        vec![
            Token::Deref,
            word("x"),
            Token::Offset,
            Token::IntLiteral(4),
            Token::Whitespace,
            Token::Hashtag,
            word("param"),
            Token::Whitespace,
            Token::Annotation,
            word("if"),
        ]
    );
}

#[test]
fn quoted_strings() {
    let tokens = tokenize_line("msg: \"hello, world\", 0").unwrap();
    assert_eq!(
        tokens,
        vec![
            word("msg"),
            Token::Colon,
            Token::Whitespace,
            Token::QuotedString("hello, world".to_string()),
            Token::Separator,
            Token::Whitespace,
            Token::IntLiteral(0),
        ]
    );
}

#[test]
fn unterminated_quote_is_refused() {
    assert!(matches!(tokenize_line("msg: \"hello"), Err(ParseError::UnterminatedQuote)));
}

#[test]
fn integer_literals_in_several_bases() {
    assert_eq!(tokenize_line("0x10").unwrap(), vec![Token::IntLiteral(16)]);
    assert_eq!(tokenize_line("-42").unwrap(), vec![Token::IntLiteral(-42)]);
    assert_eq!(tokenize_line("0b101").unwrap(), vec![Token::IntLiteral(5)]);
    assert_eq!(tokenize_line("1_000").unwrap(), vec![Token::IntLiteral(1000)]);
}

#[test]
fn float_literals_keep_their_text() {
    assert_eq!(tokenize_line("1.5").unwrap(), vec![Token::FloatLiteral("1.5".to_string())]);
    assert_eq!(tokenize_line("2e3").unwrap(), vec![Token::FloatLiteral("2e3".to_string())]);
    assert_eq!(tokenize_line("inf").unwrap(), vec![Token::FloatLiteral("inf".to_string())]);
}

#[test]
fn float_words_are_those_std_reads_as_floats() {
    let words = [
        "1.5", ".5", "5.", "1e10", "1E-3", "-2.5", "inf", "-inf", "infinity", "NaN", "nan", "e5", "1.2.3",
        "abc", "1e", "0x1.0", "--1.0", "Infinity", "INF", "1_0.5", ".", "-.", "-", "-1E-5",
    ];
    for w in words {
        let tokens = tokenize_line(w).unwrap();
        let is_int = matches!(tokens.as_slice(), [Token::IntLiteral(_)]);
        let is_float = matches!(tokens.as_slice(), [Token::FloatLiteral(_)]);
        if !is_int {
            assert_eq!(is_float, w.parse::<f64>().is_ok(), "word {w}");
        }
    }
}

#[test]
fn keywords() {
    assert_eq!(tokenize_line("extern").unwrap(), vec![Token::Keyword(ReservedWord::Extern)]);
    assert_eq!(tokenize_line("const").unwrap(), vec![Token::Keyword(ReservedWord::Const)]);
    assert_eq!(tokenize_line("struct").unwrap(), vec![Token::Keyword(ReservedWord::Alias)]);
}

#[test]
fn token_written_forms() {
    assert_eq!(Token::NamespaceSeparator.to_string(), "::");
    assert_eq!(Token::IntLiteral(-7).to_string(), "-7");
    assert_eq!(Token::QuotedString("hi".to_string()).to_string(), "\"hi\"");
    assert_eq!(Token::Keyword(ReservedWord::Alias).to_string(), "struct");
    assert_eq!(Token::FloatLiteral("2.50".to_string()).to_string(), "2.50");
}

#[test]
fn token_stream_walks_tokens() {
    let tokens = tokenize_line("mov  a64, 1").unwrap();
    let mut stream = TokenStream::new(&tokens);
    assert_eq!(stream.peek(), Some(&word("mov")));
    assert_eq!(stream.next(), Some(word("mov")));
    assert_eq!(stream.peek_non_whitespace(), Some(&word("a64")));
    assert!(stream.expect_non_whitespace(word("a64")).is_ok());
    assert!(stream.expect(Token::Whitespace).is_err());
    assert_eq!(stream.next_non_whitespace(), Some(Token::IntLiteral(1)));
    assert!(!stream.has_more());
    assert!(matches!(stream.next_or_err(), Err(ParseError::UnexpectedEOL)));
}

#[test]
fn a_comment_may_follow_a_word_directly() {
    assert_eq!(tokenize_line("nop;x").unwrap(), tokenize_line("nop").unwrap());
    assert_eq!(tokenize_line("mov a64, 5;five").unwrap(), tokenize_line("mov a64, 5").unwrap());
    // a `;` inside a quoted text is kept
    assert_eq!(tokenize_line("\"a;b\"").unwrap(), vec![Token::QuotedString("a;b".to_string())]);
}

#[test]
fn words_are_classified_from_the_parsed_integer() {
    let w: Vec<char> = "12".chars().collect();
    assert_eq!(classify_parsed_word(&w, Some(12)), Token::IntLiteral(12));
    // without an integer, digits are read as a floating point value
    assert_eq!(classify_parsed_word(&w, None), Token::FloatLiteral("12".to_string()));
    let a: Vec<char> = "abc".chars().collect();
    assert_eq!(classify_parsed_word(&a, None), word("abc"));
    let c: Vec<char> = "const".chars().collect();
    assert_eq!(classify_parsed_word(&c, None), Token::Keyword(ReservedWord::Const));
    let f: Vec<char> = "1.5".chars().collect();
    assert_eq!(classify_parsed_word(&f, None), Token::FloatLiteral("1.5".to_string()));
}

#[test]
fn a_comment_never_changes_a_line_with_wide_characters() {
    let with_comment = tokenize_line("é a;x").unwrap();
    assert_eq!(with_comment, tokenize_line("é a").unwrap());
    assert_eq!(with_comment, vec![word("é"), Token::Whitespace, word("a")]);
}
