use wqpl::lexer::Lexer;
use wqpl::token::TokenType;

fn float_of(t: &TokenType) -> f64 {
    match t {
        TokenType::Float(text) => text.parse::<f64>().expect("float literal text"),
        other => panic!("expected a float token, got {other:?}"),
    }
}

#[test]
fn test_tokenize_numbers() {
    let mut lexer = Lexer::new("42 3.1 -5 1e3 2E-2");
    let tokens = lexer.tokenize().unwrap();

    assert_eq!(tokens[0].token_type, TokenType::Integer(42));
    assert_eq!(float_of(&tokens[1].token_type), 3.1);
    assert_eq!(tokens[2].token_type, TokenType::Minus);
    assert_eq!(tokens[3].token_type, TokenType::Integer(5));
    assert_eq!(float_of(&tokens[4].token_type), 1000.0);
    assert_eq!(float_of(&tokens[5].token_type), 0.02);
}

#[test]
fn test_tokenize_bigint_literal() {
    let big = num_bigint::BigInt::from(i64::MAX) + num_bigint::BigInt::from(1);
    let literal = big.to_string();
    let mut lexer = Lexer::new(&literal);
    let tokens = lexer.tokenize().unwrap();
    match &tokens[0].token_type {
        TokenType::BigInteger(n) => assert_eq!(*n, big),
        other => panic!("expected BigInteger token, got {other:?}"),
    }
}

#[test]
fn test_tokenize_operators() {
    let mut lexer = Lexer::new("+ - * / % ^ |");
    let tokens = lexer.tokenize().unwrap();

    assert_eq!(tokens[0].token_type, TokenType::Plus);
    assert_eq!(tokens[1].token_type, TokenType::Minus);
    assert_eq!(tokens[2].token_type, TokenType::Multiply);
    assert_eq!(tokens[3].token_type, TokenType::Divide);
    assert_eq!(tokens[4].token_type, TokenType::Modulo);
    assert_eq!(tokens[5].token_type, TokenType::Power);
    assert_eq!(tokens[6].token_type, TokenType::Pipe);
}

#[test]
fn test_tokenize_dot_operators() {
    let mut lexer = Lexer::new("/. %.");
    let tokens = lexer.tokenize().unwrap();
    assert_eq!(tokens[0].token_type, TokenType::DivideDot);
    assert_eq!(tokens[1].token_type, TokenType::ModuloDot);
}

#[test]
fn test_tokenize_inf_nan() {
    let mut lexer = Lexer::new("inf nan");
    let tokens = lexer.tokenize().unwrap();
    assert_eq!(tokens[0].token_type, TokenType::Inf);
    assert_eq!(tokens[1].token_type, TokenType::Nan);
}

#[test]
fn test_tokenize_symbols() {
    let mut lexer = Lexer::new("`hello `world");
    let tokens = lexer.tokenize().unwrap();

    assert_eq!(tokens[0].token_type, TokenType::Symbol("hello".to_string()));
    assert_eq!(tokens[1].token_type, TokenType::Symbol("world".to_string()));
}

#[test]
fn test_tokenize_string() {
    let mut lexer = Lexer::new("\"ab\"");
    let tokens = lexer.tokenize().unwrap();
    assert_eq!(tokens[0].token_type, TokenType::String("ab".to_string()));
}

#[test]
fn test_escape_quote() {
    let mut lexer = Lexer::new("\"a\\\"b\"");
    let tokens = lexer.tokenize().unwrap();
    assert_eq!(tokens[0].token_type, TokenType::String("a\"b".to_string()));
}

#[test]
fn test_tokenize_char() {
    let mut lexer = Lexer::new("\"a\"");
    let tokens = lexer.tokenize().unwrap();
    assert_eq!(tokens[0].token_type, TokenType::Character('a'));
}

#[test]
fn test_tokenize_expression() {
    let mut lexer = Lexer::new("x:1+2*3");
    let tokens = lexer.tokenize().unwrap();

    assert_eq!(tokens[0].token_type, TokenType::Identifier("x".to_string()));
    assert_eq!(tokens[1].token_type, TokenType::Colon);
    assert_eq!(tokens[2].token_type, TokenType::Integer(1));
    assert_eq!(tokens[3].token_type, TokenType::Plus);
    assert_eq!(tokens[4].token_type, TokenType::Integer(2));
    assert_eq!(tokens[5].token_type, TokenType::Multiply);
    assert_eq!(tokens[6].token_type, TokenType::Integer(3));
}

#[test]
fn test_tokenize_range_builder() {
    let mut lexer = Lexer::new("1..=2..3");
    let tokens = lexer.tokenize().unwrap();
    assert_eq!(tokens[0].token_type, TokenType::Integer(1));
    assert_eq!(tokens[1].token_type, TokenType::RangeInclusive);
    assert_eq!(tokens[2].token_type, TokenType::Integer(2));
    assert_eq!(tokens[3].token_type, TokenType::Range);
    assert_eq!(tokens[4].token_type, TokenType::Integer(3));
}

#[test]
fn test_identifier_with_question_mark() {
    let mut lexer = Lexer::new("a?:1 a? a???");
    let tokens = lexer.tokenize().unwrap();
    assert_eq!(tokens[0].token_type, TokenType::Identifier("a?".to_string()));
    assert_eq!(tokens[1].token_type, TokenType::Colon);
    assert_eq!(tokens[2].token_type, TokenType::Integer(1));
    assert_eq!(tokens[3].token_type, TokenType::Identifier("a?".to_string()));
    assert_eq!(tokens[4].token_type, TokenType::Identifier("a???".to_string()));
}

#[test]
fn unterminated_string_errors() {
    let mut lexer = Lexer::new("\"abc");
    let res = lexer.tokenize();
    assert!(res.is_err());
}

#[test]
fn integer_overflow_errors() {
    let mut lexer = Lexer::new("9223372036854775808");
    let res = lexer.tokenize().unwrap();
    assert!(matches!(res[0].token_type, TokenType::BigInteger(_)));
}

#[test]
fn float_overflow_errors() {
    let big = "1".repeat(400) + ".0";
    let mut lexer = Lexer::new(&big);
    let res = lexer.tokenize();
    assert!(res.is_err());
}

#[test]
fn at_try_token() {
    let mut lexer = Lexer::new("@t 1");
    let tokens = lexer.tokenize().unwrap();
    assert_eq!(tokens[0].token_type, TokenType::AtTry);
}

#[test]
fn test_raw_string_basic() {
    let mut lexer = Lexer::new("@l\"\\n\"");
    let tokens = lexer.tokenize().unwrap();
    assert_eq!(tokens[0].token_type, TokenType::String("\\n".to_string()));
}

#[test]
fn test_raw_string_unterminated_errors() {
    let mut lexer = Lexer::new("@l\"abc");
    let res = lexer.tokenize();
    assert!(res.is_err());
}

// Further cases =====================================================================

#[test]
fn float_limit_is_exact() {
    // 2^1024 - 2^970 reads to infinity; one less reads to f64::MAX.
    let limit = "179769313486231580793728971405303415079934132710037826936173778980444968292764750946649017977587207096330286416692887910946555547851940402630657488671505820681908902000708383676273854845817711531764475730270069855571366959622842914819860834936475292719074168444365510704342711559699508093042880177904174497792";
    let at_limit = format!("{limit}.0");
    assert!(Lexer::new(&at_limit).tokenize().is_err());
    let below = format!("{}1.0", &limit[..limit.len() - 1]);
    let toks = Lexer::new(&below).tokenize().unwrap();
    assert_eq!(float_of(&toks[0].token_type), f64::MAX);
    assert!(Lexer::new("1e308").tokenize().is_ok());
    assert!(Lexer::new("1e309").tokenize().is_err());
    assert!(Lexer::new("1e-400").tokenize().is_ok());
    assert!(Lexer::new("0.0e99999999999999999999999").tokenize().is_ok());
}

#[test]
fn empty_exponent_is_an_error() {
    assert!(Lexer::new("1e").tokenize().is_err());
    assert!(Lexer::new("1e+").tokenize().is_err());
}

#[test]
fn prefixed_literals() {
    let toks = Lexer::new("0b1_01 0o17 0xfF 0x").tokenize();
    assert!(toks.is_err());
    let toks = Lexer::new("0b1_01 0o17 0xfF 1_000").tokenize().unwrap();
    assert_eq!(toks[0].token_type, TokenType::Integer(5));
    assert_eq!(toks[1].token_type, TokenType::Integer(15));
    assert_eq!(toks[2].token_type, TokenType::Integer(255));
    assert_eq!(toks[3].token_type, TokenType::Integer(1000));
}

#[test]
fn positions_lines_and_bytes() {
    let toks = Lexer::new("é x\n  y").tokenize().unwrap();
    // é, x, newline, y, eof
    assert_eq!(toks[0].token_type, TokenType::Identifier("é".to_string()));
    assert_eq!((toks[0].byte_start, toks[0].byte_end), (0, 2));
    assert_eq!((toks[1].line, toks[1].column, toks[1].position), (1, 3, 3));
    assert_eq!(toks[1].byte_start, 3);
    assert_eq!(toks[2].token_type, TokenType::Newline);
    assert_eq!((toks[3].line, toks[3].column), (2, 3));
    assert_eq!(toks[4].token_type, TokenType::Eof);
    assert_eq!(toks[4].position, 7);
}

#[test]
fn comments_and_escapes() {
    let toks = Lexer::new("1 // note\n\"\\u{41}\\t\" \"\\q\"").tokenize().unwrap();
    assert_eq!(toks[1].token_type, TokenType::Comment("/ note".to_string()));
    assert_eq!(toks[3].token_type, TokenType::String("A\t".to_string()));
    assert_eq!(toks[4].token_type, TokenType::String("\\q".to_string()));
    assert!(Lexer::new("\"\\u{D800}\"").tokenize().is_err());
}

#[test]
fn unknown_character_is_a_syntax_error() {
    let err = Lexer::new("1 & 2").tokenize().unwrap_err();
    assert_eq!(err.kind, wqpl::error::WqErrorType::Syntax);
    assert_eq!(err.notes, vec!["at 1:3\n1 & 2\n  ~".to_string()]);
    let err = Lexer::new("&").with_ctx("ab\ncd&", 5).tokenize().unwrap_err();
    assert_eq!(err.notes, vec!["at 2:3\ncd&\n  ~".to_string()]);
}
