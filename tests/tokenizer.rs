use songsynth::source::StringSource;
use songsynth::tokenizer::{
    unescape, Decimal, Number, Punct, TimeUnit, Token, TokenType, Tokenizer, TokenizerError,
};

fn tokenizer(text: &str) -> Tokenizer {
    Tokenizer::new(StringSource::new("test", text))
}

fn types(text: &str) -> Vec<TokenType> {
    let mut t = tokenizer(text);
    let mut out = vec![];
    while let Some(tok) = t.get_next().unwrap() {
        out.push(tok.t_type().clone());
    }
    out
}

fn dec(whole: &[u8], frac: &[u8]) -> Decimal {
    Decimal { whole: whole.to_vec(), frac: frac.to_vec() }
}

fn first(text: &str) -> Token {
    tokenizer(text).get_next().unwrap().unwrap()
}

#[test]
fn duration_literal_seconds() {
    assert_eq!(
        types("1.5s"),
        vec![TokenType::NumberLiteral(Number::Duration(dec(&[1], &[5]), TimeUnit::Seconds))]
    );
}

#[test]
fn integer_literal() {
    assert_eq!(types("440"), vec![TokenType::NumberLiteral(Number::Integer(vec![4, 4, 0]))]);
}

#[test]
fn real_literal() {
    assert_eq!(types("3.14"), vec![TokenType::NumberLiteral(Number::Real(dec(&[3], &[1, 4])))]);
}

#[test]
fn unit_suffixes() {
    assert_eq!(
        types("440hz 2ms 3m 1h"),
        vec![
            TokenType::NumberLiteral(Number::Frequency(dec(&[4, 4, 0], &[]))),
            TokenType::NumberLiteral(Number::Duration(dec(&[2], &[]), TimeUnit::Millis)),
            TokenType::NumberLiteral(Number::Duration(dec(&[3], &[]), TimeUnit::Minutes)),
            TokenType::NumberLiteral(Number::Duration(dec(&[1], &[]), TimeUnit::Hours)),
        ]
    );
}

#[test]
fn dot_without_digits_stays_a_dot() {
    assert_eq!(
        types("3."),
        vec![
            TokenType::NumberLiteral(Number::Integer(vec![3])),
            TokenType::Punct(Punct::Dot),
        ]
    );
}

#[test]
fn long_literal_keeps_every_digit() {
    let digits: Vec<u8> = "123456789012345678901234567890".bytes().map(|b| b - b'0').collect();
    assert_eq!(
        types("123456789012345678901234567890"),
        vec![TokenType::NumberLiteral(Number::Integer(digits))]
    );
}

#[test]
fn keywords_and_identifiers() {
    assert_eq!(
        types("on from to _ sine"),
        vec![
            TokenType::OnKw,
            TokenType::FromKw,
            TokenType::ToKw,
            TokenType::Underscore,
            TokenType::Identifier,
        ]
    );
}

#[test]
fn operators_longest_match() {
    assert_eq!(
        types("<<= >> ** **= => ... .. && |= != $$ ^="),
        vec![
            TokenType::Punct(Punct::LeftShiftEquals),
            TokenType::Punct(Punct::RightShift),
            TokenType::Punct(Punct::DoubleStar),
            TokenType::Punct(Punct::DoubleStarEquals),
            TokenType::Punct(Punct::FatArrow),
            TokenType::Punct(Punct::TripleDot),
            TokenType::Punct(Punct::DoubleDot),
            TokenType::Punct(Punct::DoubleAnd),
            TokenType::Punct(Punct::SingleOrEquals),
            TokenType::Punct(Punct::BangEquals),
            TokenType::Punct(Punct::DoubleDollar),
            TokenType::Punct(Punct::CaretEquals),
        ]
    );
}

#[test]
fn punctuation_singles() {
    assert_eq!(
        types("( ) [ ] { } : # @ , ? ; + - * / % ^ ="),
        vec![
            TokenType::Punct(Punct::LeftParenthesis),
            TokenType::Punct(Punct::RightParenthesis),
            TokenType::Punct(Punct::LeftSquareBraces),
            TokenType::Punct(Punct::RightSquareBraces),
            TokenType::Punct(Punct::LeftCurlyBraces),
            TokenType::Punct(Punct::RightCurlyBraces),
            TokenType::Punct(Punct::Colon),
            TokenType::Punct(Punct::HashSymbol),
            TokenType::Punct(Punct::AtSign),
            TokenType::Punct(Punct::Comma),
            TokenType::Punct(Punct::QuestionMark),
            TokenType::Punct(Punct::Semicolon),
            TokenType::Punct(Punct::Plus),
            TokenType::Punct(Punct::Minus),
            TokenType::Punct(Punct::Star),
            TokenType::Punct(Punct::Slash),
            TokenType::Punct(Punct::Percent),
            TokenType::Punct(Punct::Caret),
            TokenType::Punct(Punct::Equals),
        ]
    );
}

#[test]
fn string_literal_with_escapes() {
    assert_eq!(
        types(r#""a\tb\n\q\"""#),
        vec![TokenType::StringLiteral("a\tb\nq\"".to_string())]
    );
}

#[test]
fn char_literals() {
    assert_eq!(
        types(r"'x' '\n' '\0'"),
        vec![
            TokenType::CharLiteral('x'),
            TokenType::CharLiteral('\n'),
            TokenType::CharLiteral('\0'),
        ]
    );
}

#[test]
fn unterminated_string_fails() {
    let mut t = tokenizer("\"abc");
    assert_eq!(t.get_next().unwrap_err(), TokenizerError::UnfinishedStringLiteral);
}

#[test]
fn unterminated_char_fails() {
    let mut t = tokenizer("'ab'");
    assert_eq!(t.get_next().unwrap_err(), TokenizerError::UnfinishedCharLiteral);
    let mut t = tokenizer("'");
    assert_eq!(t.get_next().unwrap_err(), TokenizerError::UnfinishedCharLiteral);
}

#[test]
fn invalid_character_fails() {
    let mut t = tokenizer("1 `");
    assert!(t.get_next().unwrap().is_some());
    assert_eq!(t.get_next().unwrap_err(), TokenizerError::Invalid('`'));
}

#[test]
fn comments_are_skipped() {
    assert_eq!(
        types("1 // note\n/* a /* nested */ b */ 2"),
        vec![
            TokenType::NumberLiteral(Number::Integer(vec![1])),
            TokenType::NumberLiteral(Number::Integer(vec![2])),
        ]
    );
}

#[test]
fn emit_whitespace_mode() {
    let mut t = tokenizer("a // c\nb");
    t.set_emit_whitespace(true);
    assert!(t.emit_whitespace());
    let mut out = vec![];
    while let Some(tok) = t.get_next().unwrap() {
        out.push(tok.t_type().clone());
    }
    assert_eq!(
        out,
        vec![
            TokenType::Identifier,
            TokenType::Whitespace,
            TokenType::SingleLineComment,
            TokenType::Whitespace,
            TokenType::Identifier,
        ]
    );
}

#[test]
fn unclosed_comment_gives_diagnostic() {
    let mut t = tokenizer("1 /* open");
    assert!(t.get_next().unwrap().is_some());
    assert!(t.get_next().unwrap().is_none());
    assert_eq!(t.diagnostics().len(), 1);
    assert_eq!(t.diagnostics()[0].message(), "Unclosed multiline comment");
    assert_eq!(t.diagnostics()[0].position().start(), 2);
}

#[test]
fn positions_track_lines_and_columns() {
    let mut t = tokenizer("ab\n  cd");
    let a = t.get_next().unwrap().unwrap();
    let c = t.get_next().unwrap().unwrap();
    assert_eq!((a.position().start(), a.position().end()), (0, 2));
    assert_eq!((a.position().line(), a.position().column()), (0, 0));
    assert_eq!((c.position().start(), c.position().end()), (5, 7));
    assert_eq!((c.position().line(), c.position().column()), (1, 2));
    assert_eq!(c.position().len(), 2);
    assert!(!c.position().is_empty());
    let src = StringSource::new("test", "ab\n  cd");
    assert_eq!(c.position().get_text(&src), Some("cd".to_string()));
}

#[test]
fn first_token_reports_its_text() {
    let tok = first("  hello");
    assert_eq!(*tok.t_type(), TokenType::Identifier);
    let src = StringSource::new("n", "  hello");
    assert_eq!(src.get_name(), "n");
    assert_eq!(tok.position().get_text(&src), Some("hello".to_string()));
}

#[test]
fn empty_text_has_no_tokens() {
    assert!(types("").is_empty());
    assert!(types(" \n\t ").is_empty());
}

#[test]
fn tokenize_all_stops_at_error() {
    let mut t = tokenizer("a b \"c");
    let (toks, err) = t.tokenize_all();
    assert_eq!(toks.len(), 2);
    assert_eq!(err, Some(TokenizerError::UnfinishedStringLiteral));
}

#[test]
fn unescape_table() {
    assert_eq!(unescape('0'), '\0');
    assert_eq!(unescape('t'), '\t');
    assert_eq!(unescape('n'), '\n');
    assert_eq!(unescape('q'), 'q');
}
