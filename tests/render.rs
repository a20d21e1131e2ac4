use songsynth::printing::{number_to_text, render, render_token};
use songsynth::source::StringSource;
use songsynth::tokenizer::{Decimal, Number, Punct, TimeUnit, TokenType, Tokenizer};

fn retokenize(text: &str) -> Vec<TokenType> {
    let mut t = Tokenizer::new(StringSource::new("r", text));
    let mut out = vec![];
    while let Some(tok) = t.get_next().unwrap() {
        out.push(tok.t_type().clone());
    }
    out
}

fn round_trip(t: TokenType) {
    let text = render(&t).unwrap();
    assert_eq!(retokenize(&text), vec![t]);
}

fn dec(whole: &[u8], frac: &[u8]) -> Decimal {
    Decimal { whole: whole.to_vec(), frac: frac.to_vec() }
}

#[test]
fn render_duration() {
    let t = TokenType::NumberLiteral(Number::Duration(dec(&[1], &[5]), TimeUnit::Seconds));
    assert_eq!(render(&t), Some("1.5s".to_string()));
    round_trip(t);
}

#[test]
fn render_integer_and_real() {
    let i = TokenType::NumberLiteral(Number::Integer(vec![4, 4, 0]));
    assert_eq!(render(&i), Some("440".to_string()));
    round_trip(i);
    let r = TokenType::NumberLiteral(Number::Real(dec(&[3], &[1, 4])));
    assert_eq!(render(&r), Some("3.14".to_string()));
    round_trip(r);
}

#[test]
fn render_units() {
    for u in [TimeUnit::Hours, TimeUnit::Minutes, TimeUnit::Seconds, TimeUnit::Millis] {
        round_trip(TokenType::NumberLiteral(Number::Duration(dec(&[2, 5], &[]), u)));
    }
    round_trip(TokenType::NumberLiteral(Number::Frequency(dec(&[4, 4, 0], &[]))));
    assert_eq!(
        number_to_text(&Number::Duration(dec(&[2], &[]), TimeUnit::Millis)),
        "2ms".to_string()
    );
}

#[test]
fn render_strings_and_chars() {
    let s = TokenType::StringLiteral("say \"hi\" \\ now".to_string());
    assert_eq!(render(&s), Some("\"say \\\"hi\\\" \\\\ now\"".to_string()));
    round_trip(s);
    for c in ['a', '\'', '\\', '\n', '\t', '\0', '"'] {
        round_trip(TokenType::CharLiteral(c));
    }
}

#[test]
fn render_keywords_and_operators() {
    round_trip(TokenType::OnKw);
    round_trip(TokenType::FromKw);
    round_trip(TokenType::ToKw);
    round_trip(TokenType::Underscore);
    for p in [
        Punct::LeftShiftEquals,
        Punct::TripleDot,
        Punct::Slash,
        Punct::SlashEquals,
        Punct::FatArrow,
        Punct::Caret,
        Punct::DoubleDollar,
        Punct::RightCurlyBraces,
    ] {
        round_trip(TokenType::Punct(p));
    }
}

#[test]
fn identifiers_are_not_rendered_from_their_type() {
    assert_eq!(render(&TokenType::Identifier), None);
    assert_eq!(render(&TokenType::Whitespace), None);
}

#[test]
fn render_identifier_from_source() {
    let text = "  fade_in ";
    let src = StringSource::new("r", text);
    let mut t = Tokenizer::new(StringSource::new("r", text));
    let tok = t.get_next().unwrap().unwrap();
    let out = render_token(&tok, &src).unwrap();
    assert_eq!(out, "fade_in");
    assert_eq!(retokenize(&out), vec![TokenType::Identifier]);
}
