use songsynth::expr::{Expression, ExpressionError, MathFunc};
use songsynth::parser::{get_song, ExprSuffix, Parser, ParserError, Terminate};
use songsynth::source::StringSource;
use songsynth::tokenizer::Tokenizer;
use songsynth::song::{Bound, Channels, EffectType, PeriodicSource, Song, SourceType};
use songsynth::tokenizer::{Decimal, Number, Punct, TimeUnit, TokenType, TokenizerError};

fn lit(d: &[u8]) -> Expression {
    Expression::Lit(Number::Integer(d.to_vec()))
}

fn dec(whole: &[u8], frac: &[u8]) -> Decimal {
    Decimal { whole: whole.to_vec(), frac: frac.to_vec() }
}

fn b(e: Expression) -> Box<Expression> {
    Box::new(e)
}

/// The volume expression of a one-source song whose volume is `expr`.
fn volume_of(expr: &str) -> Expression {
    let text = format!("\"v\" 1s on 1 sin(1hz, :) on * @ {}", expr);
    let mut song = get_song("t", &text).unwrap();
    song.sources.remove(0).volume
}

fn parse(text: &str) -> Song {
    get_song("t", text).unwrap()
}

#[test]
fn precedence_mul_over_add() {
    assert_eq!(
        volume_of("2 + 3 * 4"),
        Expression::Add(b(lit(&[2])), b(Expression::Mul(b(lit(&[3])), b(lit(&[4])))))
    );
}

#[test]
fn power_is_right_associative() {
    assert_eq!(
        volume_of("2 ^ 3 ^ 2"),
        Expression::Pow(b(lit(&[2])), b(Expression::Pow(b(lit(&[3])), b(lit(&[2])))))
    );
}

#[test]
fn parentheses_group() {
    assert_eq!(
        volume_of("(2 + 3) * 4"),
        Expression::Mul(b(Expression::Add(b(lit(&[2])), b(lit(&[3])))), b(lit(&[4])))
    );
}

#[test]
fn function_call() {
    assert_eq!(volume_of("sin(0)"), Expression::Call(MathFunc::Sin, b(lit(&[0]))));
}

#[test]
fn subtraction_keeps_operand_order() {
    assert_eq!(volume_of("10 - 3"), Expression::Sub(b(lit(&[1, 0])), b(lit(&[3]))));
    assert_eq!(
        volume_of("8 / 2 / 2"),
        Expression::Div(b(Expression::Div(b(lit(&[8])), b(lit(&[2])))), b(lit(&[2])))
    );
    assert_eq!(
        volume_of("7 % 4 - 1"),
        Expression::Sub(b(Expression::Mod(b(lit(&[7])), b(lit(&[4])))), b(lit(&[1])))
    );
}

#[test]
fn context_variables_need_context() {
    let t = volume_of("t");
    assert_eq!(t.check(false), Err(ExpressionError::NoGenInfo));
    assert_eq!(t.check(true), Ok(()));
    let ch = volume_of("channel");
    assert_eq!(ch.check(false), Err(ExpressionError::NoGenInfo));
    assert_eq!(volume_of("pi").check(false), Ok(()));
    assert_eq!(volume_of("e").check(false), Ok(()));
    assert_eq!(
        volume_of("1 + wobble").check(true),
        Err(ExpressionError::UnknownVar("wobble".to_string()))
    );
}

#[test]
fn song_length_must_not_need_context() {
    assert_eq!(
        get_song("t", "\"x\" t s on 1").unwrap_err(),
        ParserError::Expression(ExpressionError::NoGenInfo)
    );
}

#[test]
fn timeframe_colon_spans_scope() {
    let song = parse("\"x\" 2s on 1 saw(3hz, :) on 0 @ 1");
    assert_eq!(song.sources[0].start, Bound::Fraction(dec(&[0], &[])));
    assert_eq!(song.sources[0].end, Bound::Fraction(dec(&[1], &[])));
}

#[test]
fn timeframe_open_end() {
    let song = parse("\"x\" 2s on 1 saw(3hz, 0.25:) on 0 @ 1");
    assert_eq!(song.sources[0].start, Bound::Fraction(dec(&[0], &[2, 5])));
    assert_eq!(song.sources[0].end, Bound::Fraction(dec(&[1], &[])));
}

#[test]
fn timeframe_with_units() {
    let song = parse("\"x\" 2s on 1 tri(3hz, 500ms:1 s) on 0 @ 1 { fade_in :0.5 fade_out 1 s: }");
    let src = &song.sources[0];
    assert_eq!(src.start, Bound::Time(dec(&[5, 0, 0], &[]), TimeUnit::Millis));
    assert_eq!(src.end, Bound::Time(dec(&[1], &[]), TimeUnit::Seconds));
    assert_eq!(src.effects.len(), 2);
    assert_eq!(src.effects[0].ty, EffectType::FadeIn);
    assert_eq!(src.effects[0].start, Bound::Fraction(dec(&[0], &[])));
    assert_eq!(src.effects[0].end, Bound::Fraction(dec(&[0], &[5])));
    assert_eq!(src.effects[1].ty, EffectType::FadeOut);
    assert_eq!(src.effects[1].start, Bound::Time(dec(&[1], &[]), TimeUnit::Seconds));
    assert_eq!(src.effects[1].end, Bound::Fraction(dec(&[1], &[])));
}

#[test]
fn channel_selection() {
    let song = parse("\"x\" 1s on 2 sin(1hz, :) on 0 @ 1 square(2hz, :) on * @ 1");
    assert_eq!(song.channels(), 2);
    assert_eq!(song.sources[0].channels, Channels::One(0));
    assert!(!song.sources[0].channels.has(1));
    assert_eq!(song.sources_on(1), vec![1]);
    assert_eq!(song.sources_on(0), vec![0, 1]);
}

#[test]
fn channels_list_membership() {
    let c = Channels::List(vec![0, 3]);
    assert!(c.has(3));
    assert!(!c.has(1));
    assert!(Channels::All.has(7));
}

#[test]
fn end_to_end_song() {
    let song = parse("\"test\" 1s on 1 sin(440hz, 0:1) on * @ 1");
    assert_eq!(song.name(), "test");
    assert_eq!(song.channels(), 1);
    assert_eq!(
        song.length,
        Expression::Lit(Number::Duration(dec(&[1], &[]), TimeUnit::Seconds))
    );
    assert_eq!(song.sources.len(), 1);
    let src = &song.sources[0];
    assert_eq!(
        src.ty,
        SourceType::Periodic {
            freq: Expression::Lit(Number::Frequency(dec(&[4, 4, 0], &[]))),
            phase: Expression::zero(),
            ty: PeriodicSource::Sine,
        }
    );
    assert_eq!(src.start, Bound::Fraction(dec(&[0], &[])));
    assert_eq!(src.end, Bound::Fraction(dec(&[1], &[])));
    assert_eq!(src.channels, Channels::All);
    assert_eq!(src.volume, lit(&[1]));
    assert!(src.effects.is_empty());
}

#[test]
fn unit_words_close_expressions() {
    let song = parse("\"x\" 2 * 3 s on 1 square(220 Hz, :) on 0 @ 1");
    assert_eq!(song.length, Expression::Mul(b(lit(&[2])), b(lit(&[3]))));
    match &song.sources[0].ty {
        SourceType::Periodic { freq, ty, .. } => {
            assert_eq!(*freq, lit(&[2, 2, 0]));
            assert_eq!(*ty, PeriodicSource::Square);
        }
    }
}

#[test]
fn missing_name_fails() {
    assert_eq!(get_song("t", "1s on 1").unwrap_err(), ParserError::MissingName);
    assert_eq!(get_song("t", "").unwrap_err(), ParserError::MissingName);
}

#[test]
fn missing_duration_fails() {
    assert_eq!(get_song("t", "\"x\" on 1").unwrap_err(), ParserError::MissingDuration);
    assert_eq!(get_song("t", "\"x\"").unwrap_err(), ParserError::MissingDuration);
}

#[test]
fn missing_channels_fails() {
    assert_eq!(get_song("t", "\"x\" 1s").unwrap_err(), ParserError::MissingChannels);
    assert_eq!(get_song("t", "\"x\" 1s on *").unwrap_err(), ParserError::MissingChannels);
    assert_eq!(get_song("t", "\"x\" 1s @ 2").unwrap_err(), ParserError::MissingChannels);
}

#[test]
fn unknown_waveform_fails() {
    assert_eq!(
        get_song("t", "\"x\" 1s on 1 noise(1hz, :) on 0 @ 1").unwrap_err(),
        ParserError::Unexpected(TokenType::Identifier)
    );
}

#[test]
fn unknown_effect_fails() {
    assert_eq!(
        get_song("t", "\"x\" 1s on 1 sin(1hz, :) on 0 @ 1 { wobble : }").unwrap_err(),
        ParserError::Unexpected(TokenType::Identifier)
    );
}

#[test]
fn wrong_token_fails_exactly() {
    assert_eq!(
        get_song("t", "\"x\" 1s on 1 sin(1hz : ) on 0 @ 1").unwrap_err(),
        ParserError::UnexpectedExact {
            expected: TokenType::Punct(Punct::Comma),
            found: TokenType::Punct(Punct::Colon),
        }
    );
    assert_eq!(
        get_song("t", "\"x\" 1s on 1 4").unwrap_err(),
        ParserError::UnexpectedExact {
            expected: TokenType::Identifier,
            found: TokenType::NumberLiteral(Number::Integer(vec![4])),
        }
    );
}

#[test]
fn unmatched_parenthesis_fails() {
    assert_eq!(
        get_song("t", "\"x\" (1 + 2 s on 1").unwrap_err(),
        ParserError::UnexpectedExact {
            expected: TokenType::Punct(Punct::RightParenthesis),
            found: TokenType::Identifier,
        }
    );
    assert_eq!(get_song("t", "\"x\" (1 + 2").unwrap_err(), ParserError::UnexpectedEnd);
}

#[test]
fn truncated_source_fails() {
    assert_eq!(
        get_song("t", "\"x\" 1s on 1 sin(1hz, :) on 0").unwrap_err(),
        ParserError::UnexpectedEnd
    );
}

#[test]
fn tokenizer_error_propagates() {
    assert_eq!(
        get_song("t", "\"x\" 1s on 1 sin(1hz, :) on 0 @ 1 `").unwrap_err(),
        ParserError::TokenizerError(TokenizerError::Invalid('`'))
    );
}

#[test]
fn parsing_twice_gives_equal_songs() {
    let text = "\"a\" 3s on 2 sin(440hz, 0:0.5) on 0 @ 0.5 { fade_out 0.5: } saw(2 * 110hz, 0.5:) on 1 @ t";
    assert_eq!(get_song("t", text).unwrap(), get_song("t", text).unwrap());
    let bad = "\"a\" 3s on 2 sin(440hz, 0:0.5)";
    assert_eq!(get_song("t", bad).unwrap_err(), get_song("t", bad).unwrap_err());
}

#[test]
fn channel_count_too_large_fails() {
    assert_eq!(
        get_song("t", "\"x\" 1s on 99999999999999999999999").unwrap_err(),
        ParserError::Unexpected(TokenType::NumberLiteral(Number::Integer(vec![9; 23])))
    );
}

fn parser(text: &str) -> Parser {
    Parser::new(Tokenizer::new(StringSource::new("t", text)))
}

#[test]
fn stray_closing_parenthesis_fails() {
    let p = parser("2 + 3)");
    assert_eq!(
        p.parse_expression(0, ExprSuffix::Bare, true).unwrap_err(),
        ParserError::UnmatchedParenthesis
    );
    assert_eq!(
        get_song("t", "\"x\" 1s on 1 sin(1hz, :) on 0 @ 2 + 3)").unwrap_err(),
        ParserError::UnmatchedParenthesis
    );
    let p = parser("(2 + 3");
    assert_eq!(p.parse_expression(0, ExprSuffix::Bare, true).unwrap_err(), ParserError::UnexpectedEnd);
}

#[test]
fn unit_word_kept_or_discarded() {
    let p = parser("2 * 3 hz on");
    let (e, j) = p.parse_expression(0, ExprSuffix::Hertz, false).unwrap();
    assert_eq!(e, Expression::Mul(b(lit(&[2])), b(lit(&[3]))));
    assert_eq!(j, 3);
    assert_eq!(p.terminate(3, ExprSuffix::Hertz, false), Terminate::Yes { discard_token: false });
    let (_, j) = p.parse_expression(0, ExprSuffix::Hertz, true).unwrap();
    assert_eq!(j, 4);
    assert_eq!(p.terminate(4, ExprSuffix::Hertz, true), Terminate::No);
}
