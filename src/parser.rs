//! The song grammar and the expression sub-parser.
//!
//! ```text
//! Song      := String Expr "s"? ("on" Integer)  Source*
//! Source    := Ident "(" Expr "hz"? "," Timeframe ")" ("on" (Integer | "*")) "@" Expr EffectBlock?
//! Effect    := Ident Timeframe             EffectBlock := "{" Effect* "}"
//! Timeframe := (Number Unit? | ":") ":"? (Number Unit?)?   (the second ":" only after a number)
//! Expr      := operands joined by + - (1) < * / % (2) < ^ (3, right-associative),
//!              an operand being a number, a name, fn "(" Expr ")" or "(" Expr ")"
//! ```
//!
//! The grammar is stated as spec functions over the token stream (`song_p`
//! and the functions it calls); the parser is proved to return exactly what
//! they describe.
use vstd::prelude::*;
use crate::expr::{
    bin_view, check_spec, func_of, precedence, rhs_min, BinOp, ExprErrorView, ExprView,
    Expression, ExpressionError, MathFunc,
};
use crate::result::ParserResult;
use crate::song::{
    scope_end, scope_start, Bound, BoundView, Channels, ChannelsView, Effect, EffectType,
    EffectView, PeriodicSource, Song, SongView, Source, SourceType, SourceTypeView, SourceView,
};
use crate::source::StringSource;
use crate::text::{string_of, text_is};
use crate::tokenizer::{
    decimal_of, lemma_tokens_from_positions, tokens_of, DecimalView, Number, NumberView, Punct, TimeUnit, Token, TokenType, TokenTypeView,
    TokenView, Tokenizer, TokenizerError,
};

verus! {

#[derive(Debug, PartialEq)]
pub enum ParserError {
    MissingName,
    MissingDuration,
    MissingChannels,
    TokenizerError(TokenizerError),
    Unexpected(TokenType),
    UnexpectedExact { expected: TokenType, found: TokenType },
    /// The input ended where the grammar needs more.
    UnexpectedEnd,
    /// A `)` closes an expression that holds no open `(`.
    UnmatchedParenthesis,
    Expression(ExpressionError),
}

pub ghost enum PErr {
    MissingName,
    MissingDuration,
    MissingChannels,
    Tokenizer(TokenizerError),
    Unexpected(TokenTypeView),
    UnexpectedExact { expected: TokenTypeView, found: TokenTypeView },
    UnexpectedEnd,
    UnmatchedParenthesis,
    Expression(ExprErrorView),
}

impl View for ParserError {
    type V = PErr;

    open spec fn view(&self) -> PErr {
        match self {
            ParserError::MissingName => PErr::MissingName,
            ParserError::MissingDuration => PErr::MissingDuration,
            ParserError::MissingChannels => PErr::MissingChannels,
            ParserError::TokenizerError(e) => PErr::Tokenizer(*e),
            ParserError::Unexpected(t) => PErr::Unexpected(t@),
            ParserError::UnexpectedExact { expected, found } => PErr::UnexpectedExact {
                expected: expected@,
                found: found@,
            },
            ParserError::UnexpectedEnd => PErr::UnexpectedEnd,
            ParserError::UnmatchedParenthesis => PErr::UnmatchedParenthesis,
            ParserError::Expression(e) => PErr::Expression(e@),
        }
    }
}

/// Whether an expression stops at a token, and whether that token is then
/// consumed.
#[derive(Clone, Copy, Debug, PartialEq, Eq, Structural)]
pub enum Terminate {
    Yes { discard_token: bool },
    No,
}

/// The unit word that may close an expression: `s` after the song's length,
/// `hz` (or `Hz`) after a frequency.
#[derive(Clone, Copy, Debug, PartialEq, Eq, Structural)]
pub enum ExprSuffix {
    Seconds,
    Hertz,
    Bare,
}

// ------------------------------------------------------------------
// The token stream
// ------------------------------------------------------------------

/// The tokens of a text, the error that ended them if any, and the text
/// itself (for the words of identifiers).
pub ghost struct Stream {
    pub text: Seq<char>,
    pub toks: Seq<TokenView>,
    pub tail: Option<TokenizerError>,
}

pub open spec fn stream_of(text: Seq<char>) -> Stream {
    Stream { text, toks: tokens_of(text).0, tail: tokens_of(text).1 }
}

pub ghost enum Read {
    Tok(TokenView),
    Fail(TokenizerError),
    Done,
}

pub open spec fn read(st: Stream, i: int) -> Read {
    if 0 <= i < st.toks.len() {
        Read::Tok(st.toks[i])
    } else {
        match st.tail {
            Some(e) => Read::Fail(e),
            None => Read::Done,
        }
    }
}

/// The error for a read that found no token.
pub open spec fn read_err(r: Read) -> PErr {
    match r {
        Read::Fail(e) => PErr::Tokenizer(e),
        _ => PErr::UnexpectedEnd,
    }
}

pub open spec fn word(st: Stream, t: TokenView) -> Seq<char> {
    st.text.subrange(t.position.start as int, t.position.end as int)
}

/// Whether token `i` is an identifier spelling `w`.
pub open spec fn is_word_at(st: Stream, i: int, w: Seq<char>) -> bool {
    read(st, i) matches Read::Tok(t) && t.t_type == TokenTypeView::Identifier && word(st, t) == w
}

/// Token `i` must have type `ty`; the index after it.
pub open spec fn expect_p(st: Stream, i: int, ty: TokenTypeView) -> Result<int, PErr> {
    match read(st, i) {
        Read::Tok(t) => if t.t_type == ty {
            Ok(i + 1)
        } else {
            Err(PErr::UnexpectedExact { expected: ty, found: t.t_type })
        },
        r => Err(read_err(r)),
    }
}

// ------------------------------------------------------------------
// Expressions
// ------------------------------------------------------------------

pub open spec fn op_of(t: TokenTypeView) -> Option<BinOp> {
    match t {
        TokenTypeView::Punct(Punct::Plus) => Some(BinOp::Add),
        TokenTypeView::Punct(Punct::Minus) => Some(BinOp::Sub),
        TokenTypeView::Punct(Punct::Star) => Some(BinOp::Mul),
        TokenTypeView::Punct(Punct::Slash) => Some(BinOp::Div),
        TokenTypeView::Punct(Punct::Percent) => Some(BinOp::Mod),
        TokenTypeView::Punct(Punct::Caret) => Some(BinOp::Pow),
        _ => None,
    }
}

/// An expression from token `i` whose operators all bind at least as tightly
/// as `min`; the tree and the index after it.
pub open spec fn expr_p(st: Stream, i: int, min: nat) -> Result<(ExprView, int), PErr>
    decreases st.toks.len() - i, 2nat,
{
    match operand_p(st, i) {
        Ok((lhs, j)) => if i < j <= st.toks.len() {
            climb_p(st, lhs, j, min)
        } else {
            Err(PErr::UnexpectedEnd)
        },
        Err(e) => Err(e),
    }
}

/// Extends `lhs` with the operators from token `j` on that bind at least as
/// tightly as `min`, each with its right operand.
pub open spec fn climb_p(st: Stream, lhs: ExprView, j: int, min: nat) -> Result<(ExprView, int), PErr>
    decreases st.toks.len() - j, 0nat,
{
    match read(st, j) {
        Read::Tok(t) => match op_of(t.t_type) {
            Some(op) => if precedence(op) >= min && j < st.toks.len() {
                match expr_p(st, j + 1, rhs_min(op)) {
                    Ok((rhs, k)) => if j < k <= st.toks.len() {
                        climb_p(st, bin_view(op, lhs, rhs), k, min)
                    } else {
                        Err(PErr::UnexpectedEnd)
                    },
                    Err(e) => Err(e),
                }
            } else {
                Ok((lhs, j))
            },
            None => Ok((lhs, j)),
        },
        _ => Ok((lhs, j)),
    }
}

/// A parenthesized expression whose `(` is token `i - 1`.
pub open spec fn group_p(st: Stream, i: int) -> Result<(ExprView, int), PErr>
    decreases st.toks.len() - i, 3nat,
{
    if 0 < i <= st.toks.len() {
        match expr_p(st, i, 1) {
            Ok((e, j)) => match expect_p(st, j, TokenTypeView::Punct(Punct::RightParenthesis)) {
                Ok(k) => Ok((e, k)),
                Err(x) => Err(x),
            },
            Err(x) => Err(x),
        }
    } else {
        Err(PErr::UnexpectedEnd)
    }
}

/// One operand: a number, a name, a function applied to a parenthesized
/// expression, or a parenthesized expression.
pub open spec fn operand_p(st: Stream, i: int) -> Result<(ExprView, int), PErr>
    decreases st.toks.len() - i, 1nat,
{
    match read(st, i) {
        Read::Tok(t) => match t.t_type {
            TokenTypeView::NumberLiteral(n) => Ok((ExprView::Lit(n), i + 1)),
            TokenTypeView::Identifier => match func_of(word(st, t)) {
                Some(f) => match expect_p(st, i + 1, TokenTypeView::Punct(Punct::LeftParenthesis)) {
                    Ok(k) => if i + 2 <= st.toks.len() {
                        match group_p(st, i + 2) {
                            Ok((a, j)) => Ok((ExprView::Call(f, Box::new(a)), j)),
                            Err(x) => Err(x),
                        }
                    } else {
                        Err(PErr::UnexpectedEnd)
                    },
                    Err(x) => Err(x),
                },
                None => Ok((ExprView::Var(word(st, t)), i + 1)),
            },
            TokenTypeView::Punct(Punct::LeftParenthesis) => if i < st.toks.len() {
                group_p(st, i + 1)
            } else {
                Err(PErr::UnexpectedEnd)
            },
            other => Err(PErr::Unexpected(other)),
        },
        r => Err(read_err(r)),
    }
}

pub open spec fn suffix_words(sfx: ExprSuffix, w: Seq<char>) -> bool {
    match sfx {
        ExprSuffix::Seconds => w == "s"@,
        ExprSuffix::Hertz => w == "hz"@ || w == "Hz"@,
        ExprSuffix::Bare => false,
    }
}

/// Whether token `j` is the unit word that may close an expression.
pub open spec fn suffix_at(st: Stream, j: int, sfx: ExprSuffix) -> bool {
    read(st, j) matches Read::Tok(t) && t.t_type == TokenTypeView::Identifier && suffix_words(
        sfx,
        word(st, t),
    )
}

/// A whole expression from token `i`. A `)` right after it has no opener
/// and is an error. The unit word that may close it is consumed where
/// `discard` holds, and left to be read next otherwise.
pub open spec fn expression_p(st: Stream, i: int, sfx: ExprSuffix, discard: bool) -> Result<
    (ExprView, int),
    PErr,
> {
    match expr_p(st, i, 1) {
        Ok((e, j)) => if read(st, j) matches Read::Tok(t) && t.t_type == TokenTypeView::Punct(
            Punct::RightParenthesis,
        ) {
            Err(PErr::UnmatchedParenthesis)
        } else if suffix_at(st, j, sfx) && discard {
            Ok((e, j + 1))
        } else {
            Ok((e, j))
        },
        Err(x) => Err(x),
    }
}

// ------------------------------------------------------------------
// Songs, sources, effects
// ------------------------------------------------------------------

/// The value of a big-endian sequence of decimal digits.
pub open spec fn digits_value(d: Seq<u8>) -> nat
    decreases d.len(),
{
    if d.len() == 0 {
        0
    } else {
        digits_value(d.drop_last()) * 10 + d.last() as nat
    }
}

/// A channel clause at `i`: `on` and then a channel number or `*`.
pub open spec fn chan_p(st: Stream, i: int) -> Result<(ChannelsView, int), PErr> {
    match expect_p(st, i, TokenTypeView::OnKw) {
        Ok(j) => match read(st, j) {
            Read::Tok(t) => match t.t_type {
                TokenTypeView::NumberLiteral(NumberView::Integer(d)) => if digits_value(d)
                    <= usize::MAX {
                    Ok((ChannelsView::One(digits_value(d) as usize), j + 1))
                } else {
                    Err(PErr::Unexpected(t.t_type))
                },
                TokenTypeView::Punct(Punct::Star) => Ok((ChannelsView::All, j + 1)),
                other => Err(PErr::Unexpected(other)),
            },
            r => Err(read_err(r)),
        },
        Err(x) => Err(x),
    }
}

pub open spec fn unit_of(w: Seq<char>) -> Option<TimeUnit> {
    if w == "h"@ {
        Some(TimeUnit::Hours)
    } else if w == "m"@ {
        Some(TimeUnit::Minutes)
    } else if w == "s"@ {
        Some(TimeUnit::Seconds)
    } else if w == "ms"@ {
        Some(TimeUnit::Millis)
    } else if w == "ns"@ {
        Some(TimeUnit::Nanos)
    } else {
        None
    }
}

/// A window bound made of the number `n` and, from token `j`, an optional
/// unit word. A bare number is a fraction of the enclosing scope.
pub open spec fn bound_p(st: Stream, n: NumberView, j: int) -> Result<(BoundView, int), PErr> {
    match n {
        NumberView::Duration(d, u) => Ok((BoundView::Time(d, u), j)),
        NumberView::Frequency(_) => Err(PErr::Unexpected(TokenTypeView::NumberLiteral(n))),
        _ => match unit_at(st, j) {
            Some(u) => Ok((BoundView::Time(decimal_of(n), u), j + 1)),
            None => Ok((BoundView::Fraction(decimal_of(n)), j)),
        },
    }
}

/// The time unit that token `j` names, if it is an identifier naming one.
pub open spec fn unit_at(st: Stream, j: int) -> Option<TimeUnit> {
    match read(st, j) {
        Read::Tok(t) => if t.t_type == TokenTypeView::Identifier {
            unit_of(word(st, t))
        } else {
            None
        },
        _ => None,
    }
}

/// The end bound of a window from token `k`: the scope's end where no number stands.
pub open spec fn end_p(st: Stream, k: int) -> Result<(BoundView, int), PErr> {
    match read(st, k) {
        Read::Tok(t) => match t.t_type {
            TokenTypeView::NumberLiteral(n) => bound_p(st, n, k + 1),
            _ => Ok((scope_end(), k)),
        },
        _ => Ok((scope_end(), k)),
    }
}

/// A window `start:end` from token `i`; either bound may be left out.
pub open spec fn timeframe_p(st: Stream, i: int) -> Result<((BoundView, BoundView), int), PErr> {
    match read(st, i) {
        Read::Tok(t) => match t.t_type {
            TokenTypeView::NumberLiteral(n) => match bound_p(st, n, i + 1) {
                Ok((b, j)) => match expect_p(st, j, TokenTypeView::Punct(Punct::Colon)) {
                    Ok(k) => match end_p(st, k) {
                        Ok((e, m)) => Ok(((b, e), m)),
                        Err(x) => Err(x),
                    },
                    Err(x) => Err(x),
                },
                Err(x) => Err(x),
            },
            TokenTypeView::Punct(Punct::Colon) => match end_p(st, i + 1) {
                Ok((e, m)) => Ok(((scope_start(), e), m)),
                Err(x) => Err(x),
            },
            other => Err(PErr::Unexpected(other)),
        },
        r => Err(read_err(r)),
    }
}

pub open spec fn wave_of(w: Seq<char>) -> Option<PeriodicSource> {
    if w == "sin"@ || w == "sine"@ {
        Some(PeriodicSource::Sine)
    } else if w == "saw"@ {
        Some(PeriodicSource::Saw)
    } else if w == "tri"@ || w == "triangle"@ {
        Some(PeriodicSource::Triangle)
    } else if w == "square"@ {
        Some(PeriodicSource::Square)
    } else {
        None
    }
}

pub open spec fn effect_of(w: Seq<char>) -> Option<EffectType> {
    if w == "fade_in"@ {
        Some(EffectType::FadeIn)
    } else if w == "fade_out"@ {
        Some(EffectType::FadeOut)
    } else {
        None
    }
}

/// An effect: its name, then its window within the source.
pub open spec fn effect_p(st: Stream, i: int) -> Result<(EffectView, int), PErr> {
    match read(st, i) {
        Read::Tok(t) => if t.t_type == TokenTypeView::Identifier {
            match timeframe_p(st, i + 1) {
                Ok((w, j)) => match effect_of(word(st, t)) {
                    Some(k) => Ok((EffectView { ty: k, start: w.0, end: w.1 }, j)),
                    None => Err(PErr::Unexpected(TokenTypeView::Identifier)),
                },
                Err(x) => Err(x),
            }
        } else {
            Err(PErr::UnexpectedExact { expected: TokenTypeView::Identifier, found: t.t_type })
        },
        r => Err(read_err(r)),
    }
}

/// The effects of a block from token `i` up to and including its `}`.
pub open spec fn effects_p(st: Stream, i: int) -> Result<(Seq<EffectView>, int), PErr>
    decreases st.toks.len() - i,
{
    if read(st, i) matches Read::Tok(t) && t.t_type == TokenTypeView::Punct(
        Punct::RightCurlyBraces,
    ) {
        Ok((Seq::empty(), i + 1))
    } else {
        match effect_p(st, i) {
            Ok((e, j)) => if i < j <= st.toks.len() {
                match effects_p(st, j) {
                    Ok((rest, k)) => Ok((seq![e] + rest, k)),
                    Err(x) => Err(x),
                }
            } else {
                Err(PErr::UnexpectedEnd)
            },
            Err(x) => Err(x),
        }
    }
}

/// An optional effect block at `i`.
pub open spec fn block_p(st: Stream, i: int) -> Result<(Seq<EffectView>, int), PErr> {
    if read(st, i) matches Read::Tok(t) && t.t_type == TokenTypeView::Punct(
        Punct::LeftCurlyBraces,
    ) {
        effects_p(st, i + 1)
    } else {
        Ok((Seq::empty(), i))
    }
}

pub open spec fn zero_view() -> ExprView {
    ExprView::Lit(NumberView::Real(DecimalView { whole: seq![0u8], frac: Seq::empty() }))
}

/// A source from token `i`.
pub open spec fn source_p(st: Stream, i: int) -> Result<(SourceView, int), PErr> {
    match read(st, i) {
        Read::Tok(t) => if t.t_type != TokenTypeView::Identifier {
            Err(PErr::UnexpectedExact { expected: TokenTypeView::Identifier, found: t.t_type })
        } else {
            match expect_p(st, i + 1, TokenTypeView::Punct(Punct::LeftParenthesis)) {
                Err(x) => Err(x),
                Ok(j0) => match wave_of(word(st, t)) {
                    None => Err(PErr::Unexpected(TokenTypeView::Identifier)),
                    Some(kind) => match expression_p(st, j0, ExprSuffix::Hertz, true) {
                        Err(x) => Err(x),
                        Ok((freq, j1)) => match expect_p(st, j1, TokenTypeView::Punct(Punct::Comma)) {
                            Err(x) => Err(x),
                            Ok(j2) => match timeframe_p(st, j2) {
                                Err(x) => Err(x),
                                Ok((w, j3)) => match expect_p(
                                    st,
                                    j3,
                                    TokenTypeView::Punct(Punct::RightParenthesis),
                                ) {
                                    Err(x) => Err(x),
                                    Ok(j4) => match chan_p(st, j4) {
                                        Err(x) => Err(x),
                                        Ok((ch, j5)) => match expect_p(
                                            st,
                                            j5,
                                            TokenTypeView::Punct(Punct::AtSign),
                                        ) {
                                            Err(x) => Err(x),
                                            Ok(j6) => match expression_p(st, j6, ExprSuffix::Bare, true) {
                                                Err(x) => Err(x),
                                                Ok((vol, j7)) => match block_p(st, j7) {
                                                    Err(x) => Err(x),
                                                    Ok((effs, j8)) => Ok(
                                                        (
                                                            SourceView {
                                                                ty: SourceTypeView {
                                                                    freq,
                                                                    phase: zero_view(),
                                                                    ty: kind,
                                                                },
                                                                start: w.0,
                                                                end: w.1,
                                                                volume: vol,
                                                                channels: ch,
                                                                effects: effs,
                                                            },
                                                            j8,
                                                        ),
                                                    ),
                                                },
                                            },
                                        },
                                    },
                                },
                            },
                        },
                    },
                },
            }
        },
        r => Err(read_err(r)),
    }
}

/// The sources from token `i` to the end of the input.
pub open spec fn sources_p(st: Stream, i: int) -> Result<Seq<SourceView>, PErr>
    decreases st.toks.len() - i,
{
    if read(st, i) is Done {
        Ok(Seq::empty())
    } else {
        match source_p(st, i) {
            Ok((src, j)) => if i < j <= st.toks.len() {
                match sources_p(st, j) {
                    Ok(rest) => Ok(seq![src] + rest),
                    Err(x) => Err(x),
                }
            } else {
                Err(PErr::UnexpectedEnd)
            },
            Err(x) => Err(x),
        }
    }
}

pub open spec fn starts_operand(r: Read) -> bool {
    r matches Read::Tok(t) && (t.t_type is NumberLiteral || t.t_type == TokenTypeView::Identifier
        || t.t_type == TokenTypeView::Punct(Punct::LeftParenthesis))
}

/// The song's channel clause at `j`: `on` and a channel count.
pub open spec fn song_chan_p(st: Stream, j: int) -> Result<(usize, int), PErr> {
    match read(st, j) {
        Read::Tok(t) => if t.t_type == TokenTypeView::OnKw {
            match chan_p(st, j) {
                Ok((ChannelsView::One(n), k)) => Ok((n, k)),
                Ok(_) => Err(PErr::MissingChannels),
                Err(x) => Err(x),
            }
        } else {
            Err(PErr::MissingChannels)
        },
        Read::Fail(e) => Err(PErr::Tokenizer(e)),
        Read::Done => Err(PErr::MissingChannels),
    }
}

/// A whole song. Its length must evaluate without a generation context.
pub open spec fn song_p(st: Stream) -> Result<SongView, PErr> {
    match read(st, 0) {
        Read::Tok(t) => match t.t_type {
            TokenTypeView::StringLiteral(name) => if !starts_operand(read(st, 1)) {
                match read(st, 1) {
                    Read::Fail(e) => Err(PErr::Tokenizer(e)),
                    _ => Err(PErr::MissingDuration),
                }
            } else {
                match expression_p(st, 1, ExprSuffix::Seconds, true) {
                    Err(x) => Err(x),
                    Ok((len, j)) => match check_spec(len, false) {
                        Err(x) => Err(PErr::Expression(x)),
                        Ok(_) => match song_chan_p(st, j) {
                            Err(x) => Err(x),
                            Ok((n, k)) => match sources_p(st, k) {
                                Err(x) => Err(x),
                                Ok(srcs) => Ok(
                                    SongView { name, channels: n, length: len, sources: srcs },
                                ),
                            },
                        },
                    },
                }
            },
            _ => Err(PErr::MissingName),
        },
        Read::Fail(e) => Err(PErr::Tokenizer(e)),
        Read::Done => Err(PErr::MissingName),
    }
}

/// The song a text describes, or the first error in it.
pub open spec fn parse_spec(text: Seq<char>) -> Result<SongView, PErr> {
    song_p(stream_of(text))
}

// ------------------------------------------------------------------
// The parser
// ------------------------------------------------------------------

/// An executable result against its spec counterpart.
pub open spec fn res_as<T: View>(r: Result<(T, usize), ParserError>, s: Result<(T::V, int), PErr>) -> bool {
    match s {
        Ok((v, j)) => r matches Ok((x, jj)) && x@ == v && jj == j,
        Err(e) => r matches Err(y) && y@ == e,
    }
}

pub open spec fn idx_as(r: Result<usize, ParserError>, s: Result<int, PErr>) -> bool {
    match s {
        Ok(j) => r matches Ok(jj) && jj == j,
        Err(e) => r matches Err(y) && y@ == e,
    }
}

pub fn copy_type(t: &TokenType) -> (r: TokenType)
    ensures
        r@ == t@,
{
    match t {
        TokenType::Identifier => TokenType::Identifier,
        TokenType::Whitespace => TokenType::Whitespace,
        TokenType::NumberLiteral(n) => TokenType::NumberLiteral(n.copy()),
        TokenType::StringLiteral(s) => TokenType::StringLiteral(s.clone()),
        TokenType::CharLiteral(c) => TokenType::CharLiteral(*c),
        TokenType::SingleLineComment => TokenType::SingleLineComment,
        TokenType::MultiLineComment => TokenType::MultiLineComment,
        TokenType::OnKw => TokenType::OnKw,
        TokenType::FromKw => TokenType::FromKw,
        TokenType::ToKw => TokenType::ToKw,
        TokenType::Underscore => TokenType::Underscore,
        TokenType::Punct(p) => TokenType::Punct(*p),
    }
}

/// Whether `t` is of the plain kind `ty` (an identifier, `on`, or punctuation).
fn kind_is(t: &TokenType, ty: &TokenType) -> (r: bool)
    requires
        ty is Identifier || ty is OnKw || ty is Punct,
    ensures
        r == (t@ == ty@),
{
    match (t, ty) {
        (TokenType::Identifier, TokenType::Identifier) => true,
        (TokenType::OnKw, TokenType::OnKw) => true,
        (TokenType::Punct(a), TokenType::Punct(b)) => *a == *b,
        _ => false,
    }
}

fn op_exec(t: &TokenType) -> (r: Option<BinOp>)
    ensures
        r == op_of(t@),
{
    match t {
        TokenType::Punct(Punct::Plus) => Some(BinOp::Add),
        TokenType::Punct(Punct::Minus) => Some(BinOp::Sub),
        TokenType::Punct(Punct::Star) => Some(BinOp::Mul),
        TokenType::Punct(Punct::Slash) => Some(BinOp::Div),
        TokenType::Punct(Punct::Percent) => Some(BinOp::Mod),
        TokenType::Punct(Punct::Caret) => Some(BinOp::Pow),
        _ => None,
    }
}

fn precedence_exec(op: BinOp) -> (r: u8)
    ensures
        r as nat == precedence(op),
{
    match op {
        BinOp::Add | BinOp::Sub => 1,
        BinOp::Mul | BinOp::Div | BinOp::Mod => 2,
        BinOp::Pow => 3,
    }
}

fn rhs_min_exec(op: BinOp) -> (r: u8)
    ensures
        r as nat == rhs_min(op),
{
    match op {
        BinOp::Pow => 3,
        _ => precedence_exec(op) + 1,
    }
}

/// Parses a song from its tokens.
pub struct Parser {
    source: StringSource,
    tokens: Vec<Token>,
    tail: Option<TokenizerError>,
}

impl Parser {
    pub closed spec fn stream(&self) -> Stream {
        Stream {
            text: self.source@,
            toks: self.tokens@.map_values(|t: Token| t@),
            tail: self.tail,
        }
    }

    pub closed spec fn wf(&self) -> bool {
        &&& self.source@.len() <= usize::MAX
        &&& self.tokens@.len() <= usize::MAX
        &&& forall|k: int|
            0 <= k < self.tokens@.len() ==> (#[trigger] self.tokens@[k]).position.start
                <= self.tokens@[k].position.end <= self.source@.len()
    }

    /// Reads all the tokens of a fresh tokenizer.
    pub fn new(tokenizer: Tokenizer) -> (r: Self)
        requires
            tokenizer.wf(),
            tokenizer.pos_spec() == 0,
            !tokenizer.emit_whitespace_spec(),
        ensures
            r.wf(),
            r.stream() == stream_of(tokenizer.text()),
    {
        let mut tokenizer = tokenizer;
        let (tokens, tail) = tokenizer.tokenize_all();
        let source = tokenizer.into_source();
        let _ = source.len();
        let _ = tokens.len();
        proof {
            lemma_tokens_from_positions(source@, 0);
            assert forall|k: int| 0 <= k < tokens@.len() implies (#[trigger] tokens@[k]).position.start
                <= tokens@[k].position.end <= source@.len() by {
                assert(tokens@.map_values(|t: Token| t@)[k] == tokens@[k]@);
            }
        }
        Parser { source, tokens, tail }
    }

    /// Token `i`, the error that ended the tokens, or the end of the input.
    fn get_token(&self, i: usize) -> (r: ParserResult<&Token, ParserError>)
        requires
            self.wf(),
        ensures
            match read(self.stream(), i as int) {
                Read::Tok(tv) => r matches ParserResult::Value(t) && t@ == tv && t.position.start
                    <= t.position.end <= self.source@.len() && i < self.tokens@.len(),
                Read::Fail(e) => r matches ParserResult::Error(x) && x@ == PErr::Tokenizer(e),
                Read::Done => r is Done,
            },
    {
        if i < self.tokens.len() {
            ParserResult::Value(&self.tokens[i])
        } else {
            match self.tail {
                Some(e) => ParserResult::Error(ParserError::TokenizerError(e)),
                None => ParserResult::Done,
            }
        }
    }

    fn word_of(&self, t: &Token) -> (r: Vec<char>)
        requires
            t.position.start <= t.position.end <= self.source@.len(),
        ensures
            r@ == word(self.stream(), t@),
    {
        crate::text::slice_chars(self.source.chars_ref(), t.position.start, t.position.end)
    }

    /// Token `i` must be of kind `ty`; the index after it.
    fn expect(&self, i: usize, ty: TokenType) -> (r: Result<usize, ParserError>)
        requires
            self.wf(),
            ty is Identifier || ty is OnKw || ty is Punct,
        ensures
            idx_as(r, expect_p(self.stream(), i as int, ty@)),
            r matches Ok(j) ==> j == i + 1 && i < self.tokens@.len(),
    {
        match self.get_token(i) {
            ParserResult::Value(t) => {
                if kind_is(&t.t_type, &ty) {
                    Ok(i + 1)
                } else {
                    Err(ParserError::UnexpectedExact { expected: ty, found: copy_type(&t.t_type) })
                }
            },
            ParserResult::Error(e) => Err(e),
            ParserResult::Done => Err(ParserError::UnexpectedEnd),
        }
    }

    fn parse_group(&self, i: usize) -> (r: Result<(Expression, usize), ParserError>)
        requires
            self.wf(),
            0 < i <= self.tokens@.len(),
        ensures
            res_as(r, group_p(self.stream(), i as int)),
            r matches Ok((_, j)) ==> i < j <= self.tokens@.len(),
        decreases self.tokens@.len() - i, 3nat,
    {
        match self.parse_expr(i, 1) {
            Ok((e, j)) => match self.expect(j, TokenType::Punct(Punct::RightParenthesis)) {
                Ok(k) => Ok((e, k)),
                Err(x) => Err(x),
            },
            Err(x) => Err(x),
        }
    }

    fn parse_operand(&self, i: usize) -> (r: Result<(Expression, usize), ParserError>)
        requires
            self.wf(),
            i <= self.tokens@.len(),
        ensures
            res_as(r, operand_p(self.stream(), i as int)),
            r matches Ok((_, j)) ==> i < j <= self.tokens@.len(),
        decreases self.tokens@.len() - i, 1nat,
    {
        match self.get_token(i) {
            ParserResult::Value(t) => match &t.t_type {
                TokenType::NumberLiteral(n) => Ok((Expression::Lit(n.copy()), i + 1)),
                TokenType::Identifier => {
                    let w = self.word_of(t);
                    match MathFunc::from_name(w.as_slice()) {
                        Some(f) => match self.expect(i + 1, TokenType::Punct(Punct::LeftParenthesis)) {
                            Ok(_) => match self.parse_group(i + 2) {
                                Ok((a, j)) => Ok((Expression::Call(f, Box::new(a)), j)),
                                Err(x) => Err(x),
                            },
                            Err(x) => Err(x),
                        },
                        None => Ok((Expression::VarOrConst(string_of(w)), i + 1)),
                    }
                },
                TokenType::Punct(Punct::LeftParenthesis) => self.parse_group(i + 1),
                other => Err(ParserError::Unexpected(copy_type(other))),
            },
            ParserResult::Error(e) => Err(e),
            ParserResult::Done => Err(ParserError::UnexpectedEnd),
        }
    }

    /// An expression whose operators all bind at least as tightly as `min`
    /// (precedence climbing: each operator takes as its right operand the
    /// longest run of tighter-binding operators after it).
    fn parse_expr(&self, i: usize, min: u8) -> (r: Result<(Expression, usize), ParserError>)
        requires
            self.wf(),
            i <= self.tokens@.len(),
        ensures
            res_as(r, expr_p(self.stream(), i as int, min as nat)),
            r matches Ok((_, j)) ==> i < j <= self.tokens@.len(),
        decreases self.tokens@.len() - i, 2nat,
    {
        let ghost st = self.stream();
        match self.parse_operand(i) {
            Err(x) => Err(x),
            Ok((lhs0, j0)) => {
                let mut lhs = lhs0;
                let mut j = j0;
                loop
                    invariant
                        self.wf(),
                        st == self.stream(),
                        i < j <= self.tokens@.len(),
                        expr_p(st, i as int, min as nat) == climb_p(st, lhs@, j as int, min as nat),
                    decreases self.tokens@.len() - j,
                {
                    let op = match self.get_token(j) {
                        ParserResult::Value(t) => op_exec(&t.t_type),
                        _ => None,
                    };
                    match op {
                        Some(op) => {
                            if precedence_exec(op) >= min {
                                match self.parse_expr(j + 1, rhs_min_exec(op)) {
                                    Ok((rhs, k)) => {
                                        lhs = Expression::binary(op, lhs, rhs);
                                        j = k;
                                    },
                                    Err(x) => {
                                        return Err(x);
                                    },
                                }
                            } else {
                                return Ok((lhs, j));
                            }
                        },
                        None => {
                            return Ok((lhs, j));
                        },
                    }
                }
            },
        }
    }

    /// Whether the expression ending before token `j` is closed there by the
    /// unit word `sfx` names, and whether that word is then consumed.
    pub fn terminate(&self, j: usize, sfx: ExprSuffix, discard: bool) -> (r: Terminate)
        requires
            self.wf(),
        ensures
            r == (if suffix_at(self.stream(), j as int, sfx) {
                Terminate::Yes { discard_token: discard }
            } else {
                Terminate::No
            }),
    {
        match self.get_token(j) {
            ParserResult::Value(t) => match t.t_type {
                TokenType::Identifier => {
                    let w = self.word_of(t);
                    let hit = match sfx {
                        ExprSuffix::Seconds => text_is(w.as_slice(), "s"),
                        ExprSuffix::Hertz => text_is(w.as_slice(), "hz") || text_is(
                            w.as_slice(),
                            "Hz",
                        ),
                        ExprSuffix::Bare => false,
                    };
                    if hit {
                        Terminate::Yes { discard_token: discard }
                    } else {
                        Terminate::No
                    }
                },
                _ => Terminate::No,
            },
            _ => Terminate::No,
        }
    }

    /// A whole expression from token `i`. A `)` right after it is an
    /// unmatched parenthesis; the unit word `sfx` names, right after it, is
    /// consumed where `discard` holds and left to be read next otherwise.
    pub fn parse_expression(&self, i: usize, sfx: ExprSuffix, discard: bool) -> (r: Result<
        (Expression, usize),
        ParserError,
    >)
        requires
            self.wf(),
            i <= self.stream().toks.len(),
        ensures
            res_as(r, expression_p(self.stream(), i as int, sfx, discard)),
            r matches Ok((_, j)) ==> i < j <= self.stream().toks.len(),
    {
        match self.parse_expr(i, 1) {
            Ok((e, j)) => if self.is_punct_at(j, Punct::RightParenthesis) {
                Err(ParserError::UnmatchedParenthesis)
            } else {
                match self.terminate(j, sfx, discard) {
                    Terminate::Yes { discard_token: true } => Ok((e, j + 1)),
                    _ => Ok((e, j)),
                }
            },
            Err(x) => Err(x),
        }
    }
}

proof fn lemma_digits_prefix(d: Seq<u8>, k: int)
    requires
        0 <= k < d.len(),
    ensures
        digits_value(d.subrange(0, k + 1)) == digits_value(d.subrange(0, k)) * 10 + d[k] as nat,
{
    assert(d.subrange(0, k + 1).drop_last() =~= d.subrange(0, k));
}

proof fn lemma_digits_mono(d: Seq<u8>, k: int)
    requires
        0 <= k <= d.len(),
    ensures
        digits_value(d.subrange(0, k)) <= digits_value(d),
    decreases d.len() - k,
{
    if k == d.len() {
        assert(d.subrange(0, k) =~= d);
    } else {
        lemma_digits_prefix(d, k);
        lemma_digits_mono(d, k + 1);
    }
}

/// The value of a digit sequence, where it fits in a `usize`.
pub fn digits_to_usize(d: &Vec<u8>) -> (r: Option<usize>)
    ensures
        digits_value(d@) <= usize::MAX ==> r == Some(digits_value(d@) as usize),
        digits_value(d@) > usize::MAX ==> r is None,
{
    let mut acc: usize = 0;
    let mut i: usize = 0;
    assert(d@.subrange(0, 0) =~= Seq::<u8>::empty());
    while i < d.len()
        invariant
            i <= d@.len(),
            acc as nat == digits_value(d@.subrange(0, i as int)),
        decreases d@.len() - i,
    {
        proof {
            lemma_digits_prefix(d@, i as int);
        }
        match acc.checked_mul(10) {
            None => {
                proof {
                    lemma_digits_mono(d@, i + 1);
                }
                return None;
            },
            Some(m) => match m.checked_add(d[i] as usize) {
                None => {
                    proof {
                        lemma_digits_mono(d@, i + 1);
                    }
                    return None;
                },
                Some(v) => {
                    acc = v;
                },
            },
        }
        i = i + 1;
    }
    assert(d@.subrange(0, d@.len() as int) =~= d@);
    Some(acc)
}

fn unit_exec(w: &[char]) -> (r: Option<TimeUnit>)
    ensures
        r == unit_of(w@),
{
    if text_is(w, "h") {
        Some(TimeUnit::Hours)
    } else if text_is(w, "m") {
        Some(TimeUnit::Minutes)
    } else if text_is(w, "s") {
        Some(TimeUnit::Seconds)
    } else if text_is(w, "ms") {
        Some(TimeUnit::Millis)
    } else if text_is(w, "ns") {
        Some(TimeUnit::Nanos)
    } else {
        None
    }
}

fn wave_exec(w: &[char]) -> (r: Option<PeriodicSource>)
    ensures
        r == wave_of(w@),
{
    if text_is(w, "sin") || text_is(w, "sine") {
        Some(PeriodicSource::Sine)
    } else if text_is(w, "saw") {
        Some(PeriodicSource::Saw)
    } else if text_is(w, "tri") || text_is(w, "triangle") {
        Some(PeriodicSource::Triangle)
    } else if text_is(w, "square") {
        Some(PeriodicSource::Square)
    } else {
        None
    }
}

fn effect_exec(w: &[char]) -> (r: Option<EffectType>)
    ensures
        r == effect_of(w@),
{
    if text_is(w, "fade_in") {
        Some(EffectType::FadeIn)
    } else if text_is(w, "fade_out") {
        Some(EffectType::FadeOut)
    } else {
        None
    }
}

pub open spec fn effects_as(r: Result<(Vec<Effect>, usize), ParserError>, s: Result<(Seq<EffectView>, int), PErr>) -> bool {
    match s {
        Ok((v, j)) => r matches Ok((x, jj)) && x@.map_values(|e: Effect| e@) == v && jj == j,
        Err(e) => r matches Err(y) && y@ == e,
    }
}

impl Parser {
    fn parse_chan(&self, i: usize) -> (r: Result<(Channels, usize), ParserError>)
        requires
            self.wf(),
        ensures
            res_as(r, chan_p(self.stream(), i as int)),
            r matches Ok((_, j)) ==> i < j <= self.tokens@.len(),
    {
        match self.expect(i, TokenType::OnKw) {
            Ok(j) => match self.get_token(j) {
                ParserResult::Value(t) => match &t.t_type {
                    TokenType::NumberLiteral(Number::Integer(d)) => match digits_to_usize(d) {
                        Some(n) => Ok((Channels::One(n), j + 1)),
                        None => Err(ParserError::Unexpected(copy_type(&t.t_type))),
                    },
                    TokenType::Punct(Punct::Star) => Ok((Channels::All, j + 1)),
                    other => Err(ParserError::Unexpected(copy_type(other))),
                },
                ParserResult::Error(e) => Err(e),
                ParserResult::Done => Err(ParserError::UnexpectedEnd),
            },
            Err(x) => Err(x),
        }
    }

    fn unit_at(&self, j: usize) -> (r: Option<TimeUnit>)
        requires
            self.wf(),
        ensures
            r == unit_at(self.stream(), j as int),
            r is Some ==> j < self.tokens@.len(),
    {
        match self.get_token(j) {
            ParserResult::Value(t) => match t.t_type {
                TokenType::Identifier => {
                    let w = self.word_of(t);
                    unit_exec(w.as_slice())
                },
                _ => None,
            },
            _ => None,
        }
    }

    fn parse_bound(&self, n: &Number, j: usize) -> (r: Result<(Bound, usize), ParserError>)
        requires
            self.wf(),
            j <= self.tokens@.len(),
        ensures
            res_as(r, bound_p(self.stream(), n@, j as int)),
            r matches Ok((_, k)) ==> j <= k <= self.tokens@.len(),
    {
        match n {
            Number::Duration(d, u) => Ok((Bound::Time(d.copy(), *u), j)),
            Number::Frequency(_) => Err(ParserError::Unexpected(TokenType::NumberLiteral(n.copy()))),
            Number::Integer(w) => {
                let d = crate::tokenizer::Decimal { whole: crate::expr::copy_digits(w), frac: Vec::new() };
                assert(d@ == decimal_of(n@));
                match self.unit_at(j) {
                    Some(u) => Ok((Bound::Time(d, u), j + 1)),
                    None => Ok((Bound::Fraction(d), j)),
                }
            },
            Number::Real(d) => match self.unit_at(j) {
                Some(u) => Ok((Bound::Time(d.copy(), u), j + 1)),
                None => Ok((Bound::Fraction(d.copy()), j)),
            },
        }
    }

    fn scope_bound(whole: u8) -> (r: Bound)
        ensures
            r@ == BoundView::Fraction(DecimalView { whole: seq![whole], frac: Seq::empty() }),
    {
        Bound::Fraction(crate::tokenizer::Decimal::digit(whole))
    }

    fn parse_end(&self, k: usize) -> (r: Result<(Bound, usize), ParserError>)
        requires
            self.wf(),
            k <= self.tokens@.len(),
        ensures
            res_as(r, end_p(self.stream(), k as int)),
            r matches Ok((_, m)) ==> k <= m <= self.tokens@.len(),
    {
        match self.get_token(k) {
            ParserResult::Value(t) => match &t.t_type {
                TokenType::NumberLiteral(n) => self.parse_bound(n, k + 1),
                _ => Ok((Parser::scope_bound(1), k)),
            },
            _ => Ok((Parser::scope_bound(1), k)),
        }
    }

    /// A window `start:end`; a bound left out is the scope's start or end.
    pub fn parse_timeframe(&self, i: usize) -> (r: Result<((Bound, Bound), usize), ParserError>)
        requires
            self.wf(),
        ensures
            res_as(r, timeframe_p(self.stream(), i as int)),
            r matches Ok((_, m)) ==> i < m <= self.stream().toks.len(),
    {
        match self.get_token(i) {
            ParserResult::Value(t) => match &t.t_type {
                TokenType::NumberLiteral(n) => match self.parse_bound(n, i + 1) {
                    Ok((b, j)) => match self.expect(j, TokenType::Punct(Punct::Colon)) {
                        Ok(k) => match self.parse_end(k) {
                            Ok((e, m)) => Ok(((b, e), m)),
                            Err(x) => Err(x),
                        },
                        Err(x) => Err(x),
                    },
                    Err(x) => Err(x),
                },
                TokenType::Punct(Punct::Colon) => match self.parse_end(i + 1) {
                    Ok((e, m)) => Ok(((Parser::scope_bound(0), e), m)),
                    Err(x) => Err(x),
                },
                other => Err(ParserError::Unexpected(copy_type(other))),
            },
            ParserResult::Error(e) => Err(e),
            ParserResult::Done => Err(ParserError::UnexpectedEnd),
        }
    }

    fn parse_effect(&self, i: usize) -> (r: Result<(Effect, usize), ParserError>)
        requires
            self.wf(),
        ensures
            res_as(r, effect_p(self.stream(), i as int)),
            r matches Ok((_, m)) ==> i < m <= self.tokens@.len(),
    {
        match self.get_token(i) {
            ParserResult::Value(t) => match t.t_type {
                TokenType::Identifier => match self.parse_timeframe(i + 1) {
                    Ok(((a, b), j)) => {
                        let w = self.word_of(t);
                        match effect_exec(w.as_slice()) {
                            Some(k) => Ok((Effect { ty: k, start: a, end: b }, j)),
                            None => Err(ParserError::Unexpected(TokenType::Identifier)),
                        }
                    },
                    Err(x) => Err(x),
                },
                _ => Err(
                    ParserError::UnexpectedExact {
                        expected: TokenType::Identifier,
                        found: copy_type(&t.t_type),
                    },
                ),
            },
            ParserResult::Error(e) => Err(e),
            ParserResult::Done => Err(ParserError::UnexpectedEnd),
        }
    }

    fn is_punct_at(&self, i: usize, p: Punct) -> (r: bool)
        requires
            self.wf(),
        ensures
            r == (read(self.stream(), i as int) matches Read::Tok(t) && t.t_type
                == TokenTypeView::Punct(p)),
            r ==> i < self.tokens@.len(),
    {
        match self.get_token(i) {
            ParserResult::Value(t) => kind_is(&t.t_type, &TokenType::Punct(p)),
            _ => false,
        }
    }

    /// The effects of a block whose `{` is token `i - 1`, through its `}`.
    fn parse_effects(&self, i: usize) -> (r: Result<(Vec<Effect>, usize), ParserError>)
        requires
            self.wf(),
            i <= self.tokens@.len(),
        ensures
            effects_as(r, effects_p(self.stream(), i as int)),
            r matches Ok((_, m)) ==> i < m <= self.tokens@.len(),
    {
        let ghost st = self.stream();
        let mut acc: Vec<Effect> = Vec::new();
        let mut j = i;
        loop
            invariant
                self.wf(),
                st == self.stream(),
                i <= j <= self.tokens@.len(),
                effects_p(st, i as int) == match effects_p(st, j as int) {
                    Ok((rest, k)) => Ok((acc@.map_values(|e: Effect| e@) + rest, k)),
                    Err(x) => Err::<(Seq<EffectView>, int), PErr>(x),
                },
            decreases self.tokens@.len() - j,
        {
            if self.is_punct_at(j, Punct::RightCurlyBraces) {
                assert(acc@.map_values(|e: Effect| e@) + Seq::<EffectView>::empty() =~= acc@.map_values(|e: Effect| e@));
                return Ok((acc, j + 1));
            }
            match self.parse_effect(j) {
                Ok((e, k)) => {
                    let ghost before = acc@.map_values(|e: Effect| e@);
                    proof {
                        match effects_p(st, k as int) {
                            Ok((rest, m)) => {
                                assert(before + (seq![e@] + rest) =~= before.push(e@) + rest);
                            },
                            Err(_) => {},
                        }
                    }
                    acc.push(e);
                    assert(acc@.map_values(|e: Effect| e@) =~= before.push(e@));
                    j = k;
                },
                Err(x) => {
                    return Err(x);
                },
            }
        }
    }

    fn parse_block(&self, i: usize) -> (r: Result<(Vec<Effect>, usize), ParserError>)
        requires
            self.wf(),
            i <= self.tokens@.len(),
        ensures
            effects_as(r, block_p(self.stream(), i as int)),
            r matches Ok((_, m)) ==> i <= m <= self.tokens@.len(),
    {
        if self.is_punct_at(i, Punct::LeftCurlyBraces) {
            self.parse_effects(i + 1)
        } else {
            let v: Vec<Effect> = Vec::new();
            assert(v@.map_values(|e: Effect| e@) =~= Seq::<EffectView>::empty());
            Ok((v, i))
        }
    }
}

pub open spec fn sources_as(r: Result<Vec<Source>, ParserError>, s: Result<Seq<SourceView>, PErr>) -> bool {
    match s {
        Ok(v) => r matches Ok(x) && x@.map_values(|e: Source| e@) == v,
        Err(e) => r matches Err(y) && y@ == e,
    }
}

/// The outcome of parsing against the grammar.
pub open spec fn song_as(r: Result<Song, ParserError>, s: Result<SongView, PErr>) -> bool {
    match s {
        Ok(v) => r matches Ok(x) && x@ == v,
        Err(e) => r matches Err(y) && y@ == e,
    }
}

impl Parser {
    /// One source: waveform, frequency, window, channels, volume and effects.
    fn parse_source(&self, i: usize) -> (r: Result<(Source, usize), ParserError>)
        requires
            self.wf(),
        ensures
            res_as(r, source_p(self.stream(), i as int)),
            r matches Ok((_, m)) ==> i < m <= self.tokens@.len(),
    {
        let t = match self.get_token(i) {
            ParserResult::Value(t) => t,
            ParserResult::Error(e) => {
                return Err(e);
            },
            ParserResult::Done => {
                return Err(ParserError::UnexpectedEnd);
            },
        };
        if !kind_is(&t.t_type, &TokenType::Identifier) {
            return Err(
                ParserError::UnexpectedExact {
                    expected: TokenType::Identifier,
                    found: copy_type(&t.t_type),
                },
            );
        }
        let j0 = match self.expect(i + 1, TokenType::Punct(Punct::LeftParenthesis)) {
            Ok(j) => j,
            Err(x) => {
                return Err(x);
            },
        };
        let w = self.word_of(t);
        let kind = match wave_exec(w.as_slice()) {
            Some(k) => k,
            None => {
                return Err(ParserError::Unexpected(TokenType::Identifier));
            },
        };
        let (freq, j1) = match self.parse_expression(j0, ExprSuffix::Hertz, true) {
            Ok(x) => x,
            Err(x) => {
                return Err(x);
            },
        };
        let j2 = match self.expect(j1, TokenType::Punct(Punct::Comma)) {
            Ok(j) => j,
            Err(x) => {
                return Err(x);
            },
        };
        let ((start, end), j3) = match self.parse_timeframe(j2) {
            Ok(x) => x,
            Err(x) => {
                return Err(x);
            },
        };
        let j4 = match self.expect(j3, TokenType::Punct(Punct::RightParenthesis)) {
            Ok(j) => j,
            Err(x) => {
                return Err(x);
            },
        };
        let (channels, j5) = match self.parse_chan(j4) {
            Ok(x) => x,
            Err(x) => {
                return Err(x);
            },
        };
        let (volume, j7) = match self.parse_vol(j5) {
            Ok(x) => x,
            Err(x) => {
                return Err(x);
            },
        };
        let (effects, j8) = match self.parse_block(j7) {
            Ok(x) => x,
            Err(x) => {
                return Err(x);
            },
        };
        let ty = SourceType::Periodic { freq, phase: Expression::zero(), ty: kind };
        Ok((Source { ty, start, end, volume, channels, effects }, j8))
    }

    /// A volume clause: `@` and an expression.
    fn parse_vol(&self, i: usize) -> (r: Result<(Expression, usize), ParserError>)
        requires
            self.wf(),
        ensures
            match expect_p(self.stream(), i as int, TokenTypeView::Punct(Punct::AtSign)) {
                Ok(j) => res_as(r, expression_p(self.stream(), j, ExprSuffix::Bare, true)),
                Err(x) => r matches Err(y) && y@ == x,
            },
            r matches Ok((_, m)) ==> i < m <= self.tokens@.len(),
    {
        match self.expect(i, TokenType::Punct(Punct::AtSign)) {
            Ok(j) => self.parse_expression(j, ExprSuffix::Bare, true),
            Err(x) => Err(x),
        }
    }

    fn parse_sources(&self, i: usize) -> (r: Result<Vec<Source>, ParserError>)
        requires
            self.wf(),
            i <= self.tokens@.len(),
        ensures
            sources_as(r, sources_p(self.stream(), i as int)),
    {
        let ghost st = self.stream();
        let mut acc: Vec<Source> = Vec::new();
        let mut j = i;
        loop
            invariant
                self.wf(),
                st == self.stream(),
                i <= j <= self.tokens@.len(),
                sources_p(st, i as int) == match sources_p(st, j as int) {
                    Ok(rest) => Ok(acc@.map_values(|e: Source| e@) + rest),
                    Err(x) => Err::<Seq<SourceView>, PErr>(x),
                },
            decreases self.tokens@.len() - j,
        {
            if let ParserResult::Done = self.get_token(j) {
                assert(acc@.map_values(|e: Source| e@) + Seq::<SourceView>::empty() =~= acc@.map_values(|e: Source| e@));
                return Ok(acc);
            }
            match self.parse_source(j) {
                Ok((src, k)) => {
                    let ghost before = acc@.map_values(|e: Source| e@);
                    proof {
                        match sources_p(st, k as int) {
                            Ok(rest) => {
                                assert(before + (seq![src@] + rest) =~= before.push(src@) + rest);
                            },
                            Err(_) => {},
                        }
                    }
                    acc.push(src);
                    assert(acc@.map_values(|e: Source| e@) =~= before.push(src@));
                    j = k;
                },
                Err(x) => {
                    return Err(x);
                },
            }
        }
    }

    fn parse_song_chan(&self, j: usize) -> (r: Result<(usize, usize), ParserError>)
        requires
            self.wf(),
        ensures
            match song_chan_p(self.stream(), j as int) {
                Ok((n, k)) => r matches Ok((nn, kk)) && nn == n && kk == k,
                Err(x) => r matches Err(y) && y@ == x,
            },
            r matches Ok((_, k)) ==> j < k <= self.tokens@.len(),
    {
        match self.get_token(j) {
            ParserResult::Value(t) => {
                if kind_is(&t.t_type, &TokenType::OnKw) {
                    match self.parse_chan(j) {
                        Ok((Channels::One(n), k)) => Ok((n, k)),
                        Ok(_) => Err(ParserError::MissingChannels),
                        Err(x) => Err(x),
                    }
                } else {
                    Err(ParserError::MissingChannels)
                }
            },
            ParserResult::Error(e) => Err(e),
            ParserResult::Done => Err(ParserError::MissingChannels),
        }
    }

    fn starts_operand_at(&self, i: usize) -> (r: bool)
        requires
            self.wf(),
        ensures
            r == starts_operand(read(self.stream(), i as int)),
            r ==> i < self.tokens@.len(),
    {
        match self.get_token(i) {
            ParserResult::Value(t) => match t.t_type {
                TokenType::NumberLiteral(_) => true,
                TokenType::Identifier => true,
                TokenType::Punct(Punct::LeftParenthesis) => true,
                _ => false,
            },
            _ => false,
        }
    }

    /// The song the tokens describe, or the first error in them.
    pub fn parse_song(self) -> (r: Result<Song, ParserError>)
        requires
            self.wf(),
        ensures
            song_as(r, song_p(self.stream())),
    {
        let name = match self.get_token(0) {
            ParserResult::Value(t) => match &t.t_type {
                TokenType::StringLiteral(name) => name.clone(),
                _ => {
                    return Err(ParserError::MissingName);
                },
            },
            ParserResult::Error(e) => {
                return Err(e);
            },
            ParserResult::Done => {
                return Err(ParserError::MissingName);
            },
        };
        if !self.starts_operand_at(1) {
            return match self.get_token(1) {
                ParserResult::Error(e) => Err(e),
                _ => Err(ParserError::MissingDuration),
            };
        }
        let (length, j) = match self.parse_expression(1, ExprSuffix::Seconds, true) {
            Ok(x) => x,
            Err(x) => {
                return Err(x);
            },
        };
        match length.check(false) {
            Ok(_) => {},
            Err(x) => {
                return Err(ParserError::Expression(x));
            },
        }
        let (channels, k) = match self.parse_song_chan(j) {
            Ok(x) => x,
            Err(x) => {
                return Err(x);
            },
        };
        let sources = match self.parse_sources(k) {
            Ok(v) => v,
            Err(x) => {
                return Err(x);
            },
        };
        Ok(Song { name, channels, length, sources })
    }
}

/// Parses the text of a song: a name, a length, a channel count and sources.
pub fn get_song(source_name: &str, src: &str) -> (r: Result<Song, ParserError>)
    ensures
        song_as(r, parse_spec(src@)),
{
    let source = StringSource::new(source_name, src);
    let tokenizer = Tokenizer::new(source);
    let parser = Parser::new(tokenizer);
    parser.parse_song()
}

// ------------------------------------------------------------------
// Laws
// ------------------------------------------------------------------

/// A window written `:` spans its whole scope: from the scope's start to its end.
pub proof fn lemma_timeframe_full(st: Stream, i: int)
    requires
        read(st, i) matches Read::Tok(t) && t.t_type == TokenTypeView::Punct(Punct::Colon),
        !(read(st, i + 1) matches Read::Tok(u) && u.t_type is NumberLiteral),
    ensures
        timeframe_p(st, i) == Ok::<((BoundView, BoundView), int), PErr>(
            ((scope_start(), scope_end()), i + 1),
        ),
{
}

/// A window written `x:` with a plain number `x` spans from that fraction of
/// its scope to the scope's end.
pub proof fn lemma_timeframe_open_end(st: Stream, i: int, d: DecimalView)
    requires
        read(st, i) matches Read::Tok(t) && t.t_type == TokenTypeView::NumberLiteral(
            NumberView::Real(d),
        ),
        read(st, i + 1) matches Read::Tok(u) && u.t_type == TokenTypeView::Punct(Punct::Colon),
        !(read(st, i + 2) matches Read::Tok(u) && u.t_type is NumberLiteral),
    ensures
        timeframe_p(st, i) == Ok::<((BoundView, BoundView), int), PErr>(
            ((BoundView::Fraction(d), scope_end()), i + 2),
        ),
{
}

/// A text that does not start with the song's name (a string literal) fails
/// with the missing-name error, unless it cannot be tokenized at all.
pub proof fn lemma_missing_name(text: Seq<char>)
    requires
        !(read(stream_of(text), 0) matches Read::Tok(t) && t.t_type is StringLiteral),
        !(read(stream_of(text), 0) is Fail),
    ensures
        parse_spec(text) == Err::<SongView, PErr>(PErr::MissingName),
{
}

/// Parsing is a function of the text alone: two parses of the same text give
/// equal songs, or equal errors.
pub proof fn lemma_parse_idempotent(
    text: Seq<char>,
    a: Result<Song, ParserError>,
    b: Result<Song, ParserError>,
)
    requires
        song_as(a, parse_spec(text)),
        song_as(b, parse_spec(text)),
    ensures
        a is Ok <==> b is Ok,
        a matches Ok(x) ==> (b matches Ok(y) && x@ == y@),
        a matches Err(x) ==> (b matches Err(y) && x@ == y@),
{
}

} // verus!
