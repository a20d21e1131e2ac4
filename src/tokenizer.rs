//! The tokenizer: characters in, typed tokens with positions out.
//!
//! The lexical rules are stated once as spec functions over the character
//! sequence (`lex_at` and the scanners it uses); the executable tokenizer is
//! proved to produce exactly what they describe.
use vstd::prelude::*;
use crate::source::{Diagnostic, DiagnosticLevel, StringSource};
use crate::text::{slice_chars, string_of, text_is};

verus! {

/// The unit written directly after a numeric literal, or after a timeframe
/// bound: an hour is 3600 seconds, a minute 60, a millisecond a thousandth
/// of a second and a nanosecond a billionth.
#[derive(Clone, Copy, Debug, PartialEq, Eq, Structural)]
pub enum TimeUnit {
    Hours,
    Minutes,
    Seconds,
    Millis,
    Nanos,
}

/// A decimal number kept as its digits (each `0..=9`), so that no precision
/// is lost while reading it: `whole.frac`.
#[derive(Clone, Debug, PartialEq)]
pub struct Decimal {
    pub whole: Vec<u8>,
    pub frac: Vec<u8>,
}

pub ghost struct DecimalView {
    pub whole: Seq<u8>,
    pub frac: Seq<u8>,
}

impl View for Decimal {
    type V = DecimalView;

    open spec fn view(&self) -> DecimalView {
        DecimalView { whole: self.whole@, frac: self.frac@ }
    }
}

/// A numeric literal: a plain integer or real, a duration with its unit, or a
/// frequency in hertz.
#[derive(Clone, Debug, PartialEq)]
pub enum Number {
    Integer(Vec<u8>),
    Real(Decimal),
    Duration(Decimal, TimeUnit),
    Frequency(Decimal),
}

pub ghost enum NumberView {
    Integer(Seq<u8>),
    Real(DecimalView),
    Duration(DecimalView, TimeUnit),
    Frequency(DecimalView),
}

impl View for Number {
    type V = NumberView;

    open spec fn view(&self) -> NumberView {
        match self {
            Number::Integer(d) => NumberView::Integer(d@),
            Number::Real(d) => NumberView::Real(d@),
            Number::Duration(d, u) => NumberView::Duration(d@, *u),
            Number::Frequency(d) => NumberView::Frequency(d@),
        }
    }
}

/// Punctuation and operators.
#[derive(Clone, Copy, Debug, PartialEq, Eq, Structural)]
pub enum Punct {
    DoublePlus,
    DoubleMinus,
    Tilda,
    Bang,
    Plus,
    Minus,
    Star,
    Slash,
    BangEquals,
    RightShift,
    LesserThan,
    DoubleStar,
    DoubleAnd,
    DoubleOr,
    DoubleEquals,
    GreaterThan,
    Caret,
    Percent,
    SingleAnd,
    SingleOr,
    LeftShift,
    Equals,
    PlusEquals,
    MinusEquals,
    StarEquals,
    SlashEquals,
    TildaEquals,
    DoubleStarEquals,
    DoubleAndEquals,
    DoubleOrEquals,
    LesserThanEquals,
    GreaterThanEquals,
    CaretEquals,
    PercentEquals,
    SingleAndEquals,
    SingleOrEquals,
    LeftShiftEquals,
    RightShiftEquals,
    LeftParenthesis,
    RightParenthesis,
    LeftSquareBraces,
    RightSquareBraces,
    LeftCurlyBraces,
    RightCurlyBraces,
    FatArrow,
    Colon,
    Dot,
    DoubleDot,
    TripleDot,
    HashSymbol,
    AtSign,
    Comma,
    QuestionMark,
    Semicolon,
    Dollar,
    DoubleDollar,
}

/// What a token is. An identifier's text is the source text its position covers.
#[derive(Clone, Debug, PartialEq)]
pub enum TokenType {
    Identifier,
    Whitespace,
    NumberLiteral(Number),
    StringLiteral(String),
    CharLiteral(char),
    SingleLineComment,
    MultiLineComment,
    OnKw,
    FromKw,
    ToKw,
    Underscore,
    Punct(Punct),
}

pub ghost enum TokenTypeView {
    Identifier,
    Whitespace,
    NumberLiteral(NumberView),
    StringLiteral(Seq<char>),
    CharLiteral(char),
    SingleLineComment,
    MultiLineComment,
    OnKw,
    FromKw,
    ToKw,
    Underscore,
    Punct(Punct),
}

impl View for TokenType {
    type V = TokenTypeView;

    open spec fn view(&self) -> TokenTypeView {
        match self {
            TokenType::Identifier => TokenTypeView::Identifier,
            TokenType::Whitespace => TokenTypeView::Whitespace,
            TokenType::NumberLiteral(n) => TokenTypeView::NumberLiteral(n@),
            TokenType::StringLiteral(s) => TokenTypeView::StringLiteral(s@),
            TokenType::CharLiteral(c) => TokenTypeView::CharLiteral(*c),
            TokenType::SingleLineComment => TokenTypeView::SingleLineComment,
            TokenType::MultiLineComment => TokenTypeView::MultiLineComment,
            TokenType::OnKw => TokenTypeView::OnKw,
            TokenType::FromKw => TokenTypeView::FromKw,
            TokenType::ToKw => TokenTypeView::ToKw,
            TokenType::Underscore => TokenTypeView::Underscore,
            TokenType::Punct(p) => TokenTypeView::Punct(*p),
        }
    }
}

/// Where a token stands: the characters `start..end` of the source, and the
/// line and column (both from zero, in characters) of its first character.
#[derive(Clone, Copy, Debug, PartialEq, Eq, Structural)]
pub struct TokenPosition {
    pub start: usize,
    pub end: usize,
    pub line: usize,
    pub column: usize,
}

#[derive(Clone, Debug)]
pub struct Token {
    pub position: TokenPosition,
    pub t_type: TokenType,
}

pub ghost struct TokenView {
    pub t_type: TokenTypeView,
    pub position: TokenPosition,
}

impl View for Token {
    type V = TokenView;

    open spec fn view(&self) -> TokenView {
        TokenView { t_type: self.t_type@, position: self.position }
    }
}

#[derive(Clone, Copy, Debug, PartialEq, Eq, Structural)]
pub enum TokenizerError {
    Invalid(char),
    UnfinishedCharLiteral,
    UnfinishedStringLiteral,
}

impl TokenPosition {
    /// The number of characters the token covers.
    pub fn len(&self) -> (r: usize)
        requires
            self.start <= self.end,
        ensures
            r == self.end - self.start,
    {
        self.end - self.start
    }

    pub fn is_empty(&self) -> (r: bool)
        requires
            self.start <= self.end,
        ensures
            r == (self.start == self.end),
    {
        self.len() == 0
    }

    pub fn start(&self) -> (r: usize)
        ensures
            r == self.start,
    {
        self.start
    }

    pub fn end(&self) -> (r: usize)
        ensures
            r == self.end,
    {
        self.end
    }

    pub fn line(&self) -> (r: usize)
        ensures
            r == self.line,
    {
        self.line
    }

    pub fn column(&self) -> (r: usize)
        ensures
            r == self.column,
    {
        self.column
    }

    /// The text the token covers in `source`, where it lies within it.
    pub fn get_text(&self, source: &StringSource) -> (r: Option<String>)
        ensures
            self.start <= self.end <= source@.len() ==> (r matches Some(t) && t@ == source@.subrange(
                self.start as int,
                self.end as int,
            )),
            !(self.start <= self.end <= source@.len()) ==> r is None,
    {
        source.get_text(self.start, self.end)
    }
}

impl Token {
    pub fn new(t_type: TokenType, position: TokenPosition) -> (r: Self)
        ensures
            r.t_type == t_type,
            r.position == position,
    {
        Token { position, t_type }
    }

    pub fn position(&self) -> (r: &TokenPosition)
        ensures
            *r == self.position,
    {
        &self.position
    }

    pub fn t_type(&self) -> (r: &TokenType)
        ensures
            *r == self.t_type,
    {
        &self.t_type
    }
}

// ------------------------------------------------------------------
// The lexical rules
// ------------------------------------------------------------------

pub open spec fn peek(s: Seq<char>, i: int) -> Option<char> {
    if 0 <= i < s.len() {
        Some(s[i])
    } else {
        None
    }
}

pub open spec fn is_digit(c: char) -> bool {
    '0' <= c <= '9'
}

pub open spec fn is_ident_char(c: char) -> bool {
    ('a' <= c <= 'z') || ('A' <= c <= 'Z') || c == '_'
}

pub open spec fn is_space(c: char) -> bool {
    c == ' ' || c == '\n' || c == '\t' || c == '\r'
}

pub open spec fn digit_value(c: char) -> u8 {
    (c as u32 - '0' as u32) as u8
}

/// The character classes whose maximal runs make tokens.
#[derive(Clone, Copy, Debug, PartialEq, Eq, Structural)]
pub enum CharClass {
    Digit,
    IdentChar,
    Space,
    /// Anything but a newline: the text of a line comment.
    NotNewline,
}

pub open spec fn in_class(cl: CharClass, c: char) -> bool {
    match cl {
        CharClass::Digit => is_digit(c),
        CharClass::IdentChar => is_ident_char(c),
        CharClass::Space => is_space(c),
        CharClass::NotNewline => c != '\n',
    }
}

/// The end of the maximal run of characters of class `cl` that starts at `p`.
pub open spec fn run_end(s: Seq<char>, p: int, cl: CharClass) -> int
    decreases s.len() - p,
{
    if 0 <= p < s.len() && in_class(cl, s[p]) {
        run_end(s, p + 1, cl)
    } else {
        p
    }
}

pub open spec fn digits_end(s: Seq<char>, p: int) -> int {
    run_end(s, p, CharClass::Digit)
}

/// The end of a block comment whose text resumes at `p` with `level` comments
/// open, and whether it was closed. Block comments nest.
pub open spec fn block_end(s: Seq<char>, p: int, level: nat) -> (int, bool)
    decreases s.len() - p,
{
    if p < 0 || p >= s.len() {
        (s.len() as int, false)
    } else if s[p] == '/' && peek(s, p + 1) == Some('*') {
        block_end(s, p + 2, level + 1)
    } else if s[p] == '*' && peek(s, p + 1) == Some('/') {
        if level <= 1 {
            (p + 2, true)
        } else {
            block_end(s, p + 2, (level - 1) as nat)
        }
    } else {
        block_end(s, p + 1, level)
    }
}

/// The character a backslash escape stands for.
pub open spec fn unescape_spec(c: char) -> char {
    if c == '0' {
        '\0'
    } else if c == 't' {
        '\t'
    } else if c == 'n' {
        '\n'
    } else {
        c
    }
}

/// The contents and end of a string literal whose text resumes at `p`, or
/// `None` where the input ends before the closing quote.
pub open spec fn scan_string(s: Seq<char>, p: int) -> Option<(Seq<char>, int)>
    decreases s.len() - p,
{
    if p < 0 || p >= s.len() {
        None
    } else if s[p] == '"' {
        Some((Seq::empty(), p + 1))
    } else if s[p] == '\\' {
        if p + 1 >= s.len() {
            None
        } else {
            match scan_string(s, p + 2) {
                Some((t, e)) => Some((seq![unescape_spec(s[p + 1])] + t, e)),
                None => None,
            }
        }
    } else {
        match scan_string(s, p + 1) {
            Some((t, e)) => Some((seq![s[p]] + t, e)),
            None => None,
        }
    }
}

pub open spec fn digits_of(s: Seq<char>, a: int, b: int) -> Seq<u8> {
    s.subrange(a, b).map_values(|c: char| digit_value(c))
}

/// The number that starts at `p` (a digit), before any unit suffix, and its end.
pub open spec fn number_body(s: Seq<char>, p: int) -> (NumberView, int) {
    let e = digits_end(s, p);
    if peek(s, e) == Some('.') && e + 1 < s.len() && is_digit(s[e + 1]) {
        let f = digits_end(s, e + 1);
        (NumberView::Real(DecimalView { whole: digits_of(s, p, e), frac: digits_of(s, e + 1, f) }), f)
    } else {
        (NumberView::Integer(digits_of(s, p, e)), e)
    }
}

pub open spec fn decimal_of(n: NumberView) -> DecimalView {
    match n {
        NumberView::Integer(d) => DecimalView { whole: d, frac: Seq::empty() },
        NumberView::Real(d) => d,
        NumberView::Duration(d, _) => d,
        NumberView::Frequency(d) => d,
    }
}

/// A numeric literal at `p` with its suffix: `s` seconds, `ms` milliseconds,
/// `m` minutes, `h` hours, `hz` hertz.
pub open spec fn number_at(s: Seq<char>, p: int) -> (NumberView, int) {
    let (n, q) = number_body(s, p);
    let d = decimal_of(n);
    match peek(s, q) {
        Some('s') => (NumberView::Duration(d, TimeUnit::Seconds), q + 1),
        Some('m') => if peek(s, q + 1) == Some('s') {
            (NumberView::Duration(d, TimeUnit::Millis), q + 2)
        } else {
            (NumberView::Duration(d, TimeUnit::Minutes), q + 1)
        },
        Some('h') => if peek(s, q + 1) == Some('z') {
            (NumberView::Frequency(d), q + 2)
        } else {
            (NumberView::Duration(d, TimeUnit::Hours), q + 1)
        },
        _ => (n, q),
    }
}

/// The keyword a word spells, if any.
pub open spec fn keyword(w: Seq<char>) -> Option<TokenTypeView> {
    if w == "on"@ {
        Some(TokenTypeView::OnKw)
    } else if w == "from"@ {
        Some(TokenTypeView::FromKw)
    } else if w == "to"@ {
        Some(TokenTypeView::ToKw)
    } else if w == "_"@ {
        Some(TokenTypeView::Underscore)
    } else {
        None
    }
}

/// One character, or a fixed second one that makes a longer operator.
pub open spec fn pick2(s: Seq<char>, p: int, c2: char, two: Punct, one: Punct) -> (Punct, nat) {
    if peek(s, p + 1) == Some(c2) {
        (two, 2)
    } else {
        (one, 1)
    }
}

/// The operators and punctuation, longest match first (`/` is handled with comments).
pub open spec fn punct_at(s: Seq<char>, p: int) -> Option<(Punct, nat)> {
    let c = s[p];
    let n1 = peek(s, p + 1);
    let n2 = peek(s, p + 2);
    if c == '+' {
        Some(
            if n1 == Some('+') {
                (Punct::DoublePlus, 2)
            } else {
                pick2(s, p, '=', Punct::PlusEquals, Punct::Plus)
            },
        )
    } else if c == '-' {
        Some(
            if n1 == Some('-') {
                (Punct::DoubleMinus, 2)
            } else {
                pick2(s, p, '=', Punct::MinusEquals, Punct::Minus)
            },
        )
    } else if c == '*' {
        Some(
            if n1 == Some('*') {
                if n2 == Some('=') {
                    (Punct::DoubleStarEquals, 3)
                } else {
                    (Punct::DoubleStar, 2)
                }
            } else {
                pick2(s, p, '=', Punct::StarEquals, Punct::Star)
            },
        )
    } else if c == '.' {
        Some(
            if n1 == Some('.') {
                if n2 == Some('.') {
                    (Punct::TripleDot, 3)
                } else {
                    (Punct::DoubleDot, 2)
                }
            } else {
                (Punct::Dot, 1)
            },
        )
    } else if c == '$' {
        Some(pick2(s, p, '$', Punct::DoubleDollar, Punct::Dollar))
    } else if c == '(' {
        Some((Punct::LeftParenthesis, 1))
    } else if c == ')' {
        Some((Punct::RightParenthesis, 1))
    } else if c == '[' {
        Some((Punct::LeftSquareBraces, 1))
    } else if c == ']' {
        Some((Punct::RightSquareBraces, 1))
    } else if c == '{' {
        Some((Punct::LeftCurlyBraces, 1))
    } else if c == '}' {
        Some((Punct::RightCurlyBraces, 1))
    } else if c == '~' {
        Some(pick2(s, p, '=', Punct::TildaEquals, Punct::Tilda))
    } else if c == '%' {
        Some(pick2(s, p, '=', Punct::PercentEquals, Punct::Percent))
    } else if c == '!' {
        Some(pick2(s, p, '=', Punct::BangEquals, Punct::Bang))
    } else if c == ':' {
        Some((Punct::Colon, 1))
    } else if c == '#' {
        Some((Punct::HashSymbol, 1))
    } else if c == '@' {
        Some((Punct::AtSign, 1))
    } else if c == ',' {
        Some((Punct::Comma, 1))
    } else if c == '?' {
        Some((Punct::QuestionMark, 1))
    } else if c == ';' {
        Some((Punct::Semicolon, 1))
    } else if c == '^' {
        Some(pick2(s, p, '=', Punct::CaretEquals, Punct::Caret))
    } else if c == '=' {
        Some(
            if n1 == Some('>') {
                (Punct::FatArrow, 2)
            } else {
                pick2(s, p, '=', Punct::DoubleEquals, Punct::Equals)
            },
        )
    } else if c == '<' {
        Some(
            if n1 == Some('<') {
                if n2 == Some('=') {
                    (Punct::LeftShiftEquals, 3)
                } else {
                    (Punct::LeftShift, 2)
                }
            } else {
                pick2(s, p, '=', Punct::LesserThanEquals, Punct::LesserThan)
            },
        )
    } else if c == '>' {
        Some(
            if n1 == Some('>') {
                if n2 == Some('=') {
                    (Punct::RightShiftEquals, 3)
                } else {
                    (Punct::RightShift, 2)
                }
            } else {
                pick2(s, p, '=', Punct::GreaterThanEquals, Punct::GreaterThan)
            },
        )
    } else if c == '&' {
        Some(
            if n1 == Some('&') {
                if n2 == Some('=') {
                    (Punct::DoubleAndEquals, 3)
                } else {
                    (Punct::DoubleAnd, 2)
                }
            } else {
                pick2(s, p, '=', Punct::SingleAndEquals, Punct::SingleAnd)
            },
        )
    } else if c == '|' {
        Some(
            if n1 == Some('|') {
                if n2 == Some('=') {
                    (Punct::DoubleOrEquals, 3)
                } else {
                    (Punct::DoubleOr, 2)
                }
            } else {
                pick2(s, p, '=', Punct::SingleOrEquals, Punct::SingleOr)
            },
        )
    } else {
        None
    }
}

/// What the tokenizer finds at a position.
pub ghost enum Lexed {
    /// A token of this type that ends at this index.
    Token(TokenTypeView, int),
    Fail(TokenizerError),
    End,
}

/// The token that starts at `p`: the lexical rules of the language.
pub open spec fn lex_at(s: Seq<char>, p: int) -> Lexed {
    if p < 0 || p >= s.len() {
        Lexed::End
    } else {
        let c = s[p];
        if is_digit(c) {
            let (n, e) = number_at(s, p);
            Lexed::Token(TokenTypeView::NumberLiteral(n), e)
        } else if c == '/' {
            if peek(s, p + 1) == Some('=') {
                Lexed::Token(TokenTypeView::Punct(Punct::SlashEquals), p + 2)
            } else if peek(s, p + 1) == Some('/') {
                Lexed::Token(TokenTypeView::SingleLineComment, run_end(s, p + 2, CharClass::NotNewline))
            } else if peek(s, p + 1) == Some('*') {
                Lexed::Token(TokenTypeView::MultiLineComment, block_end(s, p + 2, 1).0)
            } else {
                Lexed::Token(TokenTypeView::Punct(Punct::Slash), p + 1)
            }
        } else if is_ident_char(c) {
            let e = run_end(s, p, CharClass::IdentChar);
            match keyword(s.subrange(p, e)) {
                Some(k) => Lexed::Token(k, e),
                None => Lexed::Token(TokenTypeView::Identifier, e),
            }
        } else if is_space(c) {
            Lexed::Token(TokenTypeView::Whitespace, run_end(s, p, CharClass::Space))
        } else if c == '\'' {
            match peek(s, p + 1) {
                None => Lexed::Fail(TokenizerError::UnfinishedCharLiteral),
                Some(c1) => {
                    let (ch, q) = if c1 == '\\' {
                        (unescape_spec(if p + 2 < s.len() { s[p + 2] } else { c1 }), p + 3)
                    } else {
                        (c1, p + 2)
                    };
                    if c1 == '\\' && p + 2 >= s.len() {
                        Lexed::Fail(TokenizerError::UnfinishedCharLiteral)
                    } else if peek(s, q) == Some('\'') {
                        Lexed::Token(TokenTypeView::CharLiteral(ch), q + 1)
                    } else {
                        Lexed::Fail(TokenizerError::UnfinishedCharLiteral)
                    }
                },
            }
        } else if c == '"' {
            match scan_string(s, p + 1) {
                Some((t, e)) => Lexed::Token(TokenTypeView::StringLiteral(t), e),
                None => Lexed::Fail(TokenizerError::UnfinishedStringLiteral),
            }
        } else {
            match punct_at(s, p) {
                Some((k, n)) => Lexed::Token(TokenTypeView::Punct(k), p + n),
                None => Lexed::Fail(TokenizerError::Invalid(c)),
            }
        }
    }
}

/// Whether a block comment starting at `p` runs to the end of the input unclosed.
pub open spec fn unclosed_comment_at(s: Seq<char>, p: int) -> bool {
    0 <= p && p + 1 < s.len() && s[p] == '/' && s[p + 1] == '*' && !block_end(s, p + 2, 1).1
}

pub open spec fn newlines_before(s: Seq<char>, p: int) -> nat
    decreases p,
{
    if p <= 0 || p > s.len() {
        0
    } else {
        newlines_before(s, p - 1) + if s[p - 1] == '\n' { 1nat } else { 0nat }
    }
}

/// The index at which the line holding index `p` starts.
pub open spec fn line_start(s: Seq<char>, p: int) -> int
    decreases p,
{
    if p <= 0 || p > s.len() {
        0
    } else if s[p - 1] == '\n' {
        p
    } else {
        line_start(s, p - 1)
    }
}

pub open spec fn position_of(s: Seq<char>, start: int, end: int) -> TokenPosition {
    TokenPosition {
        start: start as usize,
        end: end as usize,
        line: newlines_before(s, start) as usize,
        column: (start - line_start(s, start)) as usize,
    }
}

pub open spec fn is_trivia(t: TokenTypeView) -> bool {
    t == TokenTypeView::Whitespace || t == TokenTypeView::SingleLineComment || t
        == TokenTypeView::MultiLineComment
}


// ------------------------------------------------------------------
// Facts about the rules
// ------------------------------------------------------------------

pub proof fn lemma_run_end_bounds(s: Seq<char>, p: int, cl: CharClass)
    requires
        0 <= p <= s.len(),
    ensures
        p <= run_end(s, p, cl) <= s.len(),
    decreases s.len() - p,
{
    if 0 <= p < s.len() && in_class(cl, s[p]) {
        lemma_run_end_bounds(s, p + 1, cl);
    }
}

pub proof fn lemma_block_end_bounds(s: Seq<char>, p: int, level: nat)
    requires
        0 <= p,
    ensures
        p <= block_end(s, p, level).0 <= s.len() || (p > s.len() && block_end(s, p, level).0
            == s.len()),
    decreases s.len() - p,
{
    if p < 0 || p >= s.len() {
    } else if s[p] == '/' && peek(s, p + 1) == Some('*') {
        lemma_block_end_bounds(s, p + 2, level + 1);
    } else if s[p] == '*' && peek(s, p + 1) == Some('/') {
        if level > 1 {
            lemma_block_end_bounds(s, p + 2, (level - 1) as nat);
        }
    } else {
        lemma_block_end_bounds(s, p + 1, level);
    }
}

pub proof fn lemma_scan_string_bounds(s: Seq<char>, p: int)
    requires
        0 <= p,
    ensures
        scan_string(s, p) matches Some((t, e)) ==> p < e <= s.len(),
    decreases s.len() - p,
{
    if p < 0 || p >= s.len() {
    } else if s[p] == '"' {
    } else if s[p] == '\\' {
        if p + 1 < s.len() {
            lemma_scan_string_bounds(s, p + 2);
        }
    } else {
        lemma_scan_string_bounds(s, p + 1);
    }
}

/// Every token takes at least one character and ends within the text.
pub proof fn lemma_lex_at_bounds(s: Seq<char>, p: int)
    requires
        0 <= p <= s.len(),
    ensures
        lex_at(s, p) matches Lexed::Token(_, e) ==> p < e <= s.len(),
{
    if p < s.len() {
        let c = s[p];
        if is_digit(c) {
            assert(run_end(s, p, CharClass::Digit) == run_end(s, p + 1, CharClass::Digit));
            lemma_run_end_bounds(s, p + 1, CharClass::Digit);
            let e = digits_end(s, p);
            if peek(s, e) == Some('.') && e + 1 < s.len() && is_digit(s[e + 1]) {
                lemma_run_end_bounds(s, e + 1, CharClass::Digit);
            }
        } else if c == '/' {
            if peek(s, p + 1) == Some('/') {
                lemma_run_end_bounds(s, p + 2, CharClass::NotNewline);
            } else if peek(s, p + 1) == Some('*') {
                lemma_block_end_bounds(s, p + 2, 1);
            }
        } else if is_ident_char(c) {
            assert(run_end(s, p, CharClass::IdentChar) == run_end(s, p + 1, CharClass::IdentChar));
            lemma_run_end_bounds(s, p + 1, CharClass::IdentChar);
        } else if is_space(c) {
            assert(run_end(s, p, CharClass::Space) == run_end(s, p + 1, CharClass::Space));
            lemma_run_end_bounds(s, p + 1, CharClass::Space);
        } else if c == '"' {
            lemma_scan_string_bounds(s, p + 1);
        }
    }
}

proof fn lemma_push_concat(a: Seq<char>, x: char, t: Seq<char>)
    ensures
        a + (seq![x] + t) == a.push(x) + t,
{
    assert(a + (seq![x] + t) =~= a.push(x) + t);
}

// ------------------------------------------------------------------
// The tokenizer
// ------------------------------------------------------------------

pub fn unescape(c: char) -> (r: char)
    ensures
        r == unescape_spec(c),
{
    match c {
        '0' => '\0',
        't' => '\t',
        'n' => '\n',
        c => c,
    }
}

fn in_class_exec(cl: CharClass, c: char) -> (r: bool)
    ensures
        r == in_class(cl, c),
{
    match cl {
        CharClass::Digit => '0' <= c && c <= '9',
        CharClass::IdentChar => ('a' <= c && c <= 'z') || ('A' <= c && c <= 'Z') || c == '_',
        CharClass::Space => c == ' ' || c == '\n' || c == '\t' || c == '\r',
        CharClass::NotNewline => c != '\n',
    }
}

/// Relation between an executable lexing result and the rules.
pub open spec fn lexed_as(r: Result<Option<(TokenType, usize)>, TokenizerError>, l: Lexed) -> bool {
    match l {
        Lexed::End => r matches Ok(None),
        Lexed::Fail(e) => r == Err::<Option<(TokenType, usize)>, TokenizerError>(e),
        Lexed::Token(t, e) => r matches Ok(Some((tt, ee))) && tt@ == t && ee == e,
    }
}

/// Turns source text into tokens, one at a time. Whitespace and comments are
/// skipped unless `emit_whitespace` is set.
#[derive(Debug)]
pub struct Tokenizer {
    source: StringSource,
    diagnostics: Vec<Diagnostic>,
    emit_whitespace: bool,
    pos: usize,
    line: usize,
    line_start: usize,
}

impl Tokenizer {
    pub closed spec fn text(&self) -> Seq<char> {
        self.source@
    }

    /// The index of the next character to read.
    pub closed spec fn pos_spec(&self) -> int {
        self.pos as int
    }

    pub closed spec fn emit_whitespace_spec(&self) -> bool {
        self.emit_whitespace
    }

    pub closed spec fn diagnostics_spec(&self) -> Seq<Diagnostic> {
        self.diagnostics@
    }

    pub closed spec fn wf(&self) -> bool {
        &&& self.pos <= self.source@.len()
        &&& self.line == newlines_before(self.source@, self.pos as int)
        &&& self.line_start == line_start(self.source@, self.pos as int)
        &&& self.line_start <= self.pos
        &&& self.line <= self.pos
    }

    pub fn new(source: StringSource) -> (r: Self)
        ensures
            r.wf(),
            r.text() == source@,
            r.pos_spec() == 0,
            !r.emit_whitespace_spec(),
            r.diagnostics_spec().len() == 0,
    {
        Tokenizer {
            source,
            diagnostics: Vec::new(),
            emit_whitespace: false,
            pos: 0,
            line: 0,
            line_start: 0,
        }
    }

    pub fn source(&self) -> (r: &StringSource)
        ensures
            r@ == self.text(),
    {
        &self.source
    }

    /// Gives back the source once tokenizing is over.
    pub fn into_source(self) -> (r: StringSource)
        ensures
            r@ == self.text(),
    {
        self.source
    }

    pub fn diagnostics(&self) -> (r: &Vec<Diagnostic>)
        ensures
            r@ == self.diagnostics_spec(),
    {
        &self.diagnostics
    }

    pub fn emit_whitespace(&self) -> (r: bool)
        ensures
            r == self.emit_whitespace_spec(),
    {
        self.emit_whitespace
    }

    pub fn set_emit_whitespace(&mut self, emit_whitespace: bool)
        requires
            old(self).wf(),
        ensures
            final(self).wf(),
            final(self).emit_whitespace_spec() == emit_whitespace,
            final(self).text() == old(self).text(),
            final(self).pos_spec() == old(self).pos_spec(),
            final(self).diagnostics_spec() == old(self).diagnostics_spec(),
    {
        self.emit_whitespace = emit_whitespace;
    }

    fn peek_at(&self, i: usize) -> (r: Option<char>)
        ensures
            r == peek(self.source@, i as int),
    {
        if i < self.source.len() {
            Some(self.source.char_at(i))
        } else {
            None
        }
    }

    /// The character `k` places after `p`, if there is one.
    fn peek_off(&self, p: usize, k: usize) -> (r: Option<char>)
        ensures
            r == peek(self.source@, p + k),
    {
        let n = self.source.len();
        if k < n && p < n - k {
            Some(self.source.char_at(p + k))
        } else {
            None
        }
    }

    fn run_end_exec(&self, p: usize, cl: CharClass) -> (r: usize)
        requires
            p <= self.source@.len(),
        ensures
            r == run_end(self.source@, p as int, cl),
            p <= r <= self.source@.len(),
    {
        let n = self.source.len();
        let mut i = p;
        while i < n && in_class_exec(cl, self.source.char_at(i))
            invariant
                n == self.source@.len(),
                p <= i <= n,
                run_end(self.source@, p as int, cl) == run_end(self.source@, i as int, cl),
            decreases n - i,
        {
            i = i + 1;
        }
        i
    }

    fn digits_exec(&self, a: usize, b: usize) -> (r: Vec<u8>)
        requires
            a <= b <= self.source@.len(),
            forall|k: int| a <= k < b ==> is_digit(#[trigger] self.source@[k]),
        ensures
            r@ == digits_of(self.source@, a as int, b as int),
    {
        let mut r: Vec<u8> = Vec::new();
        let mut i = a;
        while i < b
            invariant
                a <= i <= b <= self.source@.len(),
                forall|k: int| a <= k < b ==> is_digit(#[trigger] self.source@[k]),
                r@ == digits_of(self.source@, a as int, i as int),
            decreases b - i,
        {
            let c = self.source.char_at(i);
            assert(is_digit(self.source@[i as int]));
            r.push((c as u32 - '0' as u32) as u8);
            i = i + 1;
            assert(r@ =~= digits_of(self.source@, a as int, i as int));
        }
        r
    }

    fn number_exec(&self, p: usize) -> (r: (Number, usize))
        requires
            p < self.source@.len(),
            is_digit(self.source@[p as int]),
        ensures
            r.0@ == number_at(self.source@, p as int).0,
            r.1 == number_at(self.source@, p as int).1,
            p < r.1 <= self.source@.len(),
    {
        let ghost s = self.source@;
        let n = self.source.len();
        let e = self.run_end_exec(p, CharClass::Digit);
        assert(run_end(s, p as int, CharClass::Digit) == run_end(s, p + 1, CharClass::Digit));
        proof {
            lemma_run_end_bounds(s, p + 1, CharClass::Digit);
            assert forall|k: int| p <= k < e implies is_digit(#[trigger] s[k]) by {
                lemma_run_end_prefix(s, p as int, CharClass::Digit, k);
            }
        }
        let whole = self.digits_exec(p, e);
        let ghost body = number_body(s, p as int).0;
        let (d, is_real, q) = if e < n && self.source.char_at(e) == '.' && e + 1 < n
            && in_class_exec(CharClass::Digit, self.source.char_at(e + 1)) {
            let f = self.run_end_exec(e + 1, CharClass::Digit);
            proof {
                assert forall|k: int| e + 1 <= k < f implies is_digit(#[trigger] s[k]) by {
                    lemma_run_end_prefix(s, e + 1, CharClass::Digit, k);
                }
            }
            let frac = self.digits_exec(e + 1, f);
            (Decimal { whole, frac }, true, f)
        } else {
            (Decimal { whole, frac: Vec::new() }, false, e)
        };
        assert(d@ == decimal_of(body));
        assert(q == number_body(s, p as int).1);
        match self.peek_at(q) {
            Some('s') => (Number::Duration(d, TimeUnit::Seconds), q + 1),
            Some('m') => {
                if self.peek_off(q, 1) == Some('s') {
                    (Number::Duration(d, TimeUnit::Millis), q + 2)
                } else {
                    (Number::Duration(d, TimeUnit::Minutes), q + 1)
                }
            },
            Some('h') => {
                if self.peek_off(q, 1) == Some('z') {
                    (Number::Frequency(d), q + 2)
                } else {
                    (Number::Duration(d, TimeUnit::Hours), q + 1)
                }
            },
            _ => {
                if is_real {
                    (Number::Real(d), q)
                } else {
                    assert(d.frac@ =~= Seq::<u8>::empty());
                    (Number::Integer(d.whole), q)
                }
            },
        }
    }
}

impl Tokenizer {
    fn block_end_exec(&self, p: usize) -> (r: (usize, bool))
        requires
            p <= self.source@.len(),
        ensures
            r.0 as int == block_end(self.source@, p as int, 1).0,
            r.1 == block_end(self.source@, p as int, 1).1,
            r.0 <= self.source@.len(),
    {
        let ghost s = self.source@;
        let n = self.source.len();
        let mut i = p;
        let mut level: usize = 1;
        while i < n
            invariant
                n == s.len(),
                s == self.source@,
                p <= i,
                i <= n + 1,
                1 <= level <= i + 1,
                block_end(s, p as int, 1) == block_end(s, i as int, level as nat),
            decreases n + 1 - i,
        {
            let c = self.source.char_at(i);
            let next = self.peek_off(i, 1);
            if c == '/' && next == Some('*') {
                level = level + 1;
                i = i + 2;
            } else if c == '*' && next == Some('/') {
                if level <= 1 {
                    return (i + 2, true);
                }
                level = level - 1;
                i = i + 2;
            } else {
                i = i + 1;
            }
        }
        (n, false)
    }

    fn string_exec(&self, p: usize) -> (r: Option<(Vec<char>, usize)>)
        requires
            p <= self.source@.len(),
        ensures
            match scan_string(self.source@, p as int) {
                Some((t, e)) => r matches Some((v, ee)) && v@ == t && ee == e,
                None => r is None,
            },
    {
        let ghost s = self.source@;
        let n = self.source.len();
        let mut acc: Vec<char> = Vec::new();
        let mut i = p;
        while i < n
            invariant
                n == s.len(),
                s == self.source@,
                p <= i <= n,
                scan_string(s, p as int) == match scan_string(s, i as int) {
                    Some((t, e)) => Some((acc@ + t, e)),
                    None => None::<(Seq<char>, int)>,
                },
            decreases n - i,
        {
            let c = self.source.char_at(i);
            if c == '"' {
                assert(acc@ + Seq::<char>::empty() =~= acc@);
                return Some((acc, i + 1));
            } else if c == '\\' {
                if i + 1 >= n {
                    return None;
                }
                let x = unescape(self.source.char_at(i + 1));
                proof {
                    match scan_string(s, i + 2) {
                        Some((t, e)) => lemma_push_concat(acc@, x, t),
                        None => {},
                    }
                }
                acc.push(x);
                i = i + 2;
            } else {
                proof {
                    match scan_string(s, i + 1) {
                        Some((t, e)) => lemma_push_concat(acc@, c, t),
                        None => {},
                    }
                }
                acc.push(c);
                i = i + 1;
            }
        }
        None
    }

    fn pick2_exec(&self, p: usize, c2: char, two: Punct, one: Punct) -> (r: (Punct, usize))
        requires
            p < self.source@.len(),
        ensures
            (r.0, r.1 as nat) == pick2(self.source@, p as int, c2, two, one),
    {
        if self.peek_off(p, 1) == Some(c2) {
            (two, 2)
        } else {
            (one, 1)
        }
    }

    /// Operators with a possible second and third character.
    fn triple_exec(&self, p: usize, c: char, three: Punct, two: Punct, eq: Punct, one: Punct) -> (r: (
        Punct,
        usize,
    ))
        requires
            p < self.source@.len(),
        ensures
            (r.0, r.1 as nat) == (if peek(self.source@, p + 1) == Some(c) {
                if peek(self.source@, p + 2) == Some('=') {
                    (three, 3nat)
                } else {
                    (two, 2nat)
                }
            } else {
                pick2(self.source@, p as int, '=', eq, one)
            }),
    {
        if self.peek_off(p, 1) == Some(c) {
            if self.peek_off(p, 2) == Some('=') {
                (three, 3)
            } else {
                (two, 2)
            }
        } else {
            self.pick2_exec(p, '=', eq, one)
        }
    }

    fn punct_exec(&self, p: usize) -> (r: Option<(Punct, usize)>)
        requires
            p < self.source@.len(),
        ensures
            match punct_at(self.source@, p as int) {
                Some((k, m)) => r matches Some((kk, mm)) && kk == k && mm == m,
                None => r is None,
            },
    {
        let c = self.source.char_at(p);
        let n1 = self.peek_off(p, 1);
        if c == '+' {
            Some(
                if n1 == Some('+') {
                    (Punct::DoublePlus, 2)
                } else {
                    self.pick2_exec(p, '=', Punct::PlusEquals, Punct::Plus)
                },
            )
        } else if c == '-' {
            Some(
                if n1 == Some('-') {
                    (Punct::DoubleMinus, 2)
                } else {
                    self.pick2_exec(p, '=', Punct::MinusEquals, Punct::Minus)
                },
            )
        } else if c == '*' {
            Some(
                self.triple_exec(
                    p,
                    '*',
                    Punct::DoubleStarEquals,
                    Punct::DoubleStar,
                    Punct::StarEquals,
                    Punct::Star,
                ),
            )
        } else if c == '.' {
            Some(
                if n1 == Some('.') {
                    if self.peek_off(p, 2) == Some('.') {
                        (Punct::TripleDot, 3)
                    } else {
                        (Punct::DoubleDot, 2)
                    }
                } else {
                    (Punct::Dot, 1)
                },
            )
        } else if c == '$' {
            Some(self.pick2_exec(p, '$', Punct::DoubleDollar, Punct::Dollar))
        } else if c == '(' {
            Some((Punct::LeftParenthesis, 1))
        } else if c == ')' {
            Some((Punct::RightParenthesis, 1))
        } else if c == '[' {
            Some((Punct::LeftSquareBraces, 1))
        } else if c == ']' {
            Some((Punct::RightSquareBraces, 1))
        } else if c == '{' {
            Some((Punct::LeftCurlyBraces, 1))
        } else if c == '}' {
            Some((Punct::RightCurlyBraces, 1))
        } else if c == '~' {
            Some(self.pick2_exec(p, '=', Punct::TildaEquals, Punct::Tilda))
        } else if c == '%' {
            Some(self.pick2_exec(p, '=', Punct::PercentEquals, Punct::Percent))
        } else if c == '!' {
            Some(self.pick2_exec(p, '=', Punct::BangEquals, Punct::Bang))
        } else if c == ':' {
            Some((Punct::Colon, 1))
        } else if c == '#' {
            Some((Punct::HashSymbol, 1))
        } else if c == '@' {
            Some((Punct::AtSign, 1))
        } else if c == ',' {
            Some((Punct::Comma, 1))
        } else if c == '?' {
            Some((Punct::QuestionMark, 1))
        } else if c == ';' {
            Some((Punct::Semicolon, 1))
        } else if c == '^' {
            Some(self.pick2_exec(p, '=', Punct::CaretEquals, Punct::Caret))
        } else if c == '=' {
            Some(
                if n1 == Some('>') {
                    (Punct::FatArrow, 2)
                } else {
                    self.pick2_exec(p, '=', Punct::DoubleEquals, Punct::Equals)
                },
            )
        } else if c == '<' {
            Some(
                self.triple_exec(
                    p,
                    '<',
                    Punct::LeftShiftEquals,
                    Punct::LeftShift,
                    Punct::LesserThanEquals,
                    Punct::LesserThan,
                ),
            )
        } else if c == '>' {
            Some(
                self.triple_exec(
                    p,
                    '>',
                    Punct::RightShiftEquals,
                    Punct::RightShift,
                    Punct::GreaterThanEquals,
                    Punct::GreaterThan,
                ),
            )
        } else if c == '&' {
            Some(
                self.triple_exec(
                    p,
                    '&',
                    Punct::DoubleAndEquals,
                    Punct::DoubleAnd,
                    Punct::SingleAndEquals,
                    Punct::SingleAnd,
                ),
            )
        } else if c == '|' {
            Some(
                self.triple_exec(
                    p,
                    '|',
                    Punct::DoubleOrEquals,
                    Punct::DoubleOr,
                    Punct::SingleOrEquals,
                    Punct::SingleOr,
                ),
            )
        } else {
            None
        }
    }

    fn keyword_exec(&self, p: usize, e: usize) -> (r: Option<TokenType>)
        requires
            p <= e <= self.source@.len(),
        ensures
            match keyword(self.source@.subrange(p as int, e as int)) {
                Some(k) => r matches Some(t) && t@ == k,
                None => r is None,
            },
    {
        let w = slice_chars(self.source.chars_ref(), p, e);
        if text_is(w.as_slice(), "on") {
            Some(TokenType::OnKw)
        } else if text_is(w.as_slice(), "from") {
            Some(TokenType::FromKw)
        } else if text_is(w.as_slice(), "to") {
            Some(TokenType::ToKw)
        } else if text_is(w.as_slice(), "_") {
            Some(TokenType::Underscore)
        } else {
            None
        }
    }

    /// The token that starts at `p`, by the rules of `lex_at`.
    fn lex_exec(&self, p: usize) -> (r: Result<Option<(TokenType, usize)>, TokenizerError>)
        requires
            p <= self.source@.len(),
        ensures
            lexed_as(r, lex_at(self.source@, p as int)),
    {
        let ghost s = self.source@;
        let n = self.source.len();
        if p >= n {
            return Ok(None);
        }
        let c = self.source.char_at(p);
        if in_class_exec(CharClass::Digit, c) {
            let (num, e) = self.number_exec(p);
            Ok(Some((TokenType::NumberLiteral(num), e)))
        } else if c == '/' {
            let n1 = self.peek_off(p, 1);
            if n1 == Some('=') {
                Ok(Some((TokenType::Punct(Punct::SlashEquals), p + 2)))
            } else if n1 == Some('/') {
                Ok(Some((TokenType::SingleLineComment, self.run_end_exec(p + 2, CharClass::NotNewline))))
            } else if n1 == Some('*') {
                let (e, _) = self.block_end_exec(p + 2);
                Ok(Some((TokenType::MultiLineComment, e)))
            } else {
                Ok(Some((TokenType::Punct(Punct::Slash), p + 1)))
            }
        } else if in_class_exec(CharClass::IdentChar, c) {
            let e = self.run_end_exec(p, CharClass::IdentChar);
            match self.keyword_exec(p, e) {
                Some(k) => Ok(Some((k, e))),
                None => Ok(Some((TokenType::Identifier, e))),
            }
        } else if in_class_exec(CharClass::Space, c) {
            Ok(Some((TokenType::Whitespace, self.run_end_exec(p, CharClass::Space))))
        } else if c == '\'' {
            match self.peek_off(p, 1) {
                None => Err(TokenizerError::UnfinishedCharLiteral),
                Some(c1) => {
                    let (ch, q) = if c1 == '\\' {
                        if p + 2 >= n {
                            return Err(TokenizerError::UnfinishedCharLiteral);
                        }
                        (unescape(self.source.char_at(p + 2)), p + 3)
                    } else {
                        (c1, p + 2)
                    };
                    if self.peek_at(q) == Some('\'') {
                        Ok(Some((TokenType::CharLiteral(ch), q + 1)))
                    } else {
                        Err(TokenizerError::UnfinishedCharLiteral)
                    }
                },
            }
        } else if c == '"' {
            match self.string_exec(p + 1) {
                Some((t, e)) => Ok(Some((TokenType::StringLiteral(string_of(t)), e))),
                None => Err(TokenizerError::UnfinishedStringLiteral),
            }
        } else {
            match self.punct_exec(p) {
                Some((k, m)) => Ok(Some((TokenType::Punct(k), p + m))),
                None => Err(TokenizerError::Invalid(c)),
            }
        }
    }
}

/// The next token reported from `p`, with where it starts: whitespace and
/// comments are passed over unless `emit` holds.
pub open spec fn next_token(s: Seq<char>, p: int, emit: bool) -> (int, Lexed)
    decreases s.len() - p,
{
    match lex_at(s, p) {
        Lexed::Token(t, e) => {
            if !emit && is_trivia(t) && p < e <= s.len() {
                next_token(s, e, emit)
            } else {
                (p, Lexed::Token(t, e))
            }
        },
        l => (p, l),
    }
}

pub proof fn lemma_next_token_bounds(s: Seq<char>, p: int, emit: bool)
    requires
        0 <= p <= s.len(),
    ensures
        next_token(s, p, emit).1 matches Lexed::Token(_, e) ==> p <= next_token(s, p, emit).0 < e
            <= s.len(),
        p <= next_token(s, p, emit).0,
    decreases s.len() - p,
{
    lemma_lex_at_bounds(s, p);
    match lex_at(s, p) {
        Lexed::Token(t, e) => {
            if !emit && is_trivia(t) && p < e <= s.len() {
                lemma_next_token_bounds(s, e, emit);
            }
        },
        _ => {},
    }
}

/// All the tokens from `p` on, without whitespace and comments, and the
/// error that stopped tokenizing, if one did.
pub open spec fn tokens_from(s: Seq<char>, p: int) -> (Seq<TokenView>, Option<TokenizerError>)
    decreases s.len() - p,
{
    match next_token(s, p, false) {
        (st, Lexed::Token(t, e)) => {
            if p < e <= s.len() {
                let rest = tokens_from(s, e);
                (
                    seq![TokenView { t_type: t, position: position_of(s, st, e) }] + rest.0,
                    rest.1,
                )
            } else {
                (Seq::empty(), None)
            }
        },
        (_, Lexed::Fail(err)) => (Seq::empty(), Some(err)),
        (_, Lexed::End) => (Seq::empty(), None),
    }
}

/// All the tokens of a text.
pub open spec fn tokens_of(s: Seq<char>) -> (Seq<TokenView>, Option<TokenizerError>) {
    tokens_from(s, 0)
}

/// What `Tokenizer::get_next` returns, against the rules.
pub open spec fn next_as(r: Result<Option<Token>, TokenizerError>, s: Seq<char>, n: (int, Lexed)) -> bool {
    match n.1 {
        Lexed::End => r matches Ok(None),
        Lexed::Fail(err) => r == Err::<Option<Token>, TokenizerError>(err),
        Lexed::Token(t, e) => r matches Ok(Some(tok)) && tok@ == (TokenView {
            t_type: t,
            position: position_of(s, n.0, e),
        }),
    }
}

impl Tokenizer {
    /// Moves to `e`, keeping the line and line start up to date.
    fn advance(&mut self, e: usize)
        requires
            old(self).wf(),
            old(self).pos <= e <= old(self).source@.len(),
        ensures
            final(self).wf(),
            final(self).pos == e,
            final(self).source == old(self).source,
            final(self).emit_whitespace == old(self).emit_whitespace,
            final(self).diagnostics == old(self).diagnostics,
    {
        let ghost s = self.source@;
        while self.pos < e
            invariant
                self.wf(),
                s == self.source@,
                self.pos <= e <= s.len(),
                self.source == old(self).source,
                self.emit_whitespace == old(self).emit_whitespace,
                self.diagnostics == old(self).diagnostics,
            decreases e - self.pos,
        {
            if self.source.char_at(self.pos) == '\n' {
                self.line = self.line + 1;
                self.line_start = self.pos + 1;
            }
            self.pos = self.pos + 1;
        }
    }

    /// The next token, whitespace and comments included.
    pub fn get_next_with_whitespace(&mut self) -> (r: Result<Option<Token>, TokenizerError>)
        requires
            old(self).wf(),
        ensures
            final(self).wf(),
            next_as(r, old(self).text(), (old(self).pos_spec(), lex_at(old(self).text(), old(self).pos_spec()))),
            r matches Ok(Some(t)) ==> final(self).pos_spec() == t.position.end && lex_at(old(self).text(), old(self).pos_spec()) == Lexed::Token(t.t_type@, t.position.end as int),
            final(self).text() == old(self).text(),
            final(self).emit_whitespace_spec() == old(self).emit_whitespace_spec(),
            old(self).diagnostics_spec().is_prefix_of(final(self).diagnostics_spec()),
            final(self).diagnostics_spec().len() == old(self).diagnostics_spec().len() + if r is Ok
                && unclosed_comment_at(old(self).text(), old(self).pos_spec()) {
                1int
            } else {
                0int
            },
    {
        let ghost s = self.source@;
        let p = self.pos;
        proof {
            lemma_lex_at_bounds(s, p as int);
        }
        match self.lex_exec(p) {
            Err(e) => Err(e),
            Ok(None) => Ok(None),
            Ok(Some((t_type, e))) => {
                let position = TokenPosition {
                    start: p,
                    end: e,
                    line: self.line,
                    column: p - self.line_start,
                };
                let n = self.source.len();
                if p + 1 < n && self.source.char_at(p) == '/' && self.source.char_at(p + 1) == '*' {
                    let (_, closed) = self.block_end_exec(p + 2);
                    if !closed {
                        let d = Diagnostic::new(
                            position,
                            String::from_str("Unclosed multiline comment"),
                            DiagnosticLevel::Info,
                        );
                        self.diagnostics.push(d);
                    }
                }
                self.advance(e);
                Ok(Some(Token { position, t_type }))
            },
        }
    }

    /// The next token; whitespace and comments are skipped unless
    /// `emit_whitespace` is set.
    pub fn get_next(&mut self) -> (r: Result<Option<Token>, TokenizerError>)
        requires
            old(self).wf(),
        ensures
            final(self).wf(),
            next_as(r, old(self).text(), next_token(old(self).text(), old(self).pos_spec(), old(self).emit_whitespace_spec())),
            r matches Ok(Some(t)) ==> final(self).pos_spec() == t.position.end && next_token(old(self).text(), old(self).pos_spec(), old(self).emit_whitespace_spec()) == (t.position.start as int, Lexed::Token(t.t_type@, t.position.end as int)),
            final(self).text() == old(self).text(),
            final(self).emit_whitespace_spec() == old(self).emit_whitespace_spec(),
            old(self).diagnostics_spec().is_prefix_of(final(self).diagnostics_spec()),
    {
        let ghost s = self.source@;
        let ghost target = next_token(s, self.pos as int, self.emit_whitespace);
        loop
            invariant
                self.wf(),
                s == self.source@,
                self.emit_whitespace == old(self).emit_whitespace,
                target == next_token(s, self.pos as int, self.emit_whitespace),
                target == next_token(s, old(self).pos as int, old(self).emit_whitespace),
                s == old(self).source@,
                old(self).diagnostics_spec().is_prefix_of(self.diagnostics_spec()),
            decreases s.len() - self.pos,
        {
            let ghost p = self.pos as int;
            let ghost d0 = self.diagnostics@;
            proof {
                lemma_lex_at_bounds(s, p);
            }
            let r = self.get_next_with_whitespace();
            proof {
                assert(old(self).diagnostics_spec().is_prefix_of(self.diagnostics_spec())) by {
                    assert(d0.is_prefix_of(self.diagnostics@));
                }
            }
            assert(lex_at(s, p) matches Lexed::Token(_, e) ==> p < e <= s.len());
            match r {
                Ok(Some(t)) => {
                    assert(lex_at(s, p) == Lexed::Token(t.t_type@, t.position.end as int));
                    let trivia = match t.t_type {
                        TokenType::Whitespace => true,
                        TokenType::SingleLineComment => true,
                        TokenType::MultiLineComment => true,
                        _ => false,
                    };
                    assert(trivia == is_trivia(t.t_type@));
                    if self.emit_whitespace || !trivia {
                        assert(next_token(s, p, self.emit_whitespace) == (p, lex_at(s, p)));
                        return Ok(Some(t));
                    }
                    assert(next_token(s, p, self.emit_whitespace) == next_token(s, self.pos as int, self.emit_whitespace));
                },
                r => {
                    assert(next_token(s, p, self.emit_whitespace) == (p, lex_at(s, p)));
                    return r;
                },
            }
        }
    }

    /// Reads every remaining token, whitespace and comments left out, up to
    /// the end of the text or the first error.
    pub fn tokenize_all(&mut self) -> (r: (Vec<Token>, Option<TokenizerError>))
        requires
            old(self).wf(),
            !old(self).emit_whitespace_spec(),
        ensures
            final(self).wf(),
            (r.0@.map_values(|t: Token| t@), r.1) == tokens_from(old(self).text(), old(self).pos_spec()),
            final(self).text() == old(self).text(),
    {
        let ghost s = self.source@;
        let ghost p0 = self.pos as int;
        let mut toks: Vec<Token> = Vec::new();
        loop
            invariant
                self.wf(),
                s == self.source@,
                !self.emit_whitespace,
                s == old(self).source@,
                p0 == old(self).pos as int,
                tokens_from(s, p0) == (
                    toks@.map_values(|t: Token| t@) + tokens_from(s, self.pos as int).0,
                    tokens_from(s, self.pos as int).1,
                ),
            decreases s.len() - self.pos,
        {
            let ghost p = self.pos as int;
            proof {
                lemma_next_token_bounds(s, p, false);
            }
            match self.get_next() {
                Ok(Some(t)) => {
                    let ghost v = toks@.map_values(|t: Token| t@);
                    assert(tokens_from(s, p).0 == seq![t@] + tokens_from(s, self.pos as int).0);
                    let ghost rest = tokens_from(s, self.pos as int);
                    toks.push(t);
                    proof {
                        assert(toks@.map_values(|t: Token| t@) =~= v.push(t@));
                        assert(v + (seq![t@] + rest.0) =~= v.push(t@) + rest.0);
                    }
                },
                Ok(None) => {
                    assert(tokens_from(s, p) == (Seq::<TokenView>::empty(), None::<TokenizerError>));
                    assert(toks@.map_values(|t: Token| t@) + Seq::<TokenView>::empty() =~= toks@.map_values(|t: Token| t@));
                    return (toks, None);
                },
                Err(e) => {
                    assert(tokens_from(s, p) == (Seq::<TokenView>::empty(), Some(e)));
                    assert(toks@.map_values(|t: Token| t@) + Seq::<TokenView>::empty() =~= toks@.map_values(|t: Token| t@));
                    return (toks, Some(e));
                },
            }
        }
    }
}

/// Every token of `tokens_from` lies within the text.
pub proof fn lemma_tokens_from_positions(s: Seq<char>, p: int)
    requires
        0 <= p <= s.len(),
        s.len() <= usize::MAX,
    ensures
        forall|k: int|
            0 <= k < tokens_from(s, p).0.len() ==> (#[trigger] tokens_from(s, p).0[k]).position.start
                <= tokens_from(s, p).0[k].position.end <= s.len(),
    decreases s.len() - p,
{
    lemma_next_token_bounds(s, p, false);
    match next_token(s, p, false) {
        (st, Lexed::Token(t, e)) => {
            if p < e <= s.len() {
                lemma_tokens_from_positions(s, e);
                let rest = tokens_from(s, e);
                let head = TokenView { t_type: t, position: position_of(s, st, e) };
                assert(tokens_from(s, p).0 == seq![head] + rest.0);
                assert forall|k: int| 0 <= k < tokens_from(s, p).0.len() implies (
                #[trigger] tokens_from(s, p).0[k]).position.start <= tokens_from(s, p).0[k].position.end
                    <= s.len() by {
                    if k > 0 {
                        assert(tokens_from(s, p).0[k] == rest.0[k - 1]);
                    }
                }
            }
        },
        _ => {},
    }
}

pub proof fn lemma_run_end_prefix(s: Seq<char>, p: int, cl: CharClass, k: int)
    requires
        0 <= p <= k < run_end(s, p, cl),
    ensures
        in_class(cl, s[k]),
    decreases s.len() - p,
{
    if 0 <= p < s.len() && in_class(cl, s[p]) {
        if k > p {
            lemma_run_end_prefix(s, p + 1, cl, k);
        }
    }
}

} // verus!
