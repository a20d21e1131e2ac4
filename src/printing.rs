//! Rendering text for diagnostics.
use vstd::prelude::*;
use crate::text::{chars_of, string_of};
use crate::tokenizer::{
    digit_value, digits_end, digits_of, is_digit, lex_at, run_end, CharClass, Decimal,
    DecimalView, Lexed, Number, NumberView, Punct, TimeUnit, TokenType, TokenTypeView,
    scan_string, next_token, tokens_from, tokens_of, TokenView, position_of, is_trivia,
};

verus! {

/// How one character is written inside a quoted literal.
pub open spec fn escape_char(c: char) -> Seq<char> {
    if c == '\'' {
        seq!['\\', '\'']
    } else if c == '"' {
        seq!['\\', '"']
    } else if c == '\\' {
        seq!['\\', '\\']
    } else if c == '\t' {
        seq!['\\', 't']
    } else if c == '\r' {
        seq!['\\', 'r']
    } else if c == '\n' {
        seq!['\\', 'n']
    } else if c == '\0' {
        seq!['\\', '0']
    } else {
        seq![c]
    }
}

/// A text with every quote, backslash and control character escaped.
pub open spec fn escape_spec(s: Seq<char>) -> Seq<char>
    decreases s.len(),
{
    if s.len() == 0 {
        Seq::empty()
    } else {
        escape_spec(s.drop_last()) + escape_char(s.last())
    }
}

fn push_escaped(out: &mut Vec<char>, c: char)
    ensures
        final(out)@ == old(out)@ + escape_char(c),
{
    let ghost o = out@;
    if c == '\'' {
        out.push('\\');
        out.push('\'');
    } else if c == '"' {
        out.push('\\');
        out.push('"');
    } else if c == '\\' {
        out.push('\\');
        out.push('\\');
    } else if c == '\t' {
        out.push('\\');
        out.push('t');
    } else if c == '\r' {
        out.push('\\');
        out.push('r');
    } else if c == '\n' {
        out.push('\\');
        out.push('n');
    } else if c == '\0' {
        out.push('\\');
        out.push('0');
    } else {
        out.push(c);
    }
    assert(out@ =~= o + escape_char(c));
}

/// `s` with quotes, backslashes, tabs, newlines, carriage returns and NULs
/// written as backslash escapes.
pub fn escape(s: &str) -> (r: String)
    ensures
        r@ == escape_spec(s@),
{
    let v = chars_of(s);
    let mut out: Vec<char> = Vec::new();
    let mut i: usize = 0;
    assert(v@.subrange(0, 0) =~= Seq::<char>::empty());
    while i < v.len()
        invariant
            i <= v@.len(),
            out@ == escape_spec(v@.subrange(0, i as int)),
        decreases v@.len() - i,
    {
        push_escaped(&mut out, v[i]);
        assert(v@.subrange(0, i + 1).drop_last() =~= v@.subrange(0, i as int));
        i = i + 1;
    }
    assert(v@.subrange(0, v@.len() as int) =~= v@);
    string_of(out)
}

// ------------------------------------------------------------------
// Rendering numeric tokens
// ------------------------------------------------------------------

pub open spec fn digit_char(x: u8) -> char {
    if x == 0 {
        '0'
    } else if x == 1 {
        '1'
    } else if x == 2 {
        '2'
    } else if x == 3 {
        '3'
    } else if x == 4 {
        '4'
    } else if x == 5 {
        '5'
    } else if x == 6 {
        '6'
    } else if x == 7 {
        '7'
    } else if x == 8 {
        '8'
    } else {
        '9'
    }
}

pub open spec fn digits_text(d: Seq<u8>) -> Seq<char> {
    d.map_values(|x: u8| digit_char(x))
}

/// A non-empty sequence of decimal digits.
pub open spec fn valid_digits(d: Seq<u8>) -> bool {
    d.len() > 0 && forall|i: int| 0 <= i < d.len() ==> d[i] <= 9
}

pub open spec fn valid_decimal(d: DecimalView) -> bool {
    valid_digits(d.whole) && (d.frac.len() == 0 || valid_digits(d.frac))
}

pub open spec fn decimal_text(d: DecimalView) -> Seq<char> {
    if d.frac.len() == 0 {
        digits_text(d.whole)
    } else {
        digits_text(d.whole) + seq!['.'] + digits_text(d.frac)
    }
}

pub open spec fn unit_text(u: TimeUnit) -> Seq<char> {
    match u {
        TimeUnit::Hours => seq!['h'],
        TimeUnit::Minutes => seq!['m'],
        TimeUnit::Seconds => seq!['s'],
        TimeUnit::Millis => seq!['m', 's'],
        TimeUnit::Nanos => seq!['n', 's'],
    }
}

/// How a numeric literal is written.
pub open spec fn number_text(n: NumberView) -> Seq<char> {
    match n {
        NumberView::Integer(d) => digits_text(d),
        NumberView::Real(d) => digits_text(d.whole) + seq!['.'] + digits_text(d.frac),
        NumberView::Duration(d, u) => decimal_text(d) + unit_text(u),
        NumberView::Frequency(d) => decimal_text(d) + seq!['h', 'z'],
    }
}

/// The numeric literals the tokenizer can produce: digits in range, a real
/// with digits on both sides of its point, no nanosecond literal (`ns` is
/// only a unit word).
pub open spec fn valid_number(n: NumberView) -> bool {
    match n {
        NumberView::Integer(d) => valid_digits(d),
        NumberView::Real(d) => valid_digits(d.whole) && valid_digits(d.frac),
        NumberView::Duration(d, u) => valid_decimal(d) && u != TimeUnit::Nanos,
        NumberView::Frequency(d) => valid_decimal(d),
    }
}

proof fn lemma_digit_char(x: u8)
    requires
        x <= 9,
    ensures
        is_digit(digit_char(x)),
        digit_value(digit_char(x)) == x,
{
}

/// A run of digits from `a` to `b` ends at `b`.
proof fn lemma_digit_run(s: Seq<char>, a: int, b: int)
    requires
        0 <= a <= b <= s.len(),
        forall|i: int| a <= i < b ==> is_digit(#[trigger] s[i]),
        b == s.len() || !is_digit(s[b]),
    ensures
        run_end(s, a, CharClass::Digit) == b,
    decreases b - a,
{
    if a < b {
        lemma_digit_run(s, a + 1, b);
    }
}

/// Digits written out at `a` read back as the same digits, up to the next non-digit.
proof fn lemma_read_digits(s: Seq<char>, a: int, d: Seq<u8>)
    requires
        valid_digits(d),
        0 <= a,
        a + d.len() <= s.len(),
        s.subrange(a, a + d.len()) == digits_text(d),
        a + d.len() == s.len() || !is_digit(s[a + d.len()]),
    ensures
        digits_end(s, a) == a + d.len(),
        digits_of(s, a, a + d.len()) == d,
{
    assert forall|i: int| a <= i < a + d.len() implies is_digit(#[trigger] s[i]) by {
        assert(s[i] == s.subrange(a, a + d.len())[i - a]);
        lemma_digit_char(d[i - a]);
    }
    lemma_digit_run(s, a, a + d.len());
    assert forall|i: int| 0 <= i < d.len() implies #[trigger] digits_of(s, a, a + d.len())[i] == d[i] by {
        assert(s[a + i] == s.subrange(a, a + d.len())[i]);
        lemma_digit_char(d[i]);
    }
    assert(digits_of(s, a, a + d.len()) =~= d);
}

pub open spec fn body_of(d: DecimalView) -> NumberView {
    if d.frac.len() == 0 {
        NumberView::Integer(d.whole)
    } else {
        NumberView::Real(d)
    }
}

/// A decimal written out at the start of `s` reads back as its number body.
proof fn lemma_decimal_body(s: Seq<char>, d: DecimalView)
    requires
        valid_decimal(d),
        decimal_text(d).len() <= s.len(),
        s.subrange(0, decimal_text(d).len() as int) == decimal_text(d),
        decimal_text(d).len() == s.len() || (!is_digit(s[decimal_text(d).len() as int]) && s[decimal_text(d).len() as int] != '.'),
    ensures
        crate::tokenizer::number_body(s, 0) == (body_of(d), decimal_text(d).len() as int),
        crate::tokenizer::decimal_of(body_of(d)) == d,
{
    let w = d.whole;
    let wl = w.len() as int;
    let t = decimal_text(d);
    assert(s.subrange(0, wl) =~= digits_text(w)) by {
        assert forall|i: int| 0 <= i < wl implies s.subrange(0, wl)[i] == digits_text(w)[i] by {
            assert(s[i] == t[i]);
        }
    }
    assert(s[0] == t[0]);
    lemma_digit_char(w[0]);
    if d.frac.len() == 0 {
        assert(d.frac =~= Seq::<u8>::empty());
        lemma_read_digits(s, 0, w);
    } else {
        let f = d.frac;
        let fl = f.len() as int;
        assert(s[wl] == t[wl]);
        assert(s.subrange(wl + 1, wl + 1 + fl) =~= digits_text(f)) by {
            assert forall|i: int| 0 <= i < fl implies s.subrange(wl + 1, wl + 1 + fl)[i] == digits_text(f)[i] by {
                assert(s[wl + 1 + i] == t[wl + 1 + i]);
            }
        }
        assert(!is_digit(s[wl]));
        lemma_read_digits(s, 0, w);
        assert(s[wl + 1] == t[wl + 1]);
        lemma_digit_char(f[0]);
        lemma_read_digits(s, wl + 1, f);
    }
}

/// A numeric literal written out reads back as itself.
pub proof fn lemma_number_round_trip(n: NumberView)
    requires
        valid_number(n),
    ensures
        lex_at(number_text(n), 0) == Lexed::Token(
            TokenTypeView::NumberLiteral(n),
            number_text(n).len() as int,
        ),
{
    let s = number_text(n);
    match n {
        NumberView::Integer(w) => {
            let d = DecimalView { whole: w, frac: Seq::empty() };
            assert(s =~= decimal_text(d));
            assert(s.subrange(0, s.len() as int) =~= s);
            lemma_decimal_body(s, d);
            lemma_digit_char(w[0]);
        },
        NumberView::Real(d) => {
            assert(s =~= decimal_text(d));
            assert(s.subrange(0, s.len() as int) =~= s);
            lemma_decimal_body(s, d);
            lemma_digit_char(d.whole[0]);
        },
        NumberView::Duration(d, u) => {
            let q = decimal_text(d).len() as int;
            assert(s.subrange(0, q) =~= decimal_text(d));
            assert(s[q] == unit_text(u)[0]);
            lemma_decimal_body(s, d);
            assert(s[0] == decimal_text(d)[0]);
            lemma_digit_char(d.whole[0]);
            assert(u == TimeUnit::Millis ==> s[q + 1] == 's');
        },
        NumberView::Frequency(d) => {
            let q = decimal_text(d).len() as int;
            assert(s.subrange(0, q) =~= decimal_text(d));
            assert(s[q] == 'h');
            assert(s[q + 1] == 'z');
            lemma_decimal_body(s, d);
            assert(s[0] == decimal_text(d)[0]);
            lemma_digit_char(d.whole[0]);
        },
    }
}

pub fn digit_char_exec(x: u8) -> (r: char)
    ensures
        r == digit_char(x),
{
    if x == 0 {
        '0'
    } else if x == 1 {
        '1'
    } else if x == 2 {
        '2'
    } else if x == 3 {
        '3'
    } else if x == 4 {
        '4'
    } else if x == 5 {
        '5'
    } else if x == 6 {
        '6'
    } else if x == 7 {
        '7'
    } else if x == 8 {
        '8'
    } else {
        '9'
    }
}

fn push_digits(out: &mut Vec<char>, d: &Vec<u8>)
    ensures
        final(out)@ == old(out)@ + digits_text(d@),
{
    let ghost o = out@;
    let mut i: usize = 0;
    while i < d.len()
        invariant
            i <= d@.len(),
            out@ == o + digits_text(d@.subrange(0, i as int)),
        decreases d@.len() - i,
    {
        out.push(digit_char_exec(d[i]));
        i = i + 1;
        assert(digits_text(d@.subrange(0, i as int)) =~= digits_text(d@.subrange(0, i - 1)).push(
            digit_char(d@[i - 1]),
        ));
        assert(out@ =~= o + digits_text(d@.subrange(0, i as int)));
    }
    assert(d@.subrange(0, d@.len() as int) =~= d@);
}

fn push_decimal(out: &mut Vec<char>, d: &Decimal)
    ensures
        final(out)@ == old(out)@ + decimal_text(d@),
{
    let ghost o = out@;
    push_digits(out, &d.whole);
    if d.frac.len() > 0 {
        out.push('.');
        push_digits(out, &d.frac);
        assert(out@ =~= o + decimal_text(d@));
    }
}

fn push_unit(out: &mut Vec<char>, u: TimeUnit)
    ensures
        final(out)@ == old(out)@ + unit_text(u),
{
    let ghost o = out@;
    match u {
        TimeUnit::Hours => out.push('h'),
        TimeUnit::Minutes => out.push('m'),
        TimeUnit::Seconds => out.push('s'),
        TimeUnit::Millis => {
            out.push('m');
            out.push('s');
        },
        TimeUnit::Nanos => {
            out.push('n');
            out.push('s');
        },
    }
    assert(out@ =~= o + unit_text(u));
}

/// How a numeric literal is written: its digits and its unit suffix.
pub fn number_to_text(n: &Number) -> (r: String)
    ensures
        r@ == number_text(n@),
{
    let mut out: Vec<char> = Vec::new();
    match n {
        Number::Integer(d) => push_digits(&mut out, d),
        Number::Real(d) => {
            push_digits(&mut out, &d.whole);
            out.push('.');
            push_digits(&mut out, &d.frac);
        },
        Number::Duration(d, u) => {
            push_decimal(&mut out, d);
            push_unit(&mut out, *u);
        },
        Number::Frequency(d) => {
            push_decimal(&mut out, d);
            out.push('h');
            out.push('z');
        },
    }
    assert(out@ =~= number_text(n@));
    string_of(out)
}

/// How each operator is written: up to three characters and their count.
pub open spec fn punct_spelling(p: Punct) -> (char, char, char, nat) {
    match p {
        Punct::DoublePlus => ('+', '+', ' ', 2),
        Punct::DoubleMinus => ('-', '-', ' ', 2),
        Punct::Tilda => ('~', ' ', ' ', 1),
        Punct::Bang => ('!', ' ', ' ', 1),
        Punct::Plus => ('+', ' ', ' ', 1),
        Punct::Minus => ('-', ' ', ' ', 1),
        Punct::Star => ('*', ' ', ' ', 1),
        Punct::Slash => ('/', ' ', ' ', 1),
        Punct::BangEquals => ('!', '=', ' ', 2),
        Punct::RightShift => ('>', '>', ' ', 2),
        Punct::LesserThan => ('<', ' ', ' ', 1),
        Punct::DoubleStar => ('*', '*', ' ', 2),
        Punct::DoubleAnd => ('&', '&', ' ', 2),
        Punct::DoubleOr => ('|', '|', ' ', 2),
        Punct::DoubleEquals => ('=', '=', ' ', 2),
        Punct::GreaterThan => ('>', ' ', ' ', 1),
        Punct::Caret => ('^', ' ', ' ', 1),
        Punct::Percent => ('%', ' ', ' ', 1),
        Punct::SingleAnd => ('&', ' ', ' ', 1),
        Punct::SingleOr => ('|', ' ', ' ', 1),
        Punct::LeftShift => ('<', '<', ' ', 2),
        Punct::Equals => ('=', ' ', ' ', 1),
        Punct::PlusEquals => ('+', '=', ' ', 2),
        Punct::MinusEquals => ('-', '=', ' ', 2),
        Punct::StarEquals => ('*', '=', ' ', 2),
        Punct::SlashEquals => ('/', '=', ' ', 2),
        Punct::TildaEquals => ('~', '=', ' ', 2),
        Punct::DoubleStarEquals => ('*', '*', '=', 3),
        Punct::DoubleAndEquals => ('&', '&', '=', 3),
        Punct::DoubleOrEquals => ('|', '|', '=', 3),
        Punct::LesserThanEquals => ('<', '=', ' ', 2),
        Punct::GreaterThanEquals => ('>', '=', ' ', 2),
        Punct::CaretEquals => ('^', '=', ' ', 2),
        Punct::PercentEquals => ('%', '=', ' ', 2),
        Punct::SingleAndEquals => ('&', '=', ' ', 2),
        Punct::SingleOrEquals => ('|', '=', ' ', 2),
        Punct::LeftShiftEquals => ('<', '<', '=', 3),
        Punct::RightShiftEquals => ('>', '>', '=', 3),
        Punct::LeftParenthesis => ('(', ' ', ' ', 1),
        Punct::RightParenthesis => (')', ' ', ' ', 1),
        Punct::LeftSquareBraces => ('[', ' ', ' ', 1),
        Punct::RightSquareBraces => (']', ' ', ' ', 1),
        Punct::LeftCurlyBraces => ('{', ' ', ' ', 1),
        Punct::RightCurlyBraces => ('}', ' ', ' ', 1),
        Punct::FatArrow => ('=', '>', ' ', 2),
        Punct::Colon => (':', ' ', ' ', 1),
        Punct::Dot => ('.', ' ', ' ', 1),
        Punct::DoubleDot => ('.', '.', ' ', 2),
        Punct::TripleDot => ('.', '.', '.', 3),
        Punct::HashSymbol => ('#', ' ', ' ', 1),
        Punct::AtSign => ('@', ' ', ' ', 1),
        Punct::Comma => (',', ' ', ' ', 1),
        Punct::QuestionMark => ('?', ' ', ' ', 1),
        Punct::Semicolon => (';', ' ', ' ', 1),
        Punct::Dollar => ('$', ' ', ' ', 1),
        Punct::DoubleDollar => ('$', '$', ' ', 2),
    }
}

pub open spec fn punct_text(p: Punct) -> Seq<char> {
    let (a, b, c, n) = punct_spelling(p);
    seq![a, b, c].subrange(0, n as int)
}

/// An operator written out reads back as itself.
pub proof fn lemma_punct_round_trip(p: Punct)
    ensures
        lex_at(punct_text(p), 0) == Lexed::Token(TokenTypeView::Punct(p), punct_text(p).len() as int),
{
    let s = punct_text(p);
    let (a, b, c, n) = punct_spelling(p);
    assert(s.len() == n);
    assert(s[0] == a);
    assert(n > 1 ==> s[1] == b);
    assert(n > 2 ==> s[2] == c);
}

pub open spec fn keyword_text(t: TokenTypeView) -> Seq<char> {
    match t {
        TokenTypeView::OnKw => seq!['o', 'n'],
        TokenTypeView::FromKw => seq!['f', 'r', 'o', 'm'],
        TokenTypeView::ToKw => seq!['t', 'o'],
        _ => seq!['_'],
    }
}

proof fn lemma_class_run(s: Seq<char>, a: int, b: int, cl: CharClass)
    requires
        0 <= a <= b <= s.len(),
        forall|i: int| a <= i < b ==> crate::tokenizer::in_class(cl, #[trigger] s[i]),
        b == s.len() || !crate::tokenizer::in_class(cl, s[b]),
    ensures
        run_end(s, a, cl) == b,
    decreases b - a,
{
    if a < b {
        lemma_class_run(s, a + 1, b, cl);
    }
}

/// A keyword written out reads back as itself.
pub proof fn lemma_keyword_round_trip(t: TokenTypeView)
    requires
        t == TokenTypeView::OnKw || t == TokenTypeView::FromKw || t == TokenTypeView::ToKw || t
            == TokenTypeView::Underscore,
    ensures
        lex_at(keyword_text(t), 0) == Lexed::Token(t, keyword_text(t).len() as int),
{
    let s = keyword_text(t);
    reveal_strlit("on");
    reveal_strlit("from");
    reveal_strlit("to");
    reveal_strlit("_");
    lemma_class_run(s, 0, s.len() as int, CharClass::IdentChar);
    assert(s.subrange(0, s.len() as int) =~= s);
    if t == TokenTypeView::OnKw {
        assert(s =~= "on"@);
    } else if t == TokenTypeView::FromKw {
        assert(s =~= "from"@);
        assert(s != "on"@);
    } else if t == TokenTypeView::ToKw {
        assert(s =~= "to"@);
        assert(s[0] != "on"@[0]);
        assert(s != "from"@);
    } else {
        assert(s =~= "_"@);
        assert(s != "on"@ && s != "from"@ && s != "to"@);
    }
}

/// An identifier's text reads back as one identifier covering it: any
/// non-empty run of letters and underscores that is not a keyword.
pub proof fn lemma_identifier_round_trip(w: Seq<char>)
    requires
        w.len() > 0,
        forall|i: int| 0 <= i < w.len() ==> crate::tokenizer::is_ident_char(#[trigger] w[i]),
        crate::tokenizer::keyword(w) is None,
    ensures
        lex_at(w, 0) == Lexed::Token(TokenTypeView::Identifier, w.len() as int),
        tokens_of(w) == (
            seq![TokenView { t_type: TokenTypeView::Identifier, position: position_of(w, 0, w.len() as int) }],
            None::<crate::tokenizer::TokenizerError>,
        ),
{
    lemma_class_run(w, 0, w.len() as int, CharClass::IdentChar);
    assert(w.subrange(0, w.len() as int) =~= w);
    assert(!is_digit(w[0]));
    let t = TokenTypeView::Identifier;
    assert(next_token(w, 0, false) == (0int, Lexed::Token(t, w.len() as int)));
    assert(next_token(w, w.len() as int, false) == (w.len() as int, Lexed::End));
    assert(tokens_from(w, w.len() as int) == (Seq::<TokenView>::empty(), None::<crate::tokenizer::TokenizerError>));
    assert(seq![TokenView { t_type: t, position: position_of(w, 0, w.len() as int) }] + Seq::<TokenView>::empty() =~= seq![TokenView { t_type: t, position: position_of(w, 0, w.len() as int) }]);
}

/// A run of whitespace reads back as one whitespace token covering it.
pub proof fn lemma_whitespace_round_trip(w: Seq<char>)
    requires
        w.len() > 0,
        forall|i: int| 0 <= i < w.len() ==> crate::tokenizer::is_space(#[trigger] w[i]),
    ensures
        lex_at(w, 0) == Lexed::Token(TokenTypeView::Whitespace, w.len() as int),
{
    lemma_class_run(w, 0, w.len() as int, CharClass::Space);
    assert(!is_digit(w[0]) && w[0] != '/' && !crate::tokenizer::is_ident_char(w[0]));
}

/// How a character literal is written: backslash escapes for a backslash,
/// a newline, a tab and NUL.
pub open spec fn char_text(c: char) -> Seq<char> {
    if c == '\\' {
        seq!['\'', '\\', '\\', '\'']
    } else if c == '\n' {
        seq!['\'', '\\', 'n', '\'']
    } else if c == '\t' {
        seq!['\'', '\\', 't', '\'']
    } else if c == '\0' {
        seq!['\'', '\\', '0', '\'']
    } else {
        seq!['\'', c, '\'']
    }
}

/// A character literal written out reads back as itself.
pub proof fn lemma_char_round_trip(c: char)
    ensures
        lex_at(char_text(c), 0) == Lexed::Token(TokenTypeView::CharLiteral(c), char_text(c).len() as int),
{
}

/// How one character is written inside a string literal.
pub open spec fn string_char(c: char) -> Seq<char> {
    if c == '"' || c == '\\' {
        seq!['\\', c]
    } else {
        seq![c]
    }
}

pub open spec fn string_body(s: Seq<char>) -> Seq<char>
    decreases s.len(),
{
    if s.len() == 0 {
        Seq::empty()
    } else {
        string_char(s[0]) + string_body(s.drop_first())
    }
}

/// How a string literal is written: quoted, with quotes and backslashes escaped.
pub open spec fn string_text(s: Seq<char>) -> Seq<char> {
    seq!['"'] + string_body(s) + seq!['"']
}

proof fn lemma_string_body_snoc(s: Seq<char>, c: char)
    ensures
        string_body(s.push(c)) == string_body(s) + string_char(c),
    decreases s.len(),
{
    if s.len() == 0 {
        assert(s.push(c).drop_first() =~= Seq::<char>::empty());
        assert(string_body(Seq::<char>::empty()) == Seq::<char>::empty());
        assert(s.push(c)[0] == c);
        assert(s =~= Seq::<char>::empty());
        assert(string_body(s.push(c)) =~= string_char(c));
    } else {
        assert(s.push(c).drop_first() =~= s.drop_first().push(c));
        lemma_string_body_snoc(s.drop_first(), c);
        assert(string_body(s.push(c)) =~= string_body(s) + string_char(c));
    }
}

proof fn lemma_scan_body(pre: Seq<char>, t: Seq<char>)
    ensures
        scan_string(pre + string_body(t) + seq!['"'], pre.len() as int) == Some(
            (t, (pre.len() + string_body(t).len() + 1) as int),
        ),
    decreases t.len(),
{
    let text = pre + string_body(t) + seq!['"'];
    if t.len() == 0 {
        assert(text[pre.len() as int] == '"');
        assert(t =~= Seq::<char>::empty());
    } else {
        let c = t[0];
        let pre2 = pre + string_char(c);
        assert(text =~= pre2 + string_body(t.drop_first()) + seq!['"']);
        lemma_scan_body(pre2, t.drop_first());
        assert(seq![c] + t.drop_first() =~= t);
        if c == '"' || c == '\\' {
            assert(text[pre.len() as int] == '\\');
            assert(text[pre.len() as int + 1] == c);
        } else {
            assert(text[pre.len() as int] == c);
        }
    }
}

/// A string literal written out reads back as itself.
pub proof fn lemma_string_round_trip(t: Seq<char>)
    ensures
        lex_at(string_text(t), 0) == Lexed::Token(TokenTypeView::StringLiteral(t), string_text(t).len() as int),
{
    let s = string_text(t);
    lemma_scan_body(seq!['"'], t);
    assert(seq!['"'] + string_body(t) + seq!['"'] == s);
    assert(s[0] == '"');
}

/// How a token is written, where its type alone says: identifiers,
/// whitespace and comments are read from the source instead.
pub open spec fn token_text(t: TokenTypeView) -> Option<Seq<char>> {
    match t {
        TokenTypeView::NumberLiteral(n) => Some(number_text(n)),
        TokenTypeView::StringLiteral(s) => Some(string_text(s)),
        TokenTypeView::CharLiteral(c) => Some(char_text(c)),
        TokenTypeView::OnKw | TokenTypeView::FromKw | TokenTypeView::ToKw
        | TokenTypeView::Underscore => Some(keyword_text(t)),
        TokenTypeView::Punct(p) => Some(punct_text(p)),
        _ => None,
    }
}

pub open spec fn valid_token(t: TokenTypeView) -> bool {
    match t {
        TokenTypeView::NumberLiteral(n) => valid_number(n),
        _ => true,
    }
}

/// Writing a token out and tokenizing the text gives back exactly that one
/// token, spanning the whole text.
pub proof fn lemma_render_round_trip(t: TokenTypeView)
    requires
        valid_token(t),
        token_text(t) is Some,
    ensures
        lex_at(token_text(t)->0, 0) == Lexed::Token(t, token_text(t)->0.len() as int),
        tokens_of(token_text(t)->0) == (
            seq![TokenView { t_type: t, position: position_of(token_text(t)->0, 0, token_text(t)->0.len() as int) }],
            None::<crate::tokenizer::TokenizerError>,
        ),
{
    let s = token_text(t)->0;
    match t {
        TokenTypeView::NumberLiteral(n) => lemma_number_round_trip(n),
        TokenTypeView::StringLiteral(x) => lemma_string_round_trip(x),
        TokenTypeView::CharLiteral(c) => lemma_char_round_trip(c),
        TokenTypeView::Punct(p) => lemma_punct_round_trip(p),
        _ => lemma_keyword_round_trip(t),
    }
    assert(!is_trivia(t));
    assert(next_token(s, 0, false) == (0int, Lexed::Token(t, s.len() as int)));
    assert(lex_at(s, s.len() as int) == Lexed::End);
    assert(next_token(s, s.len() as int, false) == (s.len() as int, Lexed::End));
    assert(tokens_from(s, s.len() as int) == (Seq::<TokenView>::empty(), None::<crate::tokenizer::TokenizerError>));
    assert(seq![TokenView { t_type: t, position: position_of(s, 0, s.len() as int) }] + Seq::<TokenView>::empty() =~= seq![TokenView { t_type: t, position: position_of(s, 0, s.len() as int) }]);
}

fn punct_spelling_exec(p: Punct) -> (r: (char, char, char, usize))
    ensures
        (r.0, r.1, r.2, r.3 as nat) == punct_spelling(p),
{
    match p {
        Punct::DoublePlus => ('+', '+', ' ', 2),
        Punct::DoubleMinus => ('-', '-', ' ', 2),
        Punct::Tilda => ('~', ' ', ' ', 1),
        Punct::Bang => ('!', ' ', ' ', 1),
        Punct::Plus => ('+', ' ', ' ', 1),
        Punct::Minus => ('-', ' ', ' ', 1),
        Punct::Star => ('*', ' ', ' ', 1),
        Punct::Slash => ('/', ' ', ' ', 1),
        Punct::BangEquals => ('!', '=', ' ', 2),
        Punct::RightShift => ('>', '>', ' ', 2),
        Punct::LesserThan => ('<', ' ', ' ', 1),
        Punct::DoubleStar => ('*', '*', ' ', 2),
        Punct::DoubleAnd => ('&', '&', ' ', 2),
        Punct::DoubleOr => ('|', '|', ' ', 2),
        Punct::DoubleEquals => ('=', '=', ' ', 2),
        Punct::GreaterThan => ('>', ' ', ' ', 1),
        Punct::Caret => ('^', ' ', ' ', 1),
        Punct::Percent => ('%', ' ', ' ', 1),
        Punct::SingleAnd => ('&', ' ', ' ', 1),
        Punct::SingleOr => ('|', ' ', ' ', 1),
        Punct::LeftShift => ('<', '<', ' ', 2),
        Punct::Equals => ('=', ' ', ' ', 1),
        Punct::PlusEquals => ('+', '=', ' ', 2),
        Punct::MinusEquals => ('-', '=', ' ', 2),
        Punct::StarEquals => ('*', '=', ' ', 2),
        Punct::SlashEquals => ('/', '=', ' ', 2),
        Punct::TildaEquals => ('~', '=', ' ', 2),
        Punct::DoubleStarEquals => ('*', '*', '=', 3),
        Punct::DoubleAndEquals => ('&', '&', '=', 3),
        Punct::DoubleOrEquals => ('|', '|', '=', 3),
        Punct::LesserThanEquals => ('<', '=', ' ', 2),
        Punct::GreaterThanEquals => ('>', '=', ' ', 2),
        Punct::CaretEquals => ('^', '=', ' ', 2),
        Punct::PercentEquals => ('%', '=', ' ', 2),
        Punct::SingleAndEquals => ('&', '=', ' ', 2),
        Punct::SingleOrEquals => ('|', '=', ' ', 2),
        Punct::LeftShiftEquals => ('<', '<', '=', 3),
        Punct::RightShiftEquals => ('>', '>', '=', 3),
        Punct::LeftParenthesis => ('(', ' ', ' ', 1),
        Punct::RightParenthesis => (')', ' ', ' ', 1),
        Punct::LeftSquareBraces => ('[', ' ', ' ', 1),
        Punct::RightSquareBraces => (']', ' ', ' ', 1),
        Punct::LeftCurlyBraces => ('{', ' ', ' ', 1),
        Punct::RightCurlyBraces => ('}', ' ', ' ', 1),
        Punct::FatArrow => ('=', '>', ' ', 2),
        Punct::Colon => (':', ' ', ' ', 1),
        Punct::Dot => ('.', ' ', ' ', 1),
        Punct::DoubleDot => ('.', '.', ' ', 2),
        Punct::TripleDot => ('.', '.', '.', 3),
        Punct::HashSymbol => ('#', ' ', ' ', 1),
        Punct::AtSign => ('@', ' ', ' ', 1),
        Punct::Comma => (',', ' ', ' ', 1),
        Punct::QuestionMark => ('?', ' ', ' ', 1),
        Punct::Semicolon => (';', ' ', ' ', 1),
        Punct::Dollar => ('$', ' ', ' ', 1),
        Punct::DoubleDollar => ('$', '$', ' ', 2),
    }
}

fn push_string_char(out: &mut Vec<char>, c: char)
    ensures
        final(out)@ == old(out)@ + string_char(c),
{
    let ghost o = out@;
    if c == '"' || c == '\\' {
        out.push('\\');
    }
    out.push(c);
    assert(out@ =~= o + string_char(c));
}

/// Writes a token out, where its type alone says how (see `token_text`):
/// `None` for identifiers, whitespace and comments.
pub fn render(t: &TokenType) -> (r: Option<String>)
    ensures
        match token_text(t@) {
            Some(x) => r matches Some(y) && y@ == x,
            None => r is None,
        },
{
    let mut out: Vec<char> = Vec::new();
    match t {
        TokenType::Identifier | TokenType::Whitespace | TokenType::SingleLineComment
        | TokenType::MultiLineComment => {
            return None;
        },
        TokenType::NumberLiteral(n) => {
            return Some(number_to_text(n));
        },
        TokenType::StringLiteral(x) => {
            let v = chars_of(x.as_str());
            out.push('"');
            let mut i: usize = 0;
            assert(v@.subrange(0, 0) =~= Seq::<char>::empty());
            assert(out@ =~= seq!['"'] + string_body(v@.subrange(0, 0)));
            while i < v.len()
                invariant
                    i <= v@.len(),
                    out@ == seq!['"'] + string_body(v@.subrange(0, i as int)),
                decreases v@.len() - i,
            {
                proof {
                    assert(v@.subrange(0, i + 1) =~= v@.subrange(0, i as int).push(v@[i as int]));
                    lemma_string_body_snoc(v@.subrange(0, i as int), v@[i as int]);
                }
                push_string_char(&mut out, v[i]);
                i = i + 1;
            }
            assert(v@.subrange(0, v@.len() as int) =~= v@);
            out.push('"');
        },
        TokenType::CharLiteral(c) => {
            let c = *c;
            out.push('\'');
            if c == '\\' {
                out.push('\\');
                out.push('\\');
            } else if c == '\n' {
                out.push('\\');
                out.push('n');
            } else if c == '\t' {
                out.push('\\');
                out.push('t');
            } else if c == '\0' {
                out.push('\\');
                out.push('0');
            } else {
                out.push(c);
            }
            out.push('\'');
        },
        TokenType::OnKw => {
            out.push('o');
            out.push('n');
        },
        TokenType::FromKw => {
            out.push('f');
            out.push('r');
            out.push('o');
            out.push('m');
        },
        TokenType::ToKw => {
            out.push('t');
            out.push('o');
        },
        TokenType::Underscore => {
            out.push('_');
        },
        TokenType::Punct(p) => {
            let (a, b, c, n) = punct_spelling_exec(*p);
            out.push(a);
            if n > 1 {
                out.push(b);
            }
            if n > 2 {
                out.push(c);
            }
        },
    }
    assert(out@ =~= token_text(t@)->0);
    Some(string_of(out))
}

/// Writes a token out: identifiers, whitespace and comments as the source
/// text they cover (where that lies in `source`), the others as `render` does.
pub fn render_token(tok: &crate::tokenizer::Token, source: &crate::source::StringSource) -> (r: Option<String>)
    ensures
        token_text(tok.t_type@) is Some ==> (r matches Some(y) && y@ == token_text(tok.t_type@)->0),
        token_text(tok.t_type@) is None ==> (if tok.position.start <= tok.position.end <= source@.len() {
            r matches Some(y) && y@ == source@.subrange(tok.position.start as int, tok.position.end as int)
        } else {
            r is None
        }),
{
    match tok.t_type {
        TokenType::Identifier | TokenType::Whitespace | TokenType::SingleLineComment
        | TokenType::MultiLineComment => tok.position.get_text(source),
        _ => render(&tok.t_type),
    }
}

} // verus!
