use songsynth::expr::MathFunc;
use songsynth::parser::digits_to_usize;
use songsynth::printing::escape;
use songsynth::result::ParserResult;
use songsynth::source::{Diagnostic, DiagnosticLevel};
use songsynth::tokenizer::TokenPosition;
use songsynth::wav::WaveDesc;

#[test]
fn escape_quotes_and_controls() {
    assert_eq!(escape("a'b\"c\\d\te\rf\ng\0"), "a\\'b\\\"c\\\\d\\te\\rf\\ng\\0");
    assert_eq!(escape("plain"), "plain");
    assert_eq!(escape(""), "");
}

#[test]
fn parser_result_conversions() {
    let v: ParserResult<u8, u8> = ParserResult::Value(3);
    assert_eq!(v.to_res_opt(), Ok(Some(3)));
    let e: ParserResult<u8, u8> = ParserResult::Error(4);
    assert_eq!(e.to_opt_res(), Some(Err(4)));
    let d: ParserResult<u8, u8> = ParserResult::Done;
    assert_eq!(d.to_res_opt(), Ok(None));
    let d: ParserResult<u8, u8> = ParserResult::Done;
    assert_eq!(d.to_opt_res(), None);
}

#[test]
fn math_function_names() {
    let name: Vec<char> = "lg".chars().collect();
    assert_eq!(MathFunc::from_name(&name), Some(MathFunc::Log10));
    let name: Vec<char> = "sqrt".chars().collect();
    assert!(MathFunc::is_func(&name));
    let name: Vec<char> = "pi".chars().collect();
    assert!(!MathFunc::is_func(&name));
}

#[test]
fn digits_values() {
    assert_eq!(digits_to_usize(&vec![4, 4, 0]), Some(440));
    assert_eq!(digits_to_usize(&vec![]), Some(0));
    assert_eq!(digits_to_usize(&vec![9; 25]), None);
}

#[test]
fn diagnostic_accessors() {
    let p = TokenPosition { start: 1, end: 3, line: 0, column: 1 };
    let d = Diagnostic::new(p, "hi".to_string(), DiagnosticLevel::Warning);
    assert_eq!(*d.position(), p);
    assert_eq!(d.message(), "hi");
    assert_eq!(*d.level(), DiagnosticLevel::Warning);
    assert!(DiagnosticLevel::Info < DiagnosticLevel::Abort);
}

#[test]
fn wave_header_bytes() {
    let w = WaveDesc::from_data(2, 44100, 16);
    let mut out = vec![];
    w.write(&[1, 2, 3, 4], &mut out);
    assert_eq!(out.len(), 48);
    assert_eq!(&out[0..4], b"RIFF");
    assert_eq!(&out[4..8], &40u32.to_le_bytes());
    assert_eq!(&out[8..16], b"WAVEfmt ");
    assert_eq!(&out[16..20], &16u32.to_le_bytes());
    assert_eq!(&out[20..22], &1u16.to_le_bytes());
    assert_eq!(&out[22..24], &2u16.to_le_bytes());
    assert_eq!(&out[24..28], &44100u32.to_le_bytes());
    assert_eq!(&out[28..32], &176400u32.to_le_bytes());
    assert_eq!(&out[32..34], &4u16.to_le_bytes());
    assert_eq!(&out[34..36], &16u16.to_le_bytes());
    assert_eq!(&out[36..40], b"data");
    assert_eq!(&out[40..44], &4u32.to_le_bytes());
    assert_eq!(&out[44..48], &[1, 2, 3, 4]);
}
