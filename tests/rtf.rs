use rtfcre::{parse_rtf, Dictionary};

const RTF: &str = r#"
  {\rtf1\ansi{\*\cxrev100}\cxdict{\*\cxsystem Test}
    {\*\cxs TEFT}test
    {\*\cxs TEFTS}tests
    {\*\cxs TEFTD}tested
    {\*\cxs TEFGT}testing
    {\*\cxs TEFT/-G}testing
  }"#;

const RTF_EMPTY: &str = r#"
  {\rtf1\ansi{\*\cxrev100}\cxdict{\*\cxsystem Test}}"#;

const RTF_WITH_COMMENTS: &str = r#"
  {\rtf1\ansi{\*\cxrev100}\cxdict{\*\cxsystem Test}
    {\*\cxs TEFT}test
    {\*\cxs TEFTS}tests
    {\*\cxs TEFTD}tested
    {\*\cxs TEFGT}testing{\*\cxcomment inversion}
    {\*\cxs TEFT/-G}testing{\*\cxcomment two strokes}
  }"#;

const RTF_WITH_COMMANDS: &str = r#"
  {\rtf1\ansi{\*\cxrev100}\cxdict{\*\cxsystem Test}
    {\*\cxs PHROLG}{\*\cxplvrcmd lookup}
    {\*\cxs PHREUT}{\*\cxplvrcmd quit}
  }"#;

const RTF_WITH_NON_ASCII: &str = r#"
  {\rtf1\ansi{\*\cxrev100}\cxdict{\*\cxsystem Test}
    {\*\cxs \u12615\u12636\u12593\u12599}\u50864\u47532\u44032
  }"#;

const RTF_WITH_WEIRD_SPACING: &str = r#"
  {
    \rtf1\ansi
    {\*\cxrev100}
    \cxdict
    {\*\cxsystem Test}
    {\*\cxs TEFT}test
  }"#;

fn parsed(rtf: &str) -> Dictionary {
    match parse_rtf(rtf) {
        Some(dict) => dict,
        None => panic!("RTF parsing failed"),
    }
}

#[test]
fn test_parse_rtf() {
    let dict = parsed(RTF);
    assert_eq!(dict.len(), 5);
    assert_eq!(dict.cre_system, "Test");
    assert_eq!(dict.lookup("TEFGT"), Some("testing".to_string()));
}

#[test]
fn test_parse_empty_rtf() {
    let dict = parsed(RTF_EMPTY);
    assert_eq!(dict.len(), 0);
}

#[test]
fn test_parse_rtf_with_comments() {
    let dict = parsed(RTF_WITH_COMMENTS);
    assert_eq!(dict.len(), 5);
    if let Some(entry) = dict.entry("TEFGT") {
        assert_eq!(entry.comment(), Some("inversion".to_string()));
    } else {
        panic!("Entry not found");
    }
}

#[test]
fn test_parse_rtf_with_commands() {
    let dict = parsed(RTF_WITH_COMMANDS);
    assert_eq!(dict.lookup("PHROLG"), Some("{plover:lookup}".to_string()));
}

#[test]
fn test_parse_rtf_with_non_ascii() {
    let dict = parsed(RTF_WITH_NON_ASCII);
    assert_eq!(dict.lookup("ㅇㅜㄱㄷ"), Some("우리가".to_string()));
}

#[test]
fn test_parse_rtf_with_weird_spacing() {
    let dict = parsed(RTF_WITH_WEIRD_SPACING);
    assert_eq!(dict.lookup("TEFT"), Some("test".to_string()));
}

#[test]
fn minimal_file_with_comment() {
    let dict = parsed("{\\rtf1\\ansi{\\*\\cxrev100}\\cxdict{\\*\\cxsystem Test}\n  {\\*\\cxs TEFGT}testing{\\*\\cxcomment inversion}\n}");
    assert_eq!(dict.len(), 1);
    assert_eq!(dict.cre_system, "Test");
    let entry = dict.entry("TEFGT").expect("entry");
    assert_eq!(entry.steno, "TEFGT");
    assert_eq!(entry.translation, "testing");
    assert_eq!(entry.comment(), Some("inversion".to_string()));
}

#[test]
fn missing_header_is_rejected() {
    assert!(parse_rtf("{\\rtf1\\ansi\\cxdict{\\*\\cxsystem Test}}").is_none());
    assert!(parse_rtf("").is_none());
}

#[test]
fn unclosed_dictionary_is_rejected() {
    assert!(parse_rtf("{\\rtf1\\ansi{\\*\\cxrev100}\\cxdict{\\*\\cxsystem Test}{\\*\\cxs TEFT}test").is_none());
}

#[test]
fn stylesheet_is_skipped() {
    let dict = parsed("{\\rtf1\\ansi{\\*\\cxrev100}\\cxdict{\\*\\cxsystem Eclipse}{\\stylesheet{\\s0 Normal;}{\\s1 Contin;}}\n{\\*\\cxs KAT}cat\n}");
    assert_eq!(dict.cre_system, "Eclipse");
    assert_eq!(dict.lookup("KAT"), Some("cat".to_string()));
}

#[test]
fn translations_are_read_into_plover() {
    let dict = parsed("{\\rtf1\\ansi{\\*\\cxrev100}\\cxdict{\\*\\cxsystem Test}\n{\\*\\cxs -G}{\\*\\cxplvrortho}\\cxds ing\n{\\*\\cxs P-P}{\\cxp. }\n}");
    assert_eq!(dict.lookup("-G"), Some("{^ing}".to_string()));
    assert_eq!(dict.lookup("P-P"), Some("{.}".to_string()));
}

#[test]
fn later_entry_overrides_earlier() {
    let dict = parsed("{\\rtf1\\ansi{\\*\\cxrev100}\\cxdict{\\*\\cxsystem Test}\n{\\*\\cxs KAT}cat\n{\\*\\cxs TKOG}dog\n{\\*\\cxs KAT}kitten\n}");
    assert_eq!(dict.len(), 2);
    assert_eq!(dict.lookup("KAT"), Some("kitten".to_string()));
}

#[test]
fn escapes_in_bodies_reach_the_translation_parser() {
    let dict = parsed("{\\rtf1\\ansi{\\*\\cxrev100}\\cxdict{\\*\\cxsystem Test}\n{\\*\\cxs PWRAEUS}\\u123 \n{\\*\\cxs TKPWHRAOU}\\u20320 x\n}");
    assert_eq!(dict.lookup("PWRAEUS"), Some("{".to_string()));
    assert_eq!(dict.lookup("TKPWHRAOU"), Some("\u{4f60}x".to_string()));
}

#[test]
fn text_after_the_closing_brace_is_rejected() {
    assert!(parse_rtf("{\\rtf1\\ansi{\\*\\cxrev100}\\cxdict{\\*\\cxsystem Test}}}").is_none());
    assert!(parse_rtf("{\\rtf1\\ansi{\\*\\cxrev100}\\cxdict{\\*\\cxsystem Test}{\\*\\cxs KAT}cat\n}}").is_none());
    assert!(parse_rtf("{\\rtf1\\ansi{\\*\\cxrev100}\\cxdict{\\*\\cxsystem Test}{\\*\\cxs KAT}cat\n}\n  ").is_some());
}
