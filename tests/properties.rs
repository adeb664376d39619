use rtfcre::{fix_attach, format_plover_to_rtf, format_rtf_to_plover, parse_rtf_translation, parse_translation, Case, Object, ParagraphMode};

#[test]
fn empty_translation_is_empty_both_ways() {
    assert_eq!(format_plover_to_rtf(""), "");
    assert_eq!(format_rtf_to_plover(""), "");
    assert!(parse_translation("").is_empty());
    assert!(parse_rtf_translation("").is_empty());
}

#[test]
fn plain_text_passes_through() {
    for s in ["hello world", "caf\u{e9} ol\u{e9}", "a.b,c!", "x"] {
        assert_eq!(format_plover_to_rtf(s), s);
        assert_eq!(format_rtf_to_plover(s), s);
    }
}

#[test]
fn text_starting_with_equals_is_a_macro() {
    assert_eq!(format_plover_to_rtf("=abc"), "{\\*\\cxplvrmac abc}");
}

#[test]
fn unicode_above_255_is_escaped() {
    assert_eq!(format_plover_to_rtf("\u{101}"), "\\u257 ");
    assert_eq!(format_plover_to_rtf("\u{1F600}"), "\\u128512 ");
    assert_eq!(format_rtf_to_plover("\\u257 "), "\u{101}");
    assert_eq!(format_rtf_to_plover("\\u233 "), "\u{e9}");
    assert_eq!(format_rtf_to_plover("\\u128512 "), "\u{1F600}");
}

#[test]
fn code_points_128_to_255_stay_literal_in_rtf() {
    assert_eq!(format_plover_to_rtf("\u{e9}"), "\u{e9}");
}

#[test]
fn invalid_unicode_escape_is_dropped() {
    assert_eq!(format_rtf_to_plover("a\\u55296 b"), "ab");
    assert_eq!(format_rtf_to_plover("a\\u99999999999 b"), "ab");
}

#[test]
fn currency_round_trip() {
    let s = "{*(Xc Y)}";
    assert_eq!(format_plover_to_rtf(s), "{\\*\\cxplvrcurr Xc Y}");
    assert_eq!(format_rtf_to_plover(&format_plover_to_rtf(s)), s);
    assert_eq!(format_rtf_to_plover(&format_plover_to_rtf("{*($c)}")), "{*($c)}");
    assert_eq!(format_rtf_to_plover(&format_plover_to_rtf("{*(c USD)}")), "{*(c USD)}");
}

#[test]
fn fixup_changes_only_single_attach_runs() {
    assert_eq!(fix_attach("{^}ing"), "{^ing}");
    assert_eq!(fix_attach("pre{^}"), "{pre^}");
    assert_eq!(fix_attach("{^}-{^}"), "{^-^}");
    assert_eq!(fix_attach("{~|}{^}-{^}"), "{~|^-^}");
    assert_eq!(fix_attach("{~|}un-{^}"), "{~|un-^}");
    assert_eq!(fix_attach("{~|}{^}x"), "{~|^x}");
    assert_eq!(fix_attach("{~|}5"), "{~|5}");
    assert_eq!(fix_attach("{^}a{^}b{^}"), "{^}a{^}b{^}");
    assert_eq!(fix_attach("a{-|}b{^}"), "a{-|}b{^}");
    assert_eq!(fix_attach("plain"), "plain");
    assert_eq!(fix_attach("{^}"), "{^}");
}

#[test]
fn fixed_directives_round_trip() {
    let forms = [
        "{}", "{#}", "{*}", "{*+}", "{*?}", "{*!}", "{-|}", "{>}", "{<}", "{*-|}", "{*>}", "{*<}",
        "{^}", "{^ ^}", "=undo", "{mode:reset_case}", "{mode:lower}", "{mode:caps}",
        "{mode:title}", "{mode:camel}", "{mode:snake}", "{mode:reset_space}", "{mode:reset}",
        "{#return}{#return}", "{#return}{#return}    ",
    ];
    for f in forms {
        assert_eq!(format_rtf_to_plover(&format_plover_to_rtf(f)), f, "{}", f);
    }
    assert_eq!(format_rtf_to_plover(&format_plover_to_rtf("{~|5}")), "{~|}5");
}

#[test]
fn parsed_directives() {
    assert_eq!(
        parse_translation("a{.}{MODE:CAPS}"),
        vec![Object::RawString("a".to_string()), Object::Punctuation(".".to_string()), Object::CaseMode(Case::Upper)]
    );
    assert_eq!(parse_translation("{#return}{#return}"), vec![Object::Paragraph(ParagraphMode::Default)]);
    assert_eq!(
        parse_rtf_translation("{\\*\\cxplvrortho}\\cxds ing"),
        vec![Object::OrthoAttach, Object::AttachRaw, Object::RawString("ing".to_string())]
    );
    assert_eq!(
        parse_translation("{:Glue:x}{:mode:SET_SPACE:-}{:foo:bar}"),
        vec![
            Object::Fingerspell("x".to_string()),
            Object::SpaceMode(Some("-".to_string())),
            Object::Meta("foo".to_string(), Some("bar".to_string())),
        ]
    );
}

#[test]
fn unknown_plover_forms_fall_back_to_text() {
    assert_eq!(format_plover_to_rtf("{foo}"), "foo");
    assert_eq!(format_plover_to_rtf("\\x"), "\\\\x");
    assert_eq!(format_plover_to_rtf("{abc"), "\\{abc");
    assert_eq!(format_plover_to_rtf("{mode:foo}"), "mode:foo");
    assert_eq!(format_plover_to_rtf("{a^b}"), "a^b");
}

#[test]
fn unknown_rtf_forms_are_dropped() {
    assert_eq!(format_rtf_to_plover("\\b bold\\b0 "), "bold");
    assert_eq!(format_rtf_to_plover("a}b"), "ab");
    assert_eq!(format_rtf_to_plover("{\\*\\cxplvrfoo}x"), "x");
    assert_eq!(format_rtf_to_plover("{\\*\\cxplvrcurr 5}"), "");
}

#[test]
fn names_are_lowercased() {
    assert_eq!(format_plover_to_rtf("{:FOO:Bar}"), "{\\*\\cxplvrmeta foo:Bar}");
    assert_eq!(format_plover_to_rtf("=MyMacro:Arg"), "{\\*\\cxplvrmac mymacro:Arg}");
    assert_eq!(format_plover_to_rtf("{:command:SWITCH:a:b}"), "{\\*\\cxplvrcmd switch:a:b}");
}

#[test]
fn key_combo_is_trimmed() {
    assert_eq!(format_plover_to_rtf("{#  Left  }"), "{\\*\\cxplvrkey Left}");
}

#[test]
fn sample_translations_both_ways() {
    let pairs = [
        ("testing", "testing"),
        ("{.}", "{\\cxp. }"),
        ("{^ing}", "{\\*\\cxplvrortho}\\cxds ing"),
        ("lookup{plover:lookup}{-|}{^ed}", "lookup{\\*\\cxplvrcmd lookup}\\cxfc {\\*\\cxplvrortho}\\cxds ed"),
        ("\u{4f60}\u{597d}!", "\\u20320 \\u22909 !"),
        ("{~|^-^}", "{\\*\\cxplvrccap}{\\*\\cxplvrortho}\\cxds -\\cxds "),
        ("=undo", "\\cxdstroke "),
        ("{#return}{#return}    ", "\\par\\s1 "),
    ];
    for (p, r) in pairs {
        assert_eq!(format_plover_to_rtf(p), r, "{}", p);
    }
    assert_eq!(format_plover_to_rtf("lookup{PLOVER:LOOKUP}{-|}{^ed}"), "lookup{\\*\\cxplvrcmd lookup}\\cxfc {\\*\\cxplvrortho}\\cxds ed");
    for (p, r) in [
        ("testing", "testing"),
        ("{.}", "{\\cxp. }"),
        ("{^ing}", "{\\*\\cxplvrortho}\\cxds ing"),
        ("\u{4f60}\u{597d}!", "\\u20320 \\u22909 !"),
        ("{~|^-^}", "{\\*\\cxplvrccap}{\\*\\cxplvrortho}\\cxds -\\cxds "),
        ("=undo", "\\cxdstroke "),
        ("{#return}{#return}    ", "\\par\\s1 "),
    ] {
        assert_eq!(format_rtf_to_plover(r), p, "{}", r);
    }
}

#[test]
fn rtf_names_are_lowercased() {
    assert_eq!(format_rtf_to_plover("{\\*\\cxplvrmeta TEST_Meta:Arg}"), "{:test_meta:Arg}");
    assert_eq!(format_rtf_to_plover("{\\*\\cxplvrmac My_Macro}"), "=my_macro");
    assert_eq!(format_rtf_to_plover("{\\*\\cxplvrcmd LOOKUP}"), "{plover:lookup}");
}

#[test]
fn keywords_are_matched_after_lowercasing() {
    assert_eq!(format_plover_to_rtf("=UNDO"), "\\cxdstroke ");
    assert_eq!(format_plover_to_rtf("{:\u{212A}ey_combo:x}"), "{\\*\\cxplvrkey x}");
    assert_eq!(format_plover_to_rtf("{:GLUE:a}"), "{\\cxfing a}");
}

#[test]
fn plover_translation_is_total() {
    assert_eq!(format_plover_to_rtf("{:glue}"), "{\\cxfing }");
    assert_eq!(format_plover_to_rtf("{:command}"), "{\\*\\cxplvrcmd }");
    assert_eq!(format_plover_to_rtf("{:stop:}"), "{\\cxp }");
    assert_eq!(format_plover_to_rtf("{abc"), "\\{abc");
    assert_eq!(format_plover_to_rtf("a{b"), "a\\{b");
    assert_eq!(format_plover_to_rtf("a\\x"), "a\\\\x");
}

#[test]
fn rtf_translation_is_total() {
    assert_eq!(format_rtf_to_plover("{\\cxp}"), "{}");
    assert_eq!(format_rtf_to_plover("{\\cxp\u{e9}\u{4f60}}"), "{\u{e9}}");
    assert_eq!(format_rtf_to_plover("\\u55296 "), "");
    assert_eq!(format_rtf_to_plover("\\u99999999999"), "");
    assert_eq!(format_rtf_to_plover("\\par\\s99999999999 "), "{#return}{#return}");
    assert_eq!(format_rtf_to_plover("a\\b c"), "ac");
    assert_eq!(format_rtf_to_plover("{\\foo}"), "");
    assert_eq!(format_rtf_to_plover("{"), "");
}

#[test]
fn braced_forms_round_trip() {
    for f in ["{&th}", "=test_macro:arg", "{^ing}", "{pre^}", "{^-^}", "{~|un-^}", "{~|^-esque}", "{~|^-^}", "{:stitch:a}", "{plover:lookup}", "{:test_meta:arg}"] {
        assert_eq!(format_rtf_to_plover(&format_plover_to_rtf(f)), f, "{}", f);
    }
    assert_eq!(format_rtf_to_plover(&format_plover_to_rtf("{~|5}")), "{~|}5");
}
