use rtfcre::format_rtf_to_plover;

#[test]
fn test_translation_parse_test_raw() {
    assert_eq!(format_rtf_to_plover("mooo"), String::from("mooo"));
}

#[test]
fn test_translation_parse_test_escapes() {
    assert_eq!(format_rtf_to_plover("\\_"), String::from("-"));
    assert_eq!(format_rtf_to_plover("\\~"), String::from("{^ ^}"));
    assert_eq!(format_rtf_to_plover("\\{"), String::from("\\{"));
    assert_eq!(format_rtf_to_plover("\\}"), String::from("\\}"));
    assert_eq!(format_rtf_to_plover("\\\\"), String::from("\\\\"));
}

#[test]
fn test_translation_parse_test_unicode() {
    assert_eq!(format_rtf_to_plover("\\u20320 \\u22909 !"), String::from("你好!"));
}

#[test]
fn test_translation_parse_test_cancel() {
    assert_eq!(format_rtf_to_plover("{\\*\\cxplvrcancel}"), String::from("{}"));
}

#[test]
fn test_translation_parse_test_noop() {
    assert_eq!(format_rtf_to_plover("{\\*\\cxplvrnop}"), String::from("{#}"));
}

#[test]
fn test_translation_parse_test_meta() {
    assert_eq!(format_rtf_to_plover("{\\*\\cxplvrmeta test_meta}"), String::from("{:test_meta}"));
    assert_eq!(format_rtf_to_plover("{\\*\\cxplvrmeta test_meta:arg}"), String::from("{:test_meta:arg}"));
}

#[test]
fn test_translation_parse_test_undo() {
    assert_eq!(format_rtf_to_plover("\\cxdstroke "), String::from("=undo"));
}

#[test]
fn test_translation_parse_test_retro() {
    assert_eq!(format_rtf_to_plover("{\\*\\cxplvrast}"), String::from("{*}"));
    assert_eq!(format_rtf_to_plover("{\\*\\cxplvrrpt}"), String::from("{*+}"));
    assert_eq!(format_rtf_to_plover("{\\*\\cxplvrrtisp}"), String::from("{*?}"));
    assert_eq!(format_rtf_to_plover("{\\*\\cxplvrrtdsp}"), String::from("{*!}"));
}

#[test]
fn test_translation_parse_test_macro() {
    assert_eq!(format_rtf_to_plover("{\\*\\cxplvrmac test_macro}"), String::from("=test_macro"));
    assert_eq!(format_rtf_to_plover("{\\*\\cxplvrmac test_macro:arg}"), String::from("=test_macro:arg"));
}

#[test]
fn test_translation_parse_test_command() {
    assert_eq!(format_rtf_to_plover("{\\*\\cxplvrcmd lookup}"), String::from("{plover:lookup}"));
    assert_eq!(format_rtf_to_plover("{\\*\\cxplvrcmd switch_system:Test}"), String::from("{plover:switch_system:Test}"));
}

#[test]
fn test_translation_parse_test_mode() {
    assert_eq!(format_rtf_to_plover("{\\*\\cxplvrcase1}"), String::from("{mode:lower}"));
    assert_eq!(format_rtf_to_plover("{\\*\\cxplvrcase0\\cxplvrspc0}"), String::from("{mode:reset}"));
    assert_eq!(format_rtf_to_plover("{\\*\\cxplvrcase0}"), String::from("{mode:reset_case}"));
    assert_eq!(format_rtf_to_plover("{\\*\\cxplvrcase1}"), String::from("{mode:lower}"));
    assert_eq!(format_rtf_to_plover("{\\*\\cxplvrcase2}"), String::from("{mode:caps}"));
    assert_eq!(format_rtf_to_plover("{\\*\\cxplvrcase3}"), String::from("{mode:title}"));
    assert_eq!(format_rtf_to_plover("{\\*\\cxplvrcase4\\cxplvrspc}"), String::from("{mode:camel}"));
    assert_eq!(format_rtf_to_plover("{\\*\\cxplvrspc0}"), String::from("{mode:reset_space}"));
    assert_eq!(format_rtf_to_plover("{\\*\\cxplvrspc a}"), String::from("{mode:set_space:a}"));
    assert_eq!(format_rtf_to_plover("{\\*\\cxplvrcase0\\cxplvrspc _}"), String::from("{mode:snake}"));
}

#[test]
fn test_translation_parse_test_par() {
    assert_eq!(format_rtf_to_plover("\\par\\s0 "), String::from("{#return}{#return}"));
    assert_eq!(format_rtf_to_plover("\\par\\s1 "), String::from("{#return}{#return}    "));
}

#[test]
fn test_translation_parse_test_key_combo() {
    assert_eq!(format_rtf_to_plover("{\\*\\cxplvrkey Left}"), String::from("{#Left}"));
    assert_eq!(format_rtf_to_plover("{\\*\\cxplvrkey ctrl_l(tab)}"), String::from("{#ctrl_l(tab)}"));
}

#[test]
fn test_auto() {
    assert_eq!(format_rtf_to_plover("{\\cxa Q. }"), String::from("Q. "));
}

#[test]
fn test_translation_parse_test_punct() {
    assert_eq!(format_rtf_to_plover("{\\cxp. }"), String::from("{.}"));
    assert_eq!(format_rtf_to_plover("{\\cxp, }"), String::from("{,}"));
}

#[test]
fn test_translation_parse_test_attach() {
    assert_eq!(format_rtf_to_plover("\\cxds "), String::from("{^}"));
    assert_eq!(format_rtf_to_plover("\\cxds ing"), String::from("{^}ing"));
    assert_eq!(format_rtf_to_plover("pre\\cxds "), String::from("pre{^}"));
    assert_eq!(format_rtf_to_plover("\\cxds ...\\cxds "), String::from("{^}...{^}"));
    assert_eq!(format_rtf_to_plover("{\\*\\cxplvrortho}\\cxds ing"), String::from("{^ing}"));
    assert_eq!(format_rtf_to_plover("{\\*\\cxplvrortho}pre\\cxds "), String::from("{pre^}"));
    assert_eq!(format_rtf_to_plover("{\\*\\cxplvrortho}\\cxds ...\\cxds "), String::from("{^...^}"));
}

#[test]
fn test_translation_parse_test_glue() {
    assert_eq!(format_rtf_to_plover("{\\cxfing a}"), String::from("{&a}"));
    assert_eq!(format_rtf_to_plover("{\\cxfing th}"), String::from("{&th}"));
}

#[test]
fn test_translation_parse_test_stitch() {
    assert_eq!(format_rtf_to_plover("{\\cxstit a}"), String::from("{:stitch:a}"));
}

#[test]
fn test_conflict() {
    assert_eq!(format_rtf_to_plover("{\\cxconf [{\\cxc first}|{\\cxc second}|{\\cxc last}]}"), String::from("last"));
}

#[test]
fn test_translation_parse_test_force_cap() {
    assert_eq!(format_rtf_to_plover("\\cxfc "), String::from("{-|}"));
    assert_eq!(format_rtf_to_plover("{\\*\\cxplvrrtfc}"), String::from("{*-|}"));
    assert_eq!(format_rtf_to_plover("{\\*\\cxplvrfcw}"), String::from("{<}"));
    assert_eq!(format_rtf_to_plover("{\\*\\cxplvrrtfcw}"), String::from("{*<}"));
    assert_eq!(format_rtf_to_plover("\\cxfl "), String::from("{>}"));
    assert_eq!(format_rtf_to_plover("{\\*\\cxplvrrtfl}"), String::from("{*>}"));
}

#[test]
fn test_translation_parse_test_carry_cap() {
    assert_eq!(format_rtf_to_plover("{\\*\\cxplvrccap}{\\*\\cxplvrortho}\\cxds -\\cxds "), String::from("{~|^-^}"));
    assert_eq!(format_rtf_to_plover("{\\*\\cxplvrccap}{\\*\\cxplvrortho}\\cxds -esque"), String::from("{~|^-esque}"));
    assert_eq!(format_rtf_to_plover("{\\*\\cxplvrccap}{\\*\\cxplvrortho}un-\\cxds "), String::from("{~|un-^}"));
    assert_eq!(format_rtf_to_plover("{\\*\\cxplvrccap}\\cxds -\\cxds "), String::from("{~|}{^}-{^}"));
    assert_eq!(format_rtf_to_plover("{\\*\\cxplvrccap}\\cxds -esque"), String::from("{~|}{^}-esque"));
    assert_eq!(format_rtf_to_plover("{\\*\\cxplvrccap}un-\\cxds "), String::from("{~|}un-{^}"));
    assert_eq!(format_rtf_to_plover("{\\*\\cxplvrccap}5"), String::from("{~|}5"));
}

#[test]
fn test_translation_parse_test_currency() {
    assert_eq!(format_rtf_to_plover("{\\*\\cxplvrcurr $c}"), String::from("{*($c)}"));
    assert_eq!(format_rtf_to_plover("{\\*\\cxplvrcurr c $}"), String::from("{*(c $)}"));
}

#[test]
fn test_translation_parse_test_newline() {
    assert_eq!(format_rtf_to_plover("{\\*\\cxplvrortho}\\cxds \\n\\cxds "), String::from("{^\\n^}"));
    assert_eq!(format_rtf_to_plover("{\\*\\cxplvrortho}\\cxds \\t\\cxds "), String::from("{^\\t^}"));
}

#[test]
fn test_translation_parse_test_concat() {
    assert_eq!(format_rtf_to_plover("mooo\\u21862 !{\\*\\cxplvrnop}test{\\*\\cxplvrast}"), String::from("mooo啦!{#}test{*}"));
}
