use rtfcre::format_plover_to_rtf;

#[test]
fn test_translation_test_raw() {
    assert_eq!(format_plover_to_rtf("mooo"), String::from("mooo"));
}

#[test]
fn test_translation_test_escapes() {
    assert_eq!(format_plover_to_rtf("{ }"), String::from(" "));
    assert_eq!(format_plover_to_rtf("-"), String::from("\\_"));
    assert_eq!(format_plover_to_rtf("\\{"), String::from("\\{"));
    assert_eq!(format_plover_to_rtf("\\}"), String::from("\\}"));
    assert_eq!(format_plover_to_rtf("\\\\"), String::from("\\\\"));
}

#[test]
fn test_translation_test_unicode() {
    assert_eq!(format_plover_to_rtf("你好!"), String::from("\\u20320 \\u22909 !"));
}

#[test]
fn test_translation_test_cancel() {
    assert_eq!(format_plover_to_rtf("{}"), String::from("{\\*\\cxplvrcancel}"));
}

#[test]
fn test_translation_test_noop() {
    assert_eq!(format_plover_to_rtf("{#}"), String::from("{\\*\\cxplvrnop}"));
}

#[test]
fn test_translation_test_meta() {
    assert_eq!(format_plover_to_rtf("{:test_meta}"), String::from("{\\*\\cxplvrmeta test_meta}"));
    assert_eq!(format_plover_to_rtf("{:test_meta:arg}"), String::from("{\\*\\cxplvrmeta test_meta:arg}"));
}

#[test]
fn test_translation_test_undo() {
    assert_eq!(format_plover_to_rtf("=undo"), String::from("\\cxdstroke "));
}

#[test]
fn test_translation_test_retro() {
    assert_eq!(format_plover_to_rtf("{*}"), String::from("{\\*\\cxplvrast}"));
    assert_eq!(format_plover_to_rtf("{*+}"), String::from("{\\*\\cxplvrrpt}"));
    assert_eq!(format_plover_to_rtf("{*?}"), String::from("{\\*\\cxplvrrtisp}"));
    assert_eq!(format_plover_to_rtf("{*!}"), String::from("{\\*\\cxplvrrtdsp}"));
    assert_eq!(format_plover_to_rtf("=retrospective_toggle_asterisk"), String::from("{\\*\\cxplvrast}"));
    assert_eq!(format_plover_to_rtf("=repeat_last_stroke"), String::from("{\\*\\cxplvrrpt}"));
    assert_eq!(format_plover_to_rtf("=retrospective_insert_space"), String::from("{\\*\\cxplvrrtisp}"));
    assert_eq!(format_plover_to_rtf("=retrospective_delete_space"), String::from("{\\*\\cxplvrrtdsp}"));
}

#[test]
fn test_translation_test_macro() {
    assert_eq!(format_plover_to_rtf("=test_macro"), String::from("{\\*\\cxplvrmac test_macro}"));
    assert_eq!(format_plover_to_rtf("=test_macro:arg"), String::from("{\\*\\cxplvrmac test_macro:arg}"));
}

#[test]
fn test_translation_test_command() {
    assert_eq!(format_plover_to_rtf("{PLOVER:LOOKUP}"), String::from("{\\*\\cxplvrcmd lookup}"));
    assert_eq!(format_plover_to_rtf("{PLOVER:SWITCH_SYSTEM:Test}"), String::from("{\\*\\cxplvrcmd switch_system:Test}"));
    assert_eq!(format_plover_to_rtf("{:command:lookup}"), String::from("{\\*\\cxplvrcmd lookup}"));
}

#[test]
fn test_translation_test_mode() {
    assert_eq!(format_plover_to_rtf("{MODE:LOWER}"), String::from("{\\*\\cxplvrcase1}"));
    assert_eq!(format_plover_to_rtf("{MODE:RESET}"), String::from("{\\*\\cxplvrcase0\\cxplvrspc0}"));
    assert_eq!(format_plover_to_rtf("{MODE:RESET_CASE}"), String::from("{\\*\\cxplvrcase0}"));
    assert_eq!(format_plover_to_rtf("{MODE:RESET_SPACE}"), String::from("{\\*\\cxplvrspc0}"));
    assert_eq!(format_plover_to_rtf("{MODE:SET_SPACE:a}"), String::from("{\\*\\cxplvrspc a}"));
    assert_eq!(format_plover_to_rtf("{:mode:lower}"), String::from("{\\*\\cxplvrcase1}"));
    assert_eq!(format_plover_to_rtf("{:mode:caps}"), String::from("{\\*\\cxplvrcase2}"));
    assert_eq!(format_plover_to_rtf("{:mode:title}"), String::from("{\\*\\cxplvrcase3}"));
    assert_eq!(format_plover_to_rtf("{:mode:camel}"), String::from("{\\*\\cxplvrcase4\\cxplvrspc}"));
    assert_eq!(format_plover_to_rtf("{:mode:snake}"), String::from("{\\*\\cxplvrcase0\\cxplvrspc _}"));
}

#[test]
fn test_translation_test_par() {
    assert_eq!(format_plover_to_rtf("{#return}{#return}"), String::from("\\par\\s0 "));
    assert_eq!(format_plover_to_rtf("{#return}{#return}    "), String::from("\\par\\s1 "));
}

#[test]
fn test_translation_test_key_combo() {
    assert_eq!(format_plover_to_rtf("{#Left}"), String::from("{\\*\\cxplvrkey Left}"));
    assert_eq!(format_plover_to_rtf("{# ctrl_l(tab)}"), String::from("{\\*\\cxplvrkey ctrl_l(tab)}"));
}

#[test]
fn test_translation_test_punct() {
    assert_eq!(format_plover_to_rtf("{.}"), String::from("{\\cxp. }"));
    assert_eq!(format_plover_to_rtf("{,}"), String::from("{\\cxp, }"));
    assert_eq!(format_plover_to_rtf("{:stop:.}"), String::from("{\\cxp. }"));
    assert_eq!(format_plover_to_rtf("{:comma:,}"), String::from("{\\cxp, }"));
}

#[test]
fn test_translation_test_attach() {
    assert_eq!(format_plover_to_rtf("{^}"), String::from("\\cxds "));
    assert_eq!(format_plover_to_rtf("{^ing}"), String::from("{\\*\\cxplvrortho}\\cxds ing"));
    assert_eq!(format_plover_to_rtf("{pre^}"), String::from("{\\*\\cxplvrortho}pre\\cxds "));
    assert_eq!(format_plover_to_rtf("{^...^}"), String::from("{\\*\\cxplvrortho}\\cxds ...\\cxds "));
    assert_eq!(format_plover_to_rtf("{:attach}"), String::from("\\cxds "));
    assert_eq!(format_plover_to_rtf("{:attach:^ing}"), String::from("{\\*\\cxplvrortho}\\cxds ing"));
    assert_eq!(format_plover_to_rtf("{:attach:pre^}"), String::from("{\\*\\cxplvrortho}pre\\cxds "));
    assert_eq!(format_plover_to_rtf("{:attach:...}"), String::from("{\\*\\cxplvrortho}\\cxds ...\\cxds "));
    assert_eq!(format_plover_to_rtf("{^ ^}"), String::from("\\~"));
}

#[test]
fn test_translation_test_glue() {
    assert_eq!(format_plover_to_rtf("{&a}"), String::from("{\\cxfing a}"));
    assert_eq!(format_plover_to_rtf("{&th}"), String::from("{\\cxfing th}"));
    assert_eq!(format_plover_to_rtf("{:glue:a}"), String::from("{\\cxfing a}"));
    assert_eq!(format_plover_to_rtf("{:glue:th}"), String::from("{\\cxfing th}"));
}

#[test]
fn test_translation_test_stitch() {
    assert_eq!(format_plover_to_rtf("{:stitch:a}"), String::from("{\\cxstit a}"));
    assert_eq!(format_plover_to_rtf("{:stitch:L:-}"), String::from("{\\cxstit L}"));
}

#[test]
fn test_translation_test_force_cap() {
    assert_eq!(format_plover_to_rtf("{-|}"), String::from("\\cxfc "));
    assert_eq!(format_plover_to_rtf("{*-|}"), String::from("{\\*\\cxplvrrtfc}"));
    assert_eq!(format_plover_to_rtf("{<}"), String::from("{\\*\\cxplvrfcw}"));
    assert_eq!(format_plover_to_rtf("{*<}"), String::from("{\\*\\cxplvrrtfcw}"));
    assert_eq!(format_plover_to_rtf("{>}"), String::from("\\cxfl "));
    assert_eq!(format_plover_to_rtf("{*>}"), String::from("{\\*\\cxplvrrtfl}"));
    assert_eq!(format_plover_to_rtf("{:case:cap_first_word}"), String::from("\\cxfc "));
    assert_eq!(format_plover_to_rtf("{:retro_case:cap_first_word}"), String::from("{\\*\\cxplvrrtfc}"));
    assert_eq!(format_plover_to_rtf("{:case:upper_first_word}"), String::from("{\\*\\cxplvrfcw}"));
    assert_eq!(format_plover_to_rtf("{:retro_case:upper_first_word}"), String::from("{\\*\\cxplvrrtfcw}"));
    assert_eq!(format_plover_to_rtf("{:case:lower_first_char}"), String::from("\\cxfl "));
    assert_eq!(format_plover_to_rtf("{:retro_case:lower_first_char}"), String::from("{\\*\\cxplvrrtfl}"));
}

#[test]
fn test_translation_test_carry_cap() {
    assert_eq!(format_plover_to_rtf("{~|^-^}"), String::from("{\\*\\cxplvrccap}{\\*\\cxplvrortho}\\cxds -\\cxds "));
    assert_eq!(format_plover_to_rtf("{~|^-esque}"), String::from("{\\*\\cxplvrccap}{\\*\\cxplvrortho}\\cxds -esque"));
    assert_eq!(format_plover_to_rtf("{~|un-^}"), String::from("{\\*\\cxplvrccap}{\\*\\cxplvrortho}un-\\cxds "));
    assert_eq!(format_plover_to_rtf("{~|5}"), String::from("{\\*\\cxplvrccap}5"));
    assert_eq!(format_plover_to_rtf("{:carry_capitalize:^-^}"), String::from("{\\*\\cxplvrccap}{\\*\\cxplvrortho}\\cxds -\\cxds "));
    assert_eq!(format_plover_to_rtf("{:carry_capitalize:^-esque}"), String::from("{\\*\\cxplvrccap}{\\*\\cxplvrortho}\\cxds -esque"));
    assert_eq!(format_plover_to_rtf("{:carry_capitalize:un-^}"), String::from("{\\*\\cxplvrccap}{\\*\\cxplvrortho}un-\\cxds "));
    assert_eq!(format_plover_to_rtf("{:carry_capitalize:5}"), String::from("{\\*\\cxplvrccap}5"));
}

#[test]
fn test_translation_test_currency() {
    assert_eq!(format_plover_to_rtf("{*($c)}"), String::from("{\\*\\cxplvrcurr $c}"));
    assert_eq!(format_plover_to_rtf("{:retro_currency:$c}"), String::from("{\\*\\cxplvrcurr $c}"));
    assert_eq!(format_plover_to_rtf("{*(c $)}"), String::from("{\\*\\cxplvrcurr c $}"));
    assert_eq!(format_plover_to_rtf("{:retro_currency:c $}"), String::from("{\\*\\cxplvrcurr c $}"));
}

#[test]
fn test_translation_test_newline() {
    assert_eq!(format_plover_to_rtf("{^\\n^}"), String::from("{\\*\\cxplvrortho}\\cxds \\n\\cxds "));
    assert_eq!(format_plover_to_rtf("{^\\t^}"), String::from("{\\*\\cxplvrortho}\\cxds \\t\\cxds "));
}

#[test]
fn test_translation_test_concat() {
    assert_eq!(format_plover_to_rtf("mooo啦!{#}test{*}"), String::from("mooo\\u21862 !{\\*\\cxplvrnop}test{\\*\\cxplvrast}"));
}
