use vstd::prelude::*;

use crate::model::{Case, Directive, Object, ParagraphMode, opt_obj, opt_view, views};
use crate::text::{
    at, at_nocase, chars_of, eq_nocase, find_char, is_lit_nocase, has_at, has_at_nocase, is_lit, lower_of, lowercase, scan, scan_exec,
    slice_of, str_is, string_of, whole, decimal, push_decimal, trim, trimmed,
};

verus! {

// ---------------------------------------------------------------------------
// The grammar of Plover translations, as spec functions.
// ---------------------------------------------------------------------------

/// `None` for an empty text, else the text.
pub open spec fn nonempty(x: Seq<char>) -> Option<Seq<char>> {
    if x.len() == 0 { None } else { Some(x) }
}

/// An optional argument, with an empty one taken as absent.
pub open spec fn norm(a: Option<Seq<char>>) -> Option<Seq<char>> {
    match a {
        Some(x) => nonempty(x),
        None => None,
    }
}

pub open spec fn or_empty(a: Option<Seq<char>>) -> Seq<char> {
    match a {
        Some(x) => x,
        None => Seq::empty(),
    }
}

/// The part of `b` before its first `:`.
pub open spec fn head(b: Seq<char>) -> Seq<char> {
    b.take(scan(b, 0, seq![':']))
}

/// The part of `b` after its first `:`, if it has one.
pub open spec fn tail_arg(b: Seq<char>) -> Option<Seq<char>> {
    let k = scan(b, 0, seq![':']);
    if k < b.len() { Some(b.skip(k + 1)) } else { None }
}

/// `b` holds no `c`.
pub open spec fn lacks(b: Seq<char>, c: char) -> bool {
    scan(b, 0, seq![c]) == b.len()
}

pub open spec fn is_blank(b: Seq<char>) -> bool {
    b.len() > 0 && forall|k: int| 0 <= k < b.len() ==> (#[trigger] b[k] == ' ' || b[k] == '\t')
}

pub open spec fn is_punct(b: Seq<char>) -> bool {
    b == "..."@ || b == "--"@ || b == "-"@ || b == "."@ || b == ","@ || b == ":"@ || b == ";"@
        || b == "?"@ || b == "!"@
}

/// The one-token operators `{^}`, `{*}`, `{-|}` and their kin.
pub open spec fn operator(b: Seq<char>) -> Option<Directive> {
    if b == "^"@ {
        Some(Directive::AttachRaw)
    } else if b == "-|"@ || b == "l-"@ {
        Some(Directive::ForceCapitalize)
    } else if b == "*-|"@ {
        Some(Directive::RetroForceCapitalize)
    } else if b == "*+"@ {
        Some(Directive::RepeatLastStroke)
    } else if b == "*?"@ {
        Some(Directive::RetroInsertSpace)
    } else if b == "*!"@ {
        Some(Directive::RetroDeleteSpace)
    } else if b == "*<"@ {
        Some(Directive::RetroForceCapitalizeWord)
    } else if b == "*>"@ {
        Some(Directive::RetroForceLowercase)
    } else if b == "*"@ {
        Some(Directive::RetroToggleStar)
    } else if b == "<"@ {
        Some(Directive::ForceCapitalizeWord)
    } else if b == ">"@ || b == "l+"@ {
        Some(Directive::ForceLowercase)
    } else {
        None
    }
}

/// The case and space modes named by a mode word, in any ASCII case.
pub open spec fn mode_word(m: Seq<char>) -> Option<Directive> {
    if eq_nocase(m, "reset_case"@) {
        Some(Directive::CaseMode(Case::Sentence))
    } else if eq_nocase(m, "lower"@) {
        Some(Directive::CaseMode(Case::Lower))
    } else if eq_nocase(m, "title"@) {
        Some(Directive::CaseMode(Case::Title))
    } else if eq_nocase(m, "caps"@) {
        Some(Directive::CaseMode(Case::Upper))
    } else if eq_nocase(m, "camel"@) {
        Some(Directive::CaseMode(Case::Camel))
    } else if eq_nocase(m, "snake"@) {
        Some(Directive::CaseMode(Case::Snake))
    } else if eq_nocase(m, "reset_space"@) {
        Some(Directive::SpaceMode(None))
    } else if eq_nocase(m, "reset"@) {
        Some(Directive::ResetCaseAndSpace)
    } else {
        None
    }
}

/// A space mode; a single space means the default spacer.
pub open spec fn space_mode(x: Seq<char>) -> Directive {
    if x == " "@ { Directive::SpaceMode(None) } else { Directive::SpaceMode(Some(x)) }
}

/// The argument of a `mode` directive: `set_space:X` or a mode word.
pub open spec fn mode_of(a: Seq<char>) -> Option<Directive> {
    if at_nocase(a, 0, "set_space:"@) {
        Some(space_mode(a.skip(10)))
    } else {
        mode_word(a)
    }
}

/// `NAME` or `NAME:ARG` of a host command.
pub open spec fn command_of(c: Seq<char>) -> Directive {
    Directive::Command(lower_of(head(c)), norm(tail_arg(c)))
}

/// `{*(PRE c POST)}`, given the text between the braces.
pub open spec fn currency_block(b: Seq<char>) -> Option<Directive> {
    let inner = b.skip(2);
    let k = scan(inner, 0, seq!['c']);
    let post = inner.skip(k + 1);
    if at(b, 0, "*("@) && k < inner.len() && post.len() > 0 && post.last() == ')' && lacks(
        post.drop_last(),
        ')',
    ) {
        Some(Directive::Currency(nonempty(inner.take(k)), nonempty(post.drop_last())))
    } else {
        None
    }
}

/// `{:retro_currency:PRE c POST}`, given the text between the braces.
pub open spec fn currency_meta(b: Seq<char>) -> Option<Directive> {
    let inner = b.skip(16);
    let k = scan(inner, 0, seq!['c']);
    if at(b, 0, ":retro_currency:"@) && k < inner.len() {
        Some(Directive::Currency(nonempty(inner.take(k)), nonempty(inner.skip(k + 1))))
    } else {
        None
    }
}

/// The word of a `case` or `retro_case` meta.
pub open spec fn case_op(a: Seq<char>, retro: bool) -> Option<Directive> {
    if a == "cap_first_word"@ {
        Some(if retro { Directive::RetroForceCapitalize } else { Directive::ForceCapitalize })
    } else if a == "upper_first_word"@ {
        Some(
            if retro {
                Directive::RetroForceCapitalizeWord
            } else {
                Directive::ForceCapitalizeWord
            },
        )
    } else if a == "lower_first_char"@ {
        Some(if retro { Directive::RetroForceLowercase } else { Directive::ForceLowercase })
    } else {
        None
    }
}

/// The argument of an `attach` meta.
pub open spec fn attach_meta(a: Option<Seq<char>>) -> Directive {
    match a {
        None => Directive::AttachRaw,
        Some(x) => if x == " "@ {
            Directive::HardSpace
        } else if x.len() > 0 && x[0] == '^' {
            Directive::AttachSuffix(x.skip(1))
        } else if x.len() > 0 && x.last() == '^' {
            Directive::AttachPrefix(x.drop_last())
        } else {
            Directive::AttachInfix(x)
        },
    }
}

/// The argument of a `carry_capitalize` meta.
pub open spec fn carry_meta(a: Option<Seq<char>>) -> Directive {
    match a {
        None => Directive::CarryCapRaw(Seq::empty()),
        Some(x) => if x.len() >= 2 && x[0] == '^' && x.last() == '^' {
            Directive::CarryCapInfix(x.subrange(1, x.len() - 1))
        } else if x.len() > 0 && x[0] == '^' {
            Directive::CarryCapSuffix(x.skip(1))
        } else if x.len() > 0 && x.last() == '^' {
            Directive::CarryCapPrefix(x.drop_last())
        } else {
            Directive::CarryCapRaw(x)
        },
    }
}

/// `{:NAME}` or `{:NAME:ARG}`, given the text after the first colon.
pub open spec fn meta(b: Seq<char>) -> Directive {
    let n = lower_of(head(b));
    let arg = tail_arg(b);
    let a = or_empty(arg);
    if n == "glue"@ {
        Directive::Fingerspell(a)
    } else if n == "stop"@ || n == "comma"@ {
        Directive::Punctuation(a)
    } else if n == "key_combo"@ {
        Directive::KeyCombo(a)
    } else if n == "case"@ && case_op(a, false) is Some {
        case_op(a, false)->0
    } else if n == "retro_case"@ && case_op(a, true) is Some {
        case_op(a, true)->0
    } else if n == "attach"@ {
        attach_meta(arg)
    } else if n == "carry_capitalize"@ {
        carry_meta(arg)
    } else if n == "stitch"@ {
        Directive::Stitch(head(a))
    } else if n == "command"@ {
        command_of(a)
    } else if n == "mode"@ && mode_of(a) is Some {
        mode_of(a)->0
    } else {
        Directive::Meta(n, norm(arg))
    }
}

/// `{~|BODY}`, given BODY.
pub open spec fn carry_block(r: Seq<char>) -> Directive {
    if r.len() >= 2 && r[0] == '^' && r.last() == '^' && lacks(r.subrange(1, r.len() - 1), '^') {
        Directive::CarryCapInfix(r.subrange(1, r.len() - 1))
    } else if r.len() > 0 && r.last() == '^' && lacks(r.drop_last(), '^') {
        Directive::CarryCapPrefix(r.drop_last())
    } else if r.len() > 0 && r[0] == '^' {
        Directive::CarryCapSuffix(r.skip(1))
    } else {
        Directive::CarryCapRaw(r)
    }
}

/// `{^X^}`, `{^X}` or `{X^}`, given the text between the braces.
pub open spec fn attach_block(b: Seq<char>) -> Option<Directive> {
    if b.len() >= 2 && b[0] == '^' && b.last() == '^' && lacks(b.subrange(1, b.len() - 1), '^') {
        let x = b.subrange(1, b.len() - 1);
        Some(if x == " "@ { Directive::HardSpace } else { Directive::AttachInfix(x) })
    } else if b.len() > 0 && b[0] == '^' {
        Some(Directive::AttachSuffix(b.skip(1)))
    } else if b.len() > 0 && b.last() == '^' && lacks(b.drop_last(), '^') {
        Some(Directive::AttachPrefix(b.drop_last()))
    } else {
        None
    }
}

/// The directive written `{b}`: the rules are tried in order, the first
/// that applies wins, and any other text between braces is literal.
pub open spec fn braced(b: Seq<char>) -> Directive {
    if b.len() == 0 {
        Directive::Cancel
    } else if b == "#"@ {
        Directive::Noop
    } else if is_blank(b) {
        Directive::Space
    } else if at_nocase(b, 0, "plover:"@) {
        command_of(b.skip(7))
    } else if at_nocase(b, 0, "mode:"@) && mode_of(b.skip(5)) is Some {
        mode_of(b.skip(5))->0
    } else if b[0] == '&' {
        Directive::Fingerspell(b.skip(1))
    } else if currency_block(b) is Some {
        currency_block(b)->0
    } else if currency_meta(b) is Some {
        currency_meta(b)->0
    } else if b[0] == '#' {
        Directive::KeyCombo(b.skip(1))
    } else if is_punct(b) {
        Directive::Punctuation(b)
    } else if operator(b) is Some {
        operator(b)->0
    } else if b[0] == ':' {
        meta(b.skip(1))
    } else if at(b, 0, "~|"@) {
        carry_block(b.skip(2))
    } else if attach_block(b) is Some {
        attach_block(b)->0
    } else {
        Directive::RawString(b)
    }
}

/// The directive that starts at position `i` of `s`, and where the next one
/// starts.
pub open spec fn plover_step(s: Seq<char>, i: int) -> (Directive, int) {
    let close = scan(s, i + 1, seq!['}']);
    if s[i] == '\\' && i + 1 < s.len() && (s[i + 1] == '\\' || s[i + 1] == '{' || s[i + 1]
        == '}') {
        (Directive::RawString(seq![s[i + 1]]), i + 2)
    } else if at_nocase(s, i, "{#return}{#return}"@) {
        if at(s, i + 18, "    "@) {
            (Directive::Paragraph(ParagraphMode::Contin), i + 22)
        } else {
            (Directive::Paragraph(ParagraphMode::Default), i + 18)
        }
    } else if s[i] == '{' && close < s.len() {
        (braced(s.subrange(i + 1, close)), close + 1)
    } else {
        let j = scan(s, i + 1, seq!['{', '\\']);
        (Directive::RawString(s.subrange(i, j)), j)
    }
}

/// The directives of `s` from position `i` on.
pub open spec fn plover_items(s: Seq<char>, i: int) -> Seq<Directive>
    decreases s.len() - i,
{
    if i < 0 || i >= s.len() {
        Seq::empty()
    } else {
        let step = plover_step(s, i);
        if step.1 <= i || step.1 > s.len() {
            Seq::empty()
        } else {
            seq![step.0] + plover_items(s, step.1)
        }
    }
}

/// `=NAME` or `=NAME:ARG`, given the text after `=`.
pub open spec fn macro_of(t: Seq<char>) -> Directive {
    let n = lower_of(head(t));
    if n == "undo"@ {
        Directive::DeleteStroke
    } else if n == "repeat_last_stroke"@ {
        Directive::RepeatLastStroke
    } else if n == "retrospective_toggle_asterisk"@ {
        Directive::RetroToggleStar
    } else if n == "retrospective_insert_space"@ {
        Directive::RetroInsertSpace
    } else if n == "retrospective_delete_space"@ {
        Directive::RetroDeleteSpace
    } else {
        Directive::Macro(n, norm(tail_arg(t)))
    }
}

/// The directives of a Plover translation: a macro when it starts with `=`,
/// else the directives one after another.
pub open spec fn parse_plover(s: Seq<char>) -> Seq<Directive> {
    if s.len() > 0 && s[0] == '=' {
        seq![macro_of(s.skip(1))]
    } else {
        plover_items(s, 0)
    }
}

} // verus!

verus! {

// ---------------------------------------------------------------------------
// The parser.
// ---------------------------------------------------------------------------

pub(crate) fn nonempty_exec(x: String) -> (r: Option<String>)
    ensures
        opt_view(r) == nonempty(x@),
{
    if x.as_str().is_empty() { None } else { Some(x) }
}

fn norm_exec(a: Option<String>) -> (r: Option<String>)
    ensures
        opt_view(r) == norm(opt_view(a)),
{
    match a {
        Some(x) => nonempty_exec(x),
        None => None,
    }
}

fn tail_exec(b: &Vec<char>) -> (r: Option<String>)
    ensures
        opt_view(r) == tail_arg(b@),
{
    let k = find_char(b, 0, ':');
    if k < b.len() {
        let t = string_of(b, k + 1, b.len());
        assert(t@ =~= b@.skip(k + 1));
        Some(t)
    } else {
        None
    }
}

fn head_exec(b: &Vec<char>) -> (r: Vec<char>)
    ensures
        r@ == head(b@),
{
    let k = find_char(b, 0, ':');
    let h = slice_of(b, 0, k);
    assert(h@ =~= b@.take(k as int));
    h
}

fn head_lower(b: &Vec<char>) -> (r: String)
    ensures
        r@ == lower_of(head(b@)),
{
    let h = whole(&head_exec(b));
    lowercase(h.as_str())
}

fn command_exec(c: &Vec<char>) -> (r: Object)
    ensures
        r@ == command_of(c@),
{
    Object::Command(head_lower(c), norm_exec(tail_exec(c)))
}

fn mode_word_exec(m: &Vec<char>) -> (r: Option<Object>)
    ensures
        opt_obj(r) == mode_word(m@),
{
    if is_lit_nocase(m, "reset_case") {
        Some(Object::CaseMode(Case::Sentence))
    } else if is_lit_nocase(m, "lower") {
        Some(Object::CaseMode(Case::Lower))
    } else if is_lit_nocase(m, "title") {
        Some(Object::CaseMode(Case::Title))
    } else if is_lit_nocase(m, "caps") {
        Some(Object::CaseMode(Case::Upper))
    } else if is_lit_nocase(m, "camel") {
        Some(Object::CaseMode(Case::Camel))
    } else if is_lit_nocase(m, "snake") {
        Some(Object::CaseMode(Case::Snake))
    } else if is_lit_nocase(m, "reset_space") {
        Some(Object::SpaceMode(None))
    } else if is_lit_nocase(m, "reset") {
        Some(Object::ResetCaseAndSpace)
    } else {
        None
    }
}

fn space_mode_exec(x: &Vec<char>) -> (r: Object)
    ensures
        r@ == space_mode(x@),
{
    if is_lit(x, " ") {
        Object::SpaceMode(None)
    } else {
        Object::SpaceMode(Some(whole(x)))
    }
}

fn mode_exec(a: &Vec<char>) -> (r: Option<Object>)
    ensures
        opt_obj(r) == mode_of(a@),
{
    if has_at_nocase(a, 0, "set_space:") {
        proof {
            reveal_strlit("set_space:");
        }
        let x = slice_of(a, 10, a.len());
        assert(x@ =~= a@.skip(10));
        Some(space_mode_exec(&x))
    } else {
        mode_word_exec(a)
    }
}

fn currency_block_exec(b: &Vec<char>) -> (r: Option<Object>)
    ensures
        opt_obj(r) == currency_block(b@),
{
    if !has_at(b, 0, "*(") {
        return None;
    }
    proof {
        reveal_strlit("*(");
    }
    let inner = slice_of(b, 2, b.len());
    assert(inner@ =~= b@.skip(2));
    let k = find_char(&inner, 0, 'c');
    if k >= inner.len() {
        return None;
    }
    let post = slice_of(&inner, k + 1, inner.len());
    assert(post@ =~= inner@.skip(k + 1));
    if post.len() == 0 || post[post.len() - 1] != ')' {
        return None;
    }
    let pl = slice_of(&post, 0, post.len() - 1);
    assert(pl@ =~= post@.drop_last());
    if find_char(&pl, 0, ')') != pl.len() {
        return None;
    }
    let pre = string_of(&inner, 0, k);
    assert(pre@ =~= inner@.take(k as int));
    Some(Object::Currency(nonempty_exec(pre), nonempty_exec(whole(&pl))))
}

fn currency_meta_exec(b: &Vec<char>) -> (r: Option<Object>)
    ensures
        opt_obj(r) == currency_meta(b@),
{
    if !has_at(b, 0, ":retro_currency:") {
        return None;
    }
    proof {
        reveal_strlit(":retro_currency:");
    }
    let inner = slice_of(b, 16, b.len());
    assert(inner@ =~= b@.skip(16));
    let k = find_char(&inner, 0, 'c');
    if k >= inner.len() {
        return None;
    }
    let pre = string_of(&inner, 0, k);
    assert(pre@ =~= inner@.take(k as int));
    let post = string_of(&inner, k + 1, inner.len());
    assert(post@ =~= inner@.skip(k + 1));
    Some(Object::Currency(nonempty_exec(pre), nonempty_exec(post)))
}

fn case_exec(a: &Vec<char>, retro: bool) -> (r: Option<Object>)
    ensures
        opt_obj(r) == case_op(a@, retro),
{
    if is_lit(a, "cap_first_word") {
        Some(if retro { Object::RetroForceCapitalize } else { Object::ForceCapitalize })
    } else if is_lit(a, "upper_first_word") {
        Some(if retro { Object::RetroForceCapitalizeWord } else { Object::ForceCapitalizeWord })
    } else if is_lit(a, "lower_first_char") {
        Some(if retro { Object::RetroForceLowercase } else { Object::ForceLowercase })
    } else {
        None
    }
}

fn attach_meta_exec(a: Option<String>) -> (r: Object)
    ensures
        r@ == attach_meta(opt_view(a)),
{
    match a {
        None => Object::AttachRaw,
        Some(x) => {
            let v = chars_of(x.as_str());
            let n = v.len();
            if is_lit(&v, " ") {
                Object::HardSpace
            } else if n > 0 && v[0] == '^' {
                let t = string_of(&v, 1, n);
                assert(t@ =~= v@.skip(1));
                Object::AttachSuffix(t)
            } else if n > 0 && v[n - 1] == '^' {
                let t = string_of(&v, 0, n - 1);
                assert(t@ =~= v@.drop_last());
                Object::AttachPrefix(t)
            } else {
                Object::AttachInfix(x)
            }
        },
    }
}

fn carry_meta_exec(a: Option<String>) -> (r: Object)
    ensures
        r@ == carry_meta(opt_view(a)),
{
    match a {
        None => Object::CarryCapRaw(String::new()),
        Some(x) => {
            let v = chars_of(x.as_str());
            let n = v.len();
            if n >= 2 && v[0] == '^' && v[n - 1] == '^' {
                Object::CarryCapInfix(string_of(&v, 1, n - 1))
            } else if n > 0 && v[0] == '^' {
                let t = string_of(&v, 1, n);
                assert(t@ =~= v@.skip(1));
                Object::CarryCapSuffix(t)
            } else if n > 0 && v[n - 1] == '^' {
                let t = string_of(&v, 0, n - 1);
                assert(t@ =~= v@.drop_last());
                Object::CarryCapPrefix(t)
            } else {
                Object::CarryCapRaw(x)
            }
        },
    }
}

fn meta_exec(b: &Vec<char>) -> (r: Object)
    ensures
        r@ == meta(b@),
{
    let n = head_lower(b);
    let arg = tail_exec(b);
    let a: Vec<char> = match &arg {
        Some(x) => chars_of(x.as_str()),
        None => Vec::new(),
    };
    assert(a@ == or_empty(opt_view(arg)));
    let is_glue = str_is(n.as_str(), "glue");
    let is_stop = str_is(n.as_str(), "stop") || str_is(n.as_str(), "comma");
    let is_key = str_is(n.as_str(), "key_combo");
    let is_case = str_is(n.as_str(), "case");
    let is_retro = str_is(n.as_str(), "retro_case");
    let is_attach = str_is(n.as_str(), "attach");
    let is_carry = str_is(n.as_str(), "carry_capitalize");
    let is_stitch = str_is(n.as_str(), "stitch");
    let is_command = str_is(n.as_str(), "command");
    let is_mode = str_is(n.as_str(), "mode");
    let co = case_exec(&a, false);
    let ro = case_exec(&a, true);
    let mo = mode_exec(&a);
    if is_glue {
        Object::Fingerspell(whole(&a))
    } else if is_stop {
        Object::Punctuation(whole(&a))
    } else if is_key {
        Object::KeyCombo(whole(&a))
    } else if is_case && co.is_some() {
        co.unwrap()
    } else if is_retro && ro.is_some() {
        ro.unwrap()
    } else if is_attach {
        attach_meta_exec(arg)
    } else if is_carry {
        carry_meta_exec(arg)
    } else if is_stitch {
        Object::Stitch(whole(&head_exec(&a)))
    } else if is_command {
        command_exec(&a)
    } else if is_mode && mo.is_some() {
        mo.unwrap()
    } else {
        Object::Meta(n, norm_exec(arg))
    }
}

fn lacks_exec(b: &Vec<char>, c: char) -> (r: bool)
    ensures
        r == lacks(b@, c),
{
    find_char(b, 0, c) == b.len()
}

fn carry_block_exec(r: &Vec<char>) -> (o: Object)
    ensures
        o@ == carry_block(r@),
{
    let n = r.len();
    let infix = n >= 2 && r[0] == '^' && r[n - 1] == '^' && lacks_exec(&slice_of(r, 1, n - 1), '^');
    if infix {
        return Object::CarryCapInfix(string_of(r, 1, n - 1));
    }
    if n > 0 && r[n - 1] == '^' {
        let init = slice_of(r, 0, n - 1);
        assert(init@ =~= r@.drop_last());
        if lacks_exec(&init, '^') {
            return Object::CarryCapPrefix(whole(&init));
        }
    }
    if n > 0 && r[0] == '^' {
        let t = string_of(r, 1, n);
        assert(t@ =~= r@.skip(1));
        Object::CarryCapSuffix(t)
    } else {
        Object::CarryCapRaw(whole(r))
    }
}

fn attach_block_exec(b: &Vec<char>) -> (o: Option<Object>)
    ensures
        opt_obj(o) == attach_block(b@),
{
    let n = b.len();
    let infix = n >= 2 && b[0] == '^' && b[n - 1] == '^' && lacks_exec(&slice_of(b, 1, n - 1), '^');
    if infix {
        let x = slice_of(b, 1, n - 1);
        if is_lit(&x, " ") {
            return Some(Object::HardSpace);
        }
        return Some(Object::AttachInfix(whole(&x)));
    }
    if n > 0 && b[0] == '^' {
        let t = string_of(b, 1, n);
        assert(t@ =~= b@.skip(1));
        return Some(Object::AttachSuffix(t));
    }
    if n > 0 && b[n - 1] == '^' {
        let init = slice_of(b, 0, n - 1);
        assert(init@ =~= b@.drop_last());
        if lacks_exec(&init, '^') {
            return Some(Object::AttachPrefix(whole(&init)));
        }
    }
    None
}

fn operator_exec(b: &Vec<char>) -> (o: Option<Object>)
    ensures
        opt_obj(o) == operator(b@),
{
    if is_lit(b, "^") {
        Some(Object::AttachRaw)
    } else if is_lit(b, "-|") || is_lit(b, "l-") {
        Some(Object::ForceCapitalize)
    } else if is_lit(b, "*-|") {
        Some(Object::RetroForceCapitalize)
    } else if is_lit(b, "*+") {
        Some(Object::RepeatLastStroke)
    } else if is_lit(b, "*?") {
        Some(Object::RetroInsertSpace)
    } else if is_lit(b, "*!") {
        Some(Object::RetroDeleteSpace)
    } else if is_lit(b, "*<") {
        Some(Object::RetroForceCapitalizeWord)
    } else if is_lit(b, "*>") {
        Some(Object::RetroForceLowercase)
    } else if is_lit(b, "*") {
        Some(Object::RetroToggleStar)
    } else if is_lit(b, "<") {
        Some(Object::ForceCapitalizeWord)
    } else if is_lit(b, ">") || is_lit(b, "l+") {
        Some(Object::ForceLowercase)
    } else {
        None
    }
}

fn is_punct_exec(b: &Vec<char>) -> (r: bool)
    ensures
        r == is_punct(b@),
{
    is_lit(b, "...") || is_lit(b, "--") || is_lit(b, "-") || is_lit(b, ".") || is_lit(b, ",")
        || is_lit(b, ":") || is_lit(b, ";") || is_lit(b, "?") || is_lit(b, "!")
}

fn is_blank_exec(b: &Vec<char>) -> (r: bool)
    ensures
        r == is_blank(b@),
{
    if b.len() == 0 {
        return false;
    }
    let mut k: usize = 0;
    while k < b.len()
        invariant
            k <= b@.len(),
            forall|m: int| 0 <= m < k ==> (#[trigger] b@[m] == ' ' || b@[m] == '\t'),
        decreases b@.len() - k,
    {
        if b[k] != ' ' && b[k] != '\t' {
            return false;
        }
        k = k + 1;
    }
    true
}

/// The directive written `{b}`.
fn braced_exec(b: &Vec<char>) -> (o: Object)
    ensures
        o@ == braced(b@),
{
    let n = b.len();
    if n == 0 {
        return Object::Cancel;
    }
    if is_lit(b, "#") {
        return Object::Noop;
    }
    if is_blank_exec(b) {
        return Object::Space;
    }
    if has_at_nocase(b, 0, "plover:") {
        proof {
            reveal_strlit("plover:");
        }
        let c = slice_of(b, 7, n);
        assert(c@ =~= b@.skip(7));
        return command_exec(&c);
    }
    if has_at_nocase(b, 0, "mode:") {
        proof {
            reveal_strlit("mode:");
        }
        let m = slice_of(b, 5, n);
        assert(m@ =~= b@.skip(5));
        let mo = mode_exec(&m);
        if mo.is_some() {
            return mo.unwrap();
        }
    }
    if b[0] == '&' {
        let t = string_of(b, 1, n);
        assert(t@ =~= b@.skip(1));
        return Object::Fingerspell(t);
    }
    let cb = currency_block_exec(b);
    if cb.is_some() {
        return cb.unwrap();
    }
    let cm = currency_meta_exec(b);
    if cm.is_some() {
        return cm.unwrap();
    }
    if b[0] == '#' {
        let t = string_of(b, 1, n);
        assert(t@ =~= b@.skip(1));
        return Object::KeyCombo(t);
    }
    if is_punct_exec(b) {
        return Object::Punctuation(whole(b));
    }
    let op = operator_exec(b);
    if op.is_some() {
        return op.unwrap();
    }
    if b[0] == ':' {
        let t = slice_of(b, 1, n);
        assert(t@ =~= b@.skip(1));
        return meta_exec(&t);
    }
    if has_at(b, 0, "~|") {
        proof {
            reveal_strlit("~|");
        }
        let t = slice_of(b, 2, n);
        assert(t@ =~= b@.skip(2));
        return carry_block_exec(&t);
    }
    let ab = attach_block_exec(b);
    if ab.is_some() {
        return ab.unwrap();
    }
    Object::RawString(whole(b))
}

/// The directive that starts at position `i` of `s`, and where the next one
/// starts.
fn plover_step_exec(s: &Vec<char>, i: usize) -> (r: (Object, usize))
    requires
        i < s@.len(),
    ensures
        r.0@ == plover_step(s@, i as int).0,
        r.1 == plover_step(s@, i as int).1,
        i < r.1 <= s@.len(),
{
    let n = s.len();
    if s[i] == '\\' && i + 1 < n && (s[i + 1] == '\\' || s[i + 1] == '{' || s[i + 1] == '}') {
        let mut t = String::new();
        t.push(s[i + 1]);
        return (Object::RawString(t), i + 2);
    }
    if has_at_nocase(s, i, "{#return}{#return}") {
        proof {
            reveal_strlit("{#return}{#return}");
            reveal_strlit("    ");
        }
        if has_at(s, i + 18, "    ") {
            return (Object::Paragraph(ParagraphMode::Contin), i + 22);
        } else {
            return (Object::Paragraph(ParagraphMode::Default), i + 18);
        }
    }
    let close = find_char(s, i + 1, '}');
    if s[i] == '{' && close < n {
        let b = slice_of(s, i + 1, close);
        return (braced_exec(&b), close + 1);
    }
    let j = scan_exec(s, i + 1, "{\\");
    proof {
        reveal_strlit("{\\");
        assert("{\\"@ =~= seq!['{', '\\']);
    }
    (Object::RawString(string_of(s, i, j)), j)
}

/// `=NAME` or `=NAME:ARG`, given the text after `=`.
fn macro_exec(t: &Vec<char>) -> (o: Object)
    ensures
        o@ == macro_of(t@),
{
    let n = head_lower(t);
    if str_is(n.as_str(), "undo") {
        Object::DeleteStroke
    } else if str_is(n.as_str(), "repeat_last_stroke") {
        Object::RepeatLastStroke
    } else if str_is(n.as_str(), "retrospective_toggle_asterisk") {
        Object::RetroToggleStar
    } else if str_is(n.as_str(), "retrospective_insert_space") {
        Object::RetroInsertSpace
    } else if str_is(n.as_str(), "retrospective_delete_space") {
        Object::RetroDeleteSpace
    } else {
        Object::Macro(n, norm_exec(tail_exec(t)))
    }
}

/// Parses a Plover translation into its directives.
pub fn parse_translation(tl: &str) -> (r: Vec<Object>)
    ensures
        views(r@) == parse_plover(tl@),
{
    let s = chars_of(tl);
    let mut out: Vec<Object> = Vec::new();
    if s.len() > 0 && s[0] == '=' {
        let t = slice_of(&s, 1, s.len());
        assert(t@ =~= s@.skip(1));
        out.push(macro_exec(&t));
        assert(views(out@) =~= seq![macro_of(s@.skip(1))]);
        return out;
    }
    let mut i: usize = 0;
    while i < s.len()
        invariant
            i <= s@.len(),
            s@ == tl@,
            !(s@.len() > 0 && s@[0] == '='),
            views(out@) + plover_items(s@, i as int) == plover_items(s@, 0),
        decreases s@.len() - i,
    {
        let (o, j) = plover_step_exec(&s, i);
        proof {
            assert(plover_items(s@, i as int) == seq![o@] + plover_items(s@, j as int));
            assert(views(out@.push(o)) =~= views(out@) + seq![o@]);
            assert(views(out@) + plover_items(s@, i as int) =~= views(out@.push(o))
                + plover_items(s@, j as int));
        }
        out.push(o);
        i = j;
    }
    assert(views(out@) =~= views(out@) + plover_items(s@, i as int));
    out
}

} // verus!

verus! {

// ---------------------------------------------------------------------------
// Rendering directives as RTF.
// ---------------------------------------------------------------------------

/// A character of literal text, escaped for RTF.
pub open spec fn esc_char(c: char) -> Seq<char> {
    if c == '{' || c == '}' || c == '\\' {
        seq!['\\', c]
    } else if c == '-' {
        seq!['\\', '_']
    } else if c == '\n' {
        seq!['\\', 'n']
    } else if c == '\t' {
        seq!['\\', 't']
    } else if c as u32 > 255 {
        seq!['\\', 'u'] + decimal((c as u32) as nat) + seq![' ']
    } else {
        seq![c]
    }
}

/// Literal text, escaped for RTF one character at a time.
pub open spec fn esc_rtf(x: Seq<char>) -> Seq<char>
    decreases x.len(),
{
    if x.len() == 0 {
        Seq::empty()
    } else {
        esc_rtf(x.drop_last()) + esc_char(x.last())
    }
}

/// `NAME` or `NAME:ARG`.
pub open spec fn name_arg(n: Seq<char>, a: Option<Seq<char>>) -> Seq<char> {
    match a {
        Some(x) => n + ":"@ + x,
        None => n,
    }
}

/// The RTF rendering of one directive.
pub open spec fn rtf_one(d: Directive) -> Seq<char> {
    match d {
        Directive::RawString(x) => esc_rtf(x),
        Directive::Command(n, a) => "{\\*\\cxplvrcmd "@ + name_arg(n, a) + "}"@,
        Directive::Meta(n, a) => "{\\*\\cxplvrmeta "@ + name_arg(n, a) + "}"@,
        Directive::Macro(n, a) => "{\\*\\cxplvrmac "@ + name_arg(n, a) + "}"@,
        Directive::Punctuation(p) => "{\\cxp"@ + p + " }"@,
        Directive::SpaceMode(Some(x)) => if x == " "@ {
            "{\\*\\cxplvrspc0}"@
        } else {
            "{\\*\\cxplvrspc "@ + x + "}"@
        },
        Directive::SpaceMode(None) => "{\\*\\cxplvrspc0}"@,
        Directive::KeyCombo(k) => "{\\*\\cxplvrkey "@ + trimmed(k) + "}"@,
        Directive::Fingerspell(x) => "{\\cxfing "@ + x + "}"@,
        Directive::Stitch(x) => "{\\cxstit "@ + x + "}"@,
        Directive::AttachSuffix(x) => "{\\*\\cxplvrortho}\\cxds "@ + x,
        Directive::AttachPrefix(x) => "{\\*\\cxplvrortho}"@ + x + "\\cxds "@,
        Directive::AttachInfix(x) => "{\\*\\cxplvrortho}\\cxds "@ + x + "\\cxds "@,
        Directive::CarryCapRaw(x) => "{\\*\\cxplvrccap}"@ + x,
        Directive::CarryCapSuffix(x) => "{\\*\\cxplvrccap}{\\*\\cxplvrortho}\\cxds "@ + x,
        Directive::CarryCapPrefix(x) => "{\\*\\cxplvrccap}{\\*\\cxplvrortho}"@ + x + "\\cxds "@,
        Directive::CarryCapInfix(x) => "{\\*\\cxplvrccap}{\\*\\cxplvrortho}\\cxds "@ + x
            + "\\cxds "@,
        Directive::Currency(l, r) => "{\\*\\cxplvrcurr "@ + or_empty(l) + "c"@ + or_empty(r) + "}"@,
        Directive::Noop => "{\\*\\cxplvrnop}"@,
        Directive::Cancel => "{\\*\\cxplvrcancel}"@,
        Directive::DeleteStroke => "\\cxdstroke "@,
        Directive::RepeatLastStroke => "{\\*\\cxplvrrpt}"@,
        Directive::RetroToggleStar => "{\\*\\cxplvrast}"@,
        Directive::RetroInsertSpace => "{\\*\\cxplvrrtisp}"@,
        Directive::RetroDeleteSpace => "{\\*\\cxplvrrtdsp}"@,
        Directive::ForceCapitalize => "\\cxfc "@,
        Directive::RetroForceCapitalize => "{\\*\\cxplvrrtfc}"@,
        Directive::ForceCapitalizeWord => "{\\*\\cxplvrfcw}"@,
        Directive::RetroForceCapitalizeWord => "{\\*\\cxplvrrtfcw}"@,
        Directive::ForceLowercase => "\\cxfl "@,
        Directive::RetroForceLowercase => "{\\*\\cxplvrrtfl}"@,
        Directive::CaseMode(Case::Sentence) => "{\\*\\cxplvrcase0}"@,
        Directive::CaseMode(Case::Lower) => "{\\*\\cxplvrcase1}"@,
        Directive::CaseMode(Case::Upper) => "{\\*\\cxplvrcase2}"@,
        Directive::CaseMode(Case::Title) => "{\\*\\cxplvrcase3}"@,
        Directive::CaseMode(Case::Camel) => "{\\*\\cxplvrcase4\\cxplvrspc}"@,
        Directive::CaseMode(Case::Snake) => "{\\*\\cxplvrcase0\\cxplvrspc _}"@,
        Directive::ResetCaseAndSpace => "{\\*\\cxplvrcase0\\cxplvrspc0}"@,
        Directive::AttachRaw => "\\cxds "@,
        Directive::Paragraph(ParagraphMode::Default) => "\\par\\s0 "@,
        Directive::Paragraph(ParagraphMode::Contin) => "\\par\\s1 "@,
        Directive::Space => " "@,
        Directive::HardSpace => "\\~"@,
        Directive::OrthoAttach => Seq::empty(),
    }
}

/// The RTF rendering of a sequence of directives: their renderings, one
/// after another.
pub open spec fn rtf_text(ds: Seq<Directive>) -> Seq<char>
    decreases ds.len(),
{
    if ds.len() == 0 {
        Seq::empty()
    } else {
        rtf_text(ds.drop_last()) + rtf_one(ds.last())
    }
}

/// Appends `x`, escaped for RTF, to `out`.
fn push_escaped(out: &mut String, x: &str)
    ensures
        final(out)@ == old(out)@ + esc_rtf(x@),
{
    let v = chars_of(x);
    let mut k: usize = 0;
    while k < v.len()
        invariant
            k <= v@.len(),
            v@ == x@,
            out@ == old(out)@ + esc_rtf(v@.take(k as int)),
        decreases v@.len() - k,
    {
        let c = v[k];
        let ghost before = out@;
        if c == '{' || c == '}' || c == '\\' {
            out.push('\\');
            out.push(c);
        } else if c == '-' {
            out.push('\\');
            out.push('_');
        } else if c == '\n' {
            out.push('\\');
            out.push('n');
        } else if c == '\t' {
            out.push('\\');
            out.push('t');
        } else if c as u32 > 255 {
            out.push('\\');
            out.push('u');
            push_decimal(out, c as u32);
            out.push(' ');
        } else {
            out.push(c);
        }
        assert(out@ =~= before + esc_char(c));
        proof {
            assert(v@.take(k + 1).drop_last() =~= v@.take(k as int));
            assert(v@.take(k + 1).last() == c);
        }
        assert(out@ =~= old(out)@ + esc_rtf(v@.take(k + 1)));
        k = k + 1;
    }
    assert(v@.take(k as int) =~= x@);
}

pub(crate) fn push_name_arg(out: &mut String, n: &String, a: &Option<String>)
    ensures
        final(out)@ == old(out)@ + name_arg(n@, opt_view(*a)),
{
    out.append(n.as_str());
    match a {
        Some(x) => {
            out.append(":");
            out.append(x.as_str());
        },
        None => {},
    }
    assert(out@ =~= old(out)@ + name_arg(n@, opt_view(*a)));
}

pub(crate) fn push_opt(out: &mut String, a: &Option<String>)
    ensures
        final(out)@ == old(out)@ + or_empty(opt_view(*a)),
{
    match a {
        Some(x) => {
            out.append(x.as_str());
        },
        None => {
            assert(out@ =~= old(out)@ + Seq::<char>::empty());
        },
    }
}

/// Appends the RTF rendering of `o` to `out`.
fn push_rtf(out: &mut String, o: &Object)
    ensures
        final(out)@ == old(out)@ + rtf_one(o@),
{
    let ghost start = out@;
    match o {
        Object::RawString(x) => push_escaped(out, x.as_str()),
        Object::Command(n, a) => {
            out.append("{\\*\\cxplvrcmd ");
            push_name_arg(out, n, a);
            out.append("}");
        },
        Object::Meta(n, a) => {
            out.append("{\\*\\cxplvrmeta ");
            push_name_arg(out, n, a);
            out.append("}");
        },
        Object::Macro(n, a) => {
            out.append("{\\*\\cxplvrmac ");
            push_name_arg(out, n, a);
            out.append("}");
        },
        Object::Punctuation(p) => {
            out.append("{\\cxp");
            out.append(p.as_str());
            out.append(" }");
        },
        Object::SpaceMode(Some(x)) => {
            if str_is(x.as_str(), " ") {
                out.append("{\\*\\cxplvrspc0}");
            } else {
                out.append("{\\*\\cxplvrspc ");
                out.append(x.as_str());
                out.append("}");
            }
        },
        Object::SpaceMode(None) => out.append("{\\*\\cxplvrspc0}"),
        Object::KeyCombo(k) => {
            out.append("{\\*\\cxplvrkey ");
            out.append(trim(k.as_str()));
            out.append("}");
        },
        Object::Fingerspell(x) => {
            out.append("{\\cxfing ");
            out.append(x.as_str());
            out.append("}");
        },
        Object::Stitch(x) => {
            out.append("{\\cxstit ");
            out.append(x.as_str());
            out.append("}");
        },
        Object::AttachSuffix(x) => {
            out.append("{\\*\\cxplvrortho}\\cxds ");
            out.append(x.as_str());
        },
        Object::AttachPrefix(x) => {
            out.append("{\\*\\cxplvrortho}");
            out.append(x.as_str());
            out.append("\\cxds ");
        },
        Object::AttachInfix(x) => {
            out.append("{\\*\\cxplvrortho}\\cxds ");
            out.append(x.as_str());
            out.append("\\cxds ");
        },
        Object::CarryCapRaw(x) => {
            out.append("{\\*\\cxplvrccap}");
            out.append(x.as_str());
        },
        Object::CarryCapSuffix(x) => {
            out.append("{\\*\\cxplvrccap}{\\*\\cxplvrortho}\\cxds ");
            out.append(x.as_str());
        },
        Object::CarryCapPrefix(x) => {
            out.append("{\\*\\cxplvrccap}{\\*\\cxplvrortho}");
            out.append(x.as_str());
            out.append("\\cxds ");
        },
        Object::CarryCapInfix(x) => {
            out.append("{\\*\\cxplvrccap}{\\*\\cxplvrortho}\\cxds ");
            out.append(x.as_str());
            out.append("\\cxds ");
        },
        Object::Currency(l, r) => {
            out.append("{\\*\\cxplvrcurr ");
            push_opt(out, l);
            out.append("c");
            push_opt(out, r);
            out.append("}");
        },
        Object::Noop => out.append("{\\*\\cxplvrnop}"),
        Object::Cancel => out.append("{\\*\\cxplvrcancel}"),
        Object::DeleteStroke => out.append("\\cxdstroke "),
        Object::RepeatLastStroke => out.append("{\\*\\cxplvrrpt}"),
        Object::RetroToggleStar => out.append("{\\*\\cxplvrast}"),
        Object::RetroInsertSpace => out.append("{\\*\\cxplvrrtisp}"),
        Object::RetroDeleteSpace => out.append("{\\*\\cxplvrrtdsp}"),
        Object::ForceCapitalize => out.append("\\cxfc "),
        Object::RetroForceCapitalize => out.append("{\\*\\cxplvrrtfc}"),
        Object::ForceCapitalizeWord => out.append("{\\*\\cxplvrfcw}"),
        Object::RetroForceCapitalizeWord => out.append("{\\*\\cxplvrrtfcw}"),
        Object::ForceLowercase => out.append("\\cxfl "),
        Object::RetroForceLowercase => out.append("{\\*\\cxplvrrtfl}"),
        Object::CaseMode(Case::Sentence) => out.append("{\\*\\cxplvrcase0}"),
        Object::CaseMode(Case::Lower) => out.append("{\\*\\cxplvrcase1}"),
        Object::CaseMode(Case::Upper) => out.append("{\\*\\cxplvrcase2}"),
        Object::CaseMode(Case::Title) => out.append("{\\*\\cxplvrcase3}"),
        Object::CaseMode(Case::Camel) => out.append("{\\*\\cxplvrcase4\\cxplvrspc}"),
        Object::CaseMode(Case::Snake) => out.append("{\\*\\cxplvrcase0\\cxplvrspc _}"),
        Object::ResetCaseAndSpace => out.append("{\\*\\cxplvrcase0\\cxplvrspc0}"),
        Object::AttachRaw => out.append("\\cxds "),
        Object::Paragraph(ParagraphMode::Default) => out.append("\\par\\s0 "),
        Object::Paragraph(ParagraphMode::Contin) => out.append("\\par\\s1 "),
        Object::Space => out.append(" "),
        Object::HardSpace => out.append("\\~"),
        Object::OrthoAttach => {
            assert(out@ =~= start + Seq::<char>::empty());
        },
    }
    assert(out@ =~= start + rtf_one(o@));
}

/// The RTF rendering of a sequence of objects.
pub fn rtf_of(objs: &Vec<Object>) -> (r: String)
    ensures
        r@ == rtf_text(views(objs@)),
{
    let mut out = String::new();
    let mut k: usize = 0;
    while k < objs.len()
        invariant
            k <= objs@.len(),
            out@ == rtf_text(views(objs@.take(k as int))),
        decreases objs@.len() - k,
    {
        push_rtf(&mut out, &objs[k]);
        proof {
            assert(views(objs@.take(k + 1)).drop_last() =~= views(objs@.take(k as int)));
            assert(views(objs@.take(k + 1)).last() == objs@[k as int]@);
        }
        k = k + 1;
    }
    assert(objs@.take(k as int) =~= objs@);
    out
}

/// Translates a Plover translation into RTF: parses it, then renders each
/// directive in turn.
pub fn format_plover_to_rtf(tl: &str) -> (r: String)
    ensures
        r@ == rtf_text(parse_plover(tl@)),
{
    let objs = parse_translation(tl);
    rtf_of(&objs)
}

} // verus!
