use vstd::prelude::*;

use crate::model::{Case, Directive, Object, ParagraphMode, opt_obj, opt_view, views};
use crate::plover::{
    head, lacks, name_arg, nonempty, nonempty_exec, or_empty, push_name_arg, push_opt, tail_arg,
};
use crate::text::{
    alpha_end, alpha_end_exec, at, char_from, char_of, chars_of, digit_end, digit_end_exec,
    digits_capped, digits_val, find_char, has_at, is_alpha, lower_of, lowercase, is_digit, is_lit, is_scalar, scan,
    scan_exec, slice_of, string_of, whole, DIGITS_CAP,
};

verus! {

// ---------------------------------------------------------------------------
// The grammar of RTF translation bodies, as spec functions.
// ---------------------------------------------------------------------------

/// The end of an optional signed integer that starts at `i`.
pub open spec fn number_end(s: Seq<char>, i: int) -> int {
    if 0 <= i && i + 1 < s.len() && s[i] == '-' && is_digit(s[i + 1]) {
        digit_end(s, i + 1)
    } else if 0 <= i < s.len() && is_digit(s[i]) {
        digit_end(s, i)
    } else {
        i
    }
}

/// The value of the signed integer written from `lo` up to `hi` (zero when
/// there is none).
pub open spec fn num_val(s: Seq<char>, lo: int, hi: int) -> int {
    if lo < hi && s[lo] == '-' {
        -(digits_val(s.subrange(lo + 1, hi)) as int)
    } else {
        digits_val(s.subrange(lo, hi)) as int
    }
}

/// Past the single space that may end a control word at `k`.
pub open spec fn past_space(s: Seq<char>, k: int) -> int {
    if 0 <= k < s.len() && s[k] == ' ' { k + 1 } else { k }
}

pub open spec fn case_num(v: int) -> Case {
    if v == 1 {
        Case::Lower
    } else if v == 2 {
        Case::Upper
    } else if v == 3 {
        Case::Title
    } else {
        Case::Sentence
    }
}

/// `{\*\cxplvrLABEL[N]}`, given LABEL and N.
pub open spec fn no_arg_group(label: Seq<char>, v: int) -> Option<Directive> {
    if label == "nop"@ {
        Some(Directive::Noop)
    } else if label == "cancel"@ {
        Some(Directive::Cancel)
    } else if label == "ast"@ {
        Some(Directive::RetroToggleStar)
    } else if label == "rpt"@ {
        Some(Directive::RepeatLastStroke)
    } else if label == "rtisp"@ {
        Some(Directive::RetroInsertSpace)
    } else if label == "rtdsp"@ {
        Some(Directive::RetroDeleteSpace)
    } else if label == "case"@ {
        Some(Directive::CaseMode(case_num(v)))
    } else if label == "ccap"@ {
        Some(Directive::CarryCapRaw(Seq::empty()))
    } else if label == "rtfc"@ {
        Some(Directive::RetroForceCapitalize)
    } else if label == "rtfl"@ {
        Some(Directive::RetroForceLowercase)
    } else if label == "fcw"@ {
        Some(Directive::ForceCapitalizeWord)
    } else if label == "rtfcw"@ {
        Some(Directive::RetroForceCapitalizeWord)
    } else if label == "spc"@ {
        Some(Directive::SpaceMode(None))
    } else if label == "ortho"@ {
        Some(Directive::OrthoAttach)
    } else {
        None
    }
}

/// `{\*\cxplvrLABEL[N] ARG}`, given LABEL and ARG.
pub open spec fn arg_group(label: Seq<char>, a: Seq<char>) -> Option<Directive> {
    let k = scan(a, 0, seq!['c']);
    if label == "meta"@ {
        Some(Directive::Meta(lower_of(head(a)), tail_arg(a)))
    } else if label == "mac"@ {
        Some(Directive::Macro(lower_of(head(a)), tail_arg(a)))
    } else if label == "cmd"@ {
        Some(Directive::Command(lower_of(head(a)), tail_arg(a)))
    } else if label == "spc"@ {
        Some(Directive::SpaceMode(Some(a)))
    } else if label == "key"@ {
        Some(Directive::KeyCombo(a))
    } else if label == "curr"@ && k < a.len() {
        Some(Directive::Currency(nonempty(a.take(k)), nonempty(a.skip(k + 1))))
    } else {
        None
    }
}

/// A group `{\*\cxplvr...}` at `i`: what it stands for, and where it ends.
pub open spec fn cxplvr_group(s: Seq<char>, i: int) -> Option<(Option<Directive>, int)> {
    let ls = i + 10;
    let le = alpha_end(s, ls);
    let ne = number_end(s, le);
    let close = scan(s, ne + 1, seq!['}']);
    if !at(s, i, "{\\*\\cxplvr"@) || le <= ls || ne >= s.len() {
        None
    } else if s[ne] == ' ' && close < s.len() {
        Some((arg_group(s.subrange(ls, le), s.subrange(ne + 1, close)), close + 1))
    } else if s[ne] == '}' {
        Some((no_arg_group(s.subrange(ls, le), num_val(s, le, ne)), ne + 1))
    } else {
        None
    }
}

/// The alternatives `{\cxc A}|{\cxc B}|...` from `j` on, up to the closing
/// `]}`: the last one, and where the group ends.
pub open spec fn conf_alts(s: Seq<char>, j: int) -> Option<(Seq<char>, int)>
    decreases s.len() - j,
{
    let close = scan(s, j + 6, seq!['}']);
    if !at(s, j, "{\\cxc "@) || close >= s.len() || close + 2 <= j {
        None
    } else if close + 1 < s.len() && s[close + 1] == '|' {
        if close + 2 > s.len() {
            None
        } else {
            conf_alts(s, close + 2)
        }
    } else if at(s, close + 1, "]}"@) {
        Some((s.subrange(j + 6, close), close + 3))
    } else {
        None
    }
}

/// A group `{\NAME BODY}` at `i` with a fixed opening `open`: its body and
/// where it ends.
pub open spec fn simple_group(s: Seq<char>, i: int, open: Seq<char>) -> Option<(Seq<char>, int)> {
    let close = scan(s, i + open.len(), seq!['}']);
    if at(s, i, open) && close < s.len() {
        Some((s.subrange(i + open.len(), close), close + 1))
    } else {
        None
    }
}

/// The body of `{\cxp P }` with its last character dropped.
pub open spec fn punct_of(body: Seq<char>) -> Seq<char> {
    if body.len() == 0 { body } else { body.drop_last() }
}

pub open spec fn raw_of(x: Seq<char>) -> Option<Directive> {
    if x.len() == 0 { None } else { Some(Directive::RawString(x)) }
}

/// A group at `i` (where `s[i]` is `{`): what it stands for, and where it
/// ends. Groups of no known form lose their opening brace.
pub open spec fn rtf_group(s: Seq<char>, i: int) -> (Option<Directive>, int) {
    let pst = if at(s, i + 5, " "@) { i + 6 } else { i + 5 };
    let pclose = scan(s, pst, seq!['}']);
    if at(s, i, "{\\*\\cxplvrcase0\\cxplvrspc0}"@) {
        (Some(Directive::ResetCaseAndSpace), i + "{\\*\\cxplvrcase0\\cxplvrspc0}"@.len())
    } else if at(s, i, "{\\*\\cxplvrcase4\\cxplvrspc}"@) {
        (Some(Directive::CaseMode(Case::Camel)), i + "{\\*\\cxplvrcase4\\cxplvrspc}"@.len())
    } else if at(s, i, "{\\*\\cxplvrcase0\\cxplvrspc _}"@) {
        (Some(Directive::CaseMode(Case::Snake)), i + "{\\*\\cxplvrcase0\\cxplvrspc _}"@.len())
    } else if cxplvr_group(s, i) is Some {
        cxplvr_group(s, i)->0
    } else if at(s, i, "{\\cxp"@) && pclose < s.len() {
        (Some(Directive::Punctuation(punct_of(s.subrange(pst, pclose)))), pclose + 1)
    } else if simple_group(s, i, "{\\cxfing "@) is Some {
        let g = simple_group(s, i, "{\\cxfing "@)->0;
        (Some(Directive::Fingerspell(g.0)), g.1)
    } else if simple_group(s, i, "{\\cxstit "@) is Some {
        let g = simple_group(s, i, "{\\cxstit "@)->0;
        (Some(Directive::Stitch(g.0)), g.1)
    } else if simple_group(s, i, "{\\cxa "@) is Some {
        let g = simple_group(s, i, "{\\cxa "@)->0;
        (raw_of(g.0), g.1)
    } else if at(s, i, "{\\cxconf ["@) && conf_alts(s, i + 10) is Some {
        let g = conf_alts(s, i + 10)->0;
        (raw_of(g.0), g.1)
    } else {
        (None, i + 1)
    }
}

/// A control word or symbol at `i` (where `s[i]` is a backslash): what it
/// stands for, and where it ends. Unknown ones stand for nothing.
pub open spec fn rtf_control(s: Seq<char>, i: int) -> (Option<Directive>, int) {
    let d = s[i + 1];
    let pe = number_end(s, i + 6);
    let de = digit_end(s, i + 2);
    let v = digits_val(s.subrange(i + 2, de));
    if at(s, i, "\\par\\s"@) && pe > i + 6 {
        (
            Some(
                Directive::Paragraph(
                    if num_val(s, i + 6, pe) == 1 {
                        ParagraphMode::Contin
                    } else {
                        ParagraphMode::Default
                    },
                ),
            ),
            past_space(s, pe),
        )
    } else if at(s, i, "\\cxdstroke"@) {
        (Some(Directive::DeleteStroke), past_space(s, i + 10))
    } else if at(s, i, "\\cxfl"@) {
        (Some(Directive::ForceLowercase), past_space(s, i + 5))
    } else if at(s, i, "\\cxfc"@) {
        (Some(Directive::ForceCapitalize), past_space(s, i + 5))
    } else if at(s, i, "\\cxds"@) {
        (Some(Directive::AttachRaw), past_space(s, i + 5))
    } else if i + 1 >= s.len() {
        (None, i + 1)
    } else if d == '\\' || d == '{' || d == '}' || d == 'n' || d == 't' {
        (Some(Directive::RawString(s.subrange(i, i + 2))), i + 2)
    } else if d == '~' {
        (Some(Directive::HardSpace), i + 2)
    } else if d == '_' {
        (Some(Directive::RawString(seq!['-'])), i + 2)
    } else if d == 'u' && i + 2 < s.len() && is_digit(s[i + 2]) {
        (
            if is_scalar(v as int) {
                Some(Directive::RawString(seq![char_of(v as int)]))
            } else {
                None
            },
            past_space(s, de),
        )
    } else if is_alpha(d) {
        (None, past_space(s, number_end(s, alpha_end(s, i + 1))))
    } else {
        (None, i + 2)
    }
}

/// What starts at position `i` of `s`, and where the next item starts.
pub open spec fn rtf_step(s: Seq<char>, i: int) -> (Option<Directive>, int) {
    if s[i] == '{' {
        rtf_group(s, i)
    } else if s[i] == '}' {
        (None, i + 1)
    } else if s[i] == '\\' {
        rtf_control(s, i)
    } else {
        let j = scan(s, i + 1, seq!['\\', '{', '}']);
        (Some(Directive::RawString(s.subrange(i, j))), j)
    }
}

/// The directives of `s` from position `i` on.
pub open spec fn rtf_items(s: Seq<char>, i: int) -> Seq<Directive>
    decreases s.len() - i,
{
    if i < 0 || i >= s.len() {
        Seq::empty()
    } else {
        let step = rtf_step(s, i);
        if step.1 <= i || step.1 > s.len() {
            Seq::empty()
        } else {
            match step.0 {
                Some(d) => seq![d] + rtf_items(s, step.1),
                None => rtf_items(s, step.1),
            }
        }
    }
}

/// The directives of an RTF translation body.
pub open spec fn parse_rtf(s: Seq<char>) -> Seq<Directive> {
    rtf_items(s, 0)
}

} // verus!

verus! {

// ---------------------------------------------------------------------------
// Rendering directives as Plover text, and the attach fixup.
// ---------------------------------------------------------------------------

/// The Plover rendering of one directive.
pub open spec fn plover_one(d: Directive) -> Seq<char> {
    match d {
        Directive::Paragraph(ParagraphMode::Default) => "{#return}{#return}"@,
        Directive::Paragraph(ParagraphMode::Contin) => "{#return}{#return}    "@,
        Directive::Fingerspell(x) => "{&"@ + x + "}"@,
        Directive::Stitch(x) => "{:stitch:"@ + x + "}"@,
        Directive::Command(c, a) => "{plover:"@ + name_arg(c, a) + "}"@,
        Directive::Meta(m, a) => "{:"@ + name_arg(m, a) + "}"@,
        Directive::Macro(m, a) => "="@ + name_arg(m, a),
        Directive::Currency(l, r) => "{*("@ + or_empty(l) + "c"@ + or_empty(r) + ")}"@,
        Directive::Punctuation(p) => "{"@ + p + "}"@,
        Directive::KeyCombo(k) => "{#"@ + k + "}"@,
        Directive::CaseMode(Case::Sentence) => "{mode:reset_case}"@,
        Directive::CaseMode(Case::Lower) => "{mode:lower}"@,
        Directive::CaseMode(Case::Upper) => "{mode:caps}"@,
        Directive::CaseMode(Case::Title) => "{mode:title}"@,
        Directive::CaseMode(Case::Camel) => "{mode:camel}"@,
        Directive::CaseMode(Case::Snake) => "{mode:snake}"@,
        Directive::SpaceMode(Some(x)) => "{mode:set_space:"@ + x + "}"@,
        Directive::SpaceMode(None) => "{mode:reset_space}"@,
        Directive::Cancel => "{}"@,
        Directive::Noop => "{#}"@,
        Directive::DeleteStroke => "=undo"@,
        Directive::RepeatLastStroke => "{*+}"@,
        Directive::RetroToggleStar => "{*}"@,
        Directive::RetroInsertSpace => "{*?}"@,
        Directive::RetroDeleteSpace => "{*!}"@,
        Directive::HardSpace => "{^ ^}"@,
        Directive::RawString(x) => x,
        Directive::ResetCaseAndSpace => "{mode:reset}"@,
        Directive::AttachRaw => "{^}"@,
        Directive::OrthoAttach => Seq::empty(),
        Directive::CarryCapRaw(x) => "{~|"@ + x + "}"@,
        Directive::ForceCapitalize => "{-|}"@,
        Directive::ForceLowercase => "{>}"@,
        Directive::RetroForceCapitalize => "{*-|}"@,
        Directive::RetroForceLowercase => "{*>}"@,
        Directive::ForceCapitalizeWord => "{<}"@,
        Directive::RetroForceCapitalizeWord => "{*<}"@,
        Directive::Space => "{ }"@,
        Directive::AttachPrefix(x) => "{"@ + x + "^}"@,
        Directive::AttachSuffix(x) => "{^"@ + x + "}"@,
        Directive::AttachInfix(x) => "{^"@ + x + "^}"@,
        Directive::CarryCapPrefix(x) => "{~|"@ + x + "^}"@,
        Directive::CarryCapSuffix(x) => "{~|^"@ + x + "}"@,
        Directive::CarryCapInfix(x) => "{~|^"@ + x + "^}"@,
    }
}

/// The Plover rendering of a sequence of directives: their renderings, one
/// after another.
pub open spec fn plover_text(ds: Seq<Directive>) -> Seq<char>
    decreases ds.len(),
{
    if ds.len() == 0 {
        Seq::empty()
    } else {
        plover_text(ds.drop_last()) + plover_one(ds.last())
    }
}

/// The whole of `t` is `head`, then a non-empty run holding no `{`, then
/// `tail`.
pub open spec fn shaped(t: Seq<char>, head: Seq<char>, tail: Seq<char>) -> bool {
    t.len() > head.len() + tail.len() && at(t, 0, head) && at(t, t.len() - tail.len(), tail)
        && lacks(t.subrange(head.len() as int, t.len() - tail.len()), '{')
}

/// When `t` is `head`, then a run `X`, then `tail` (see `shaped`):
/// `new_head`, `X`, `new_tail`. Any other `t` is kept.
pub open spec fn reshape(
    t: Seq<char>,
    head: Seq<char>,
    tail: Seq<char>,
    new_head: Seq<char>,
    new_tail: Seq<char>,
) -> Seq<char> {
    if shaped(t, head, tail) {
        new_head + t.subrange(head.len() as int, t.len() - tail.len()) + new_tail
    } else {
        t
    }
}

/// Fuses a translation made of attach tokens around one run of text into the
/// composite attach form, trying each shape in turn.
pub open spec fn attach_fixup(t: Seq<char>) -> Seq<char> {
    let t1 = reshape(t, "{^}"@, "{^}"@, "{^"@, "^}"@);
    let t2 = reshape(t1, ""@, "{^}"@, "{"@, "^}"@);
    let t3 = reshape(t2, "{^}"@, ""@, "{^"@, "}"@);
    let t4 = reshape(t3, "{~|}{^}"@, "{^}"@, "{~|^"@, "^}"@);
    let t5 = reshape(t4, "{~|}"@, "{^}"@, "{~|"@, "^}"@);
    let t6 = reshape(t5, "{~|}{^}"@, ""@, "{~|^"@, "}"@);
    reshape(t6, "{~|}"@, ""@, "{~|"@, "}"@)
}

/// The Plover text of an RTF translation body: its directives rendered one
/// after another, then fused by the attach fixup when the body marks its
/// attach runs as orthographic.
pub open spec fn rtf_to_plover(s: Seq<char>) -> Seq<char> {
    let ds = parse_rtf(s);
    if ds.contains(Directive::OrthoAttach) {
        attach_fixup(plover_text(ds))
    } else {
        plover_text(ds)
    }
}

} // verus!

verus! {

// ---------------------------------------------------------------------------
// The parser.
// ---------------------------------------------------------------------------

proof fn lemma_digit_end(s: Seq<char>, i: int)
    requires
        0 <= i <= s.len(),
    ensures
        i <= digit_end(s, i) <= s.len(),
        forall|k: int| i <= k < digit_end(s, i) ==> is_digit(#[trigger] s[k]),
    decreases s.len() - i,
{
    if i < s.len() && is_digit(s[i]) {
        lemma_digit_end(s, i + 1);
    }
}

fn number_end_exec(s: &Vec<char>, i: usize) -> (r: usize)
    requires
        i <= s@.len(),
    ensures
        r == number_end(s@, i as int),
        i <= r <= s@.len(),
{
    let n = s.len();
    if i < n && i + 1 < n && s[i] == '-' && '0' <= s[i + 1] && s[i + 1] <= '9' {
        digit_end_exec(s, i + 1)
    } else if i < n && '0' <= s[i] && s[i] <= '9' {
        digit_end_exec(s, i)
    } else {
        i
    }
}

/// The case mode that the number from `lo` to `hi` selects, and whether
/// the number is one.
fn number_meaning(s: &Vec<char>, lo: usize, hi: usize) -> (r: (Case, bool))
    requires
        lo <= hi <= s@.len(),
        hi == number_end(s@, lo as int),
    ensures
        r.0 == case_num(num_val(s@, lo as int, hi as int)),
        r.1 == (num_val(s@, lo as int, hi as int) == 1),
{
    if lo == hi {
        assert(s@.subrange(lo as int, hi as int) =~= Seq::<char>::empty());
        return (Case::Sentence, false);
    }
    if s[lo] == '-' {
        return (Case::Sentence, false);
    }
    proof {
        lemma_digit_end(s@, lo as int);
    }
    let m = digits_capped(s, lo, hi);
    let c = if m == 1 {
        Case::Lower
    } else if m == 2 {
        Case::Upper
    } else if m == 3 {
        Case::Title
    } else {
        Case::Sentence
    };
    (c, m == 1)
}

fn no_arg_exec(label: &Vec<char>, c: Case, Ghost(v): Ghost<int>) -> (r: Option<Object>)
    requires
        c == case_num(v),
    ensures
        opt_obj(r) == no_arg_group(label@, v),
{
    if is_lit(label, "nop") {
        Some(Object::Noop)
    } else if is_lit(label, "cancel") {
        Some(Object::Cancel)
    } else if is_lit(label, "ast") {
        Some(Object::RetroToggleStar)
    } else if is_lit(label, "rpt") {
        Some(Object::RepeatLastStroke)
    } else if is_lit(label, "rtisp") {
        Some(Object::RetroInsertSpace)
    } else if is_lit(label, "rtdsp") {
        Some(Object::RetroDeleteSpace)
    } else if is_lit(label, "case") {
        Some(Object::CaseMode(c))
    } else if is_lit(label, "ccap") {
        Some(Object::CarryCapRaw(String::new()))
    } else if is_lit(label, "rtfc") {
        Some(Object::RetroForceCapitalize)
    } else if is_lit(label, "rtfl") {
        Some(Object::RetroForceLowercase)
    } else if is_lit(label, "fcw") {
        Some(Object::ForceCapitalizeWord)
    } else if is_lit(label, "rtfcw") {
        Some(Object::RetroForceCapitalizeWord)
    } else if is_lit(label, "spc") {
        Some(Object::SpaceMode(None))
    } else if is_lit(label, "ortho") {
        Some(Object::OrthoAttach)
    } else {
        None
    }
}

/// `NAME`, in lower case, and the optional `ARG` of `NAME[:ARG]`.
fn split_name(a: &Vec<char>) -> (r: (String, Option<String>))
    ensures
        r.0@ == lower_of(head(a@)),
        opt_view(r.1) == tail_arg(a@),
{
    let k = find_char(a, 0, ':');
    let h = string_of(a, 0, k);
    assert(h@ =~= a@.take(k as int));
    let h = lowercase(h.as_str());
    if k < a.len() {
        let t = string_of(a, k + 1, a.len());
        assert(t@ =~= a@.skip(k + 1));
        (h, Some(t))
    } else {
        (h, None)
    }
}

fn arg_exec(label: &Vec<char>, a: &Vec<char>) -> (r: Option<Object>)
    ensures
        opt_obj(r) == arg_group(label@, a@),
{
    if is_lit(label, "meta") {
        let (n, x) = split_name(a);
        Some(Object::Meta(n, x))
    } else if is_lit(label, "mac") {
        let (n, x) = split_name(a);
        Some(Object::Macro(n, x))
    } else if is_lit(label, "cmd") {
        let (n, x) = split_name(a);
        Some(Object::Command(n, x))
    } else if is_lit(label, "spc") {
        Some(Object::SpaceMode(Some(whole(a))))
    } else if is_lit(label, "key") {
        Some(Object::KeyCombo(whole(a)))
    } else if is_lit(label, "curr") {
        let k = find_char(a, 0, 'c');
        if k < a.len() {
            let pre = string_of(a, 0, k);
            assert(pre@ =~= a@.take(k as int));
            let post = string_of(a, k + 1, a.len());
            assert(post@ =~= a@.skip(k + 1));
            Some(Object::Currency(nonempty_exec(pre), nonempty_exec(post)))
        } else {
            None
        }
    } else {
        None
    }
}

fn cxplvr_exec(s: &Vec<char>, i: usize) -> (r: Option<(Option<Object>, usize)>)
    requires
        i < s@.len(),
    ensures
        r is Some <==> cxplvr_group(s@, i as int) is Some,
        r matches Some(p) ==> cxplvr_group(s@, i as int) == Some((opt_obj(p.0), p.1 as int)) && i
            < p.1 <= s@.len(),
{
    let len = s.len();
    if !has_at(s, i, "{\\*\\cxplvr") {
        return None;
    }
    proof {
        reveal_strlit("{\\*\\cxplvr");
    }
    let ls = i + 10;
    let le = alpha_end_exec(s, ls);
    let ne = number_end_exec(s, le);
    if le <= ls || ne >= s.len() {
        return None;
    }
    let label = slice_of(s, ls, le);
    if s[ne] == ' ' {
        let close = find_char(s, ne + 1, '}');
        if close < s.len() {
            let a = slice_of(s, ne + 1, close);
            return Some((arg_exec(&label, &a), close + 1));
        }
    }
    if s[ne] == '}' {
        let (c, _) = number_meaning(s, le, ne);
        return Some((no_arg_exec(&label, c, Ghost(num_val(s@, le as int, ne as int))), ne + 1));
    }
    None
}

fn conf_exec(s: &Vec<char>, j: usize) -> (r: Option<(String, usize)>)
    requires
        j <= s@.len(),
    ensures
        r is Some <==> conf_alts(s@, j as int) is Some,
        r matches Some(p) ==> conf_alts(s@, j as int) == Some((p.0@, p.1 as int)) && j < p.1
            <= s@.len(),
    decreases s@.len() - j,
{
    let len = s.len();
    if !has_at(s, j, "{\\cxc ") {
        return None;
    }
    proof {
        reveal_strlit("{\\cxc ");
        reveal_strlit("]}");
    }
    let close = find_char(s, j + 6, '}');
    if close >= s.len() {
        return None;
    }
    if close + 1 < s.len() && s[close + 1] == '|' {
        return conf_exec(s, close + 2);
    }
    if has_at(s, close + 1, "]}") {
        return Some((string_of(s, j + 6, close), close + 3));
    }
    None
}

fn simple_exec(s: &Vec<char>, i: usize, open: &str) -> (r: Option<(String, usize)>)
    requires
        i < s@.len(),
    ensures
        r is Some <==> simple_group(s@, i as int, open@) is Some,
        r matches Some(p) ==> simple_group(s@, i as int, open@) == Some((p.0@, p.1 as int)) && i
            < p.1 <= s@.len(),
{
    let len = s.len();
    if !has_at(s, i, open) {
        return None;
    }
    let st = i + open.unicode_len();
    let close = find_char(s, st, '}');
    if close < s.len() {
        Some((string_of(s, st, close), close + 1))
    } else {
        None
    }
}

fn raw_exec(x: String) -> (r: Option<Object>)
    ensures
        opt_obj(r) == raw_of(x@),
{
    if x.as_str().is_empty() { None } else { Some(Object::RawString(x)) }
}

fn rtf_group_exec(s: &Vec<char>, i: usize) -> (r: (Option<Object>, usize))
    requires
        i < s@.len(),
    ensures
        opt_obj(r.0) == rtf_group(s@, i as int).0,
        r.1 == rtf_group(s@, i as int).1,
        i < r.1 <= s@.len(),
{
    let len = s.len();
    proof {
        reveal_strlit("{\\*\\cxplvrcase0\\cxplvrspc0}");
        reveal_strlit("{\\*\\cxplvrcase4\\cxplvrspc}");
        reveal_strlit("{\\*\\cxplvrcase0\\cxplvrspc _}");
        reveal_strlit("{\\cxp");
        reveal_strlit(" ");
        reveal_strlit("{\\cxconf [");
    }
    if has_at(s, i, "{\\*\\cxplvrcase0\\cxplvrspc0}") {
        return (Some(Object::ResetCaseAndSpace), i + 27);
    }
    if has_at(s, i, "{\\*\\cxplvrcase4\\cxplvrspc}") {
        return (Some(Object::CaseMode(Case::Camel)), i + 26);
    }
    if has_at(s, i, "{\\*\\cxplvrcase0\\cxplvrspc _}") {
        return (Some(Object::CaseMode(Case::Snake)), i + 28);
    }
    let g = cxplvr_exec(s, i);
    if g.is_some() {
        return g.unwrap();
    }
    if has_at(s, i, "{\\cxp") {
        let pst = if has_at(s, i + 5, " ") { i + 6 } else { i + 5 };
        let pclose = find_char(s, pst, '}');
        if pclose < s.len() {
            let body = slice_of(s, pst, pclose);
            let p = if body.len() == 0 {
                String::new()
            } else {
                let t = string_of(&body, 0, body.len() - 1);
                assert(t@ =~= body@.drop_last());
                t
            };
            assert(p@ == punct_of(body@));
            return (Some(Object::Punctuation(p)), pclose + 1);
        }
    }
    let f = simple_exec(s, i, "{\\cxfing ");
    if f.is_some() {
        let (b, e) = f.unwrap();
        return (Some(Object::Fingerspell(b)), e);
    }
    let f = simple_exec(s, i, "{\\cxstit ");
    if f.is_some() {
        let (b, e) = f.unwrap();
        return (Some(Object::Stitch(b)), e);
    }
    let f = simple_exec(s, i, "{\\cxa ");
    if f.is_some() {
        let (b, e) = f.unwrap();
        return (raw_exec(b), e);
    }
    if has_at(s, i, "{\\cxconf [") {
        let c = conf_exec(s, i + 10);
        if c.is_some() {
            let (b, e) = c.unwrap();
            return (raw_exec(b), e);
        }
    }
    (None, i + 1)
}

fn past_space_exec(s: &Vec<char>, k: usize) -> (r: usize)
    requires
        k <= s@.len(),
    ensures
        r == past_space(s@, k as int),
        k <= r <= s@.len(),
{
    if k < s.len() && s[k] == ' ' { k + 1 } else { k }
}

fn rtf_control_exec(s: &Vec<char>, i: usize) -> (r: (Option<Object>, usize))
    requires
        i < s@.len(),
        s@[i as int] == '\\',
    ensures
        opt_obj(r.0) == rtf_control(s@, i as int).0,
        r.1 == rtf_control(s@, i as int).1,
        i < r.1 <= s@.len(),
{
    let n = s.len();
    proof {
        reveal_strlit("\\par\\s");
        reveal_strlit("\\cxdstroke");
        reveal_strlit("\\cxfl");
        reveal_strlit("\\cxfc");
        reveal_strlit("\\cxds");
    }
    if has_at(s, i, "\\par\\s") {
        let pe = number_end_exec(s, i + 6);
        if pe > i + 6 {
            let (_, one) = number_meaning(s, i + 6, pe);
            let m = if one { ParagraphMode::Contin } else { ParagraphMode::Default };
            return (Some(Object::Paragraph(m)), past_space_exec(s, pe));
        }
    }
    if has_at(s, i, "\\cxdstroke") {
        return (Some(Object::DeleteStroke), past_space_exec(s, i + 10));
    }
    if has_at(s, i, "\\cxfl") {
        return (Some(Object::ForceLowercase), past_space_exec(s, i + 5));
    }
    if has_at(s, i, "\\cxfc") {
        return (Some(Object::ForceCapitalize), past_space_exec(s, i + 5));
    }
    if has_at(s, i, "\\cxds") {
        return (Some(Object::AttachRaw), past_space_exec(s, i + 5));
    }
    if i + 1 >= n {
        return (None, i + 1);
    }
    let d = s[i + 1];
    if d == '\\' || d == '{' || d == '}' || d == 'n' || d == 't' {
        return (Some(Object::RawString(string_of(s, i, i + 2))), i + 2);
    }
    if d == '~' {
        return (Some(Object::HardSpace), i + 2);
    }
    if d == '_' {
        let mut t = String::new();
        t.push('-');
        return (Some(Object::RawString(t)), i + 2);
    }
    if d == 'u' && i + 2 < n && '0' <= s[i + 2] && s[i + 2] <= '9' {
        let de = digit_end_exec(s, i + 2);
        proof {
            lemma_digit_end(s@, i + 2);
        }
        let v = digits_capped(s, i + 2, de);
        let ghost dv = digits_val(s@.subrange(i + 2, de as int));
        let e = past_space_exec(s, de);
        if v == DIGITS_CAP {
            assert(!is_scalar(dv as int));
            return (None, e);
        }
        assert(v as int == dv);
        match char_from(v) {
            Some(c) => {
                proof {
                    vstd::utf8::char_u32_cast(c, v);
                    assert((dv as int) as u32 == v);
                }
                assert(c == char_of(dv as int));
                let mut t = String::new();
                t.push(c);
                return (Some(Object::RawString(t)), e);
            },
            None => {
                return (None, e);
            },
        }
    }
    if ('a' <= d && d <= 'z') || ('A' <= d && d <= 'Z') {
        let ae = alpha_end_exec(s, i + 1);
        let ne = number_end_exec(s, ae);
        return (None, past_space_exec(s, ne));
    }
    (None, i + 2)
}

fn rtf_step_exec(s: &Vec<char>, i: usize) -> (r: (Option<Object>, usize))
    requires
        i < s@.len(),
    ensures
        opt_obj(r.0) == rtf_step(s@, i as int).0,
        r.1 == rtf_step(s@, i as int).1,
        i < r.1 <= s@.len(),
{
    let len = s.len();
    if s[i] == '{' {
        rtf_group_exec(s, i)
    } else if s[i] == '}' {
        (None, i + 1)
    } else if s[i] == '\\' {
        rtf_control_exec(s, i)
    } else {
        let j = scan_exec(s, i + 1, "\\{}");
        proof {
            reveal_strlit("\\{}");
            assert("\\{}"@ =~= seq!['\\', '{', '}']);
        }
        (Some(Object::RawString(string_of(s, i, j))), j)
    }
}

/// Parses an RTF translation body into its directives.
pub fn parse_rtf_translation(tl: &str) -> (r: Vec<Object>)
    ensures
        views(r@) == parse_rtf(tl@),
{
    let s = chars_of(tl);
    let mut out: Vec<Object> = Vec::new();
    let mut i: usize = 0;
    while i < s.len()
        invariant
            i <= s@.len(),
            s@ == tl@,
            views(out@) + rtf_items(s@, i as int) == rtf_items(s@, 0),
        decreases s@.len() - i,
    {
        let (o, j) = rtf_step_exec(&s, i);
        match o {
            Some(x) => {
                proof {
                    assert(rtf_items(s@, i as int) == seq![x@] + rtf_items(s@, j as int));
                    assert(views(out@.push(x)) =~= views(out@) + seq![x@]);
                    assert(views(out@) + rtf_items(s@, i as int) =~= views(out@.push(x))
                        + rtf_items(s@, j as int));
                }
                out.push(x);
            },
            None => {
                assert(rtf_items(s@, i as int) == rtf_items(s@, j as int));
            },
        }
        i = j;
    }
    assert(views(out@) =~= views(out@) + rtf_items(s@, i as int));
    out
}

} // verus!

verus! {

// ---------------------------------------------------------------------------
// The renderer and the fixup.
// ---------------------------------------------------------------------------

fn push_wrapped(out: &mut String, open: &str, x: &String, close: &str)
    ensures
        final(out)@ == old(out)@ + (open@ + x@ + close@),
{
    out.append(open);
    out.append(x.as_str());
    out.append(close);
    assert(out@ =~= old(out)@ + (open@ + x@ + close@));
}

/// Appends the Plover rendering of `o` to `out`.
fn push_plover(out: &mut String, o: &Object)
    ensures
        final(out)@ == old(out)@ + plover_one(o@),
{
    let ghost start = out@;
    match o {
        Object::Paragraph(ParagraphMode::Default) => out.append("{#return}{#return}"),
        Object::Paragraph(ParagraphMode::Contin) => out.append("{#return}{#return}    "),
        Object::Fingerspell(x) => push_wrapped(out, "{&", x, "}"),
        Object::Stitch(x) => push_wrapped(out, "{:stitch:", x, "}"),
        Object::Command(c, a) => {
            out.append("{plover:");
            push_name_arg(out, c, a);
            out.append("}");
        },
        Object::Meta(m, a) => {
            out.append("{:");
            push_name_arg(out, m, a);
            out.append("}");
        },
        Object::Macro(m, a) => {
            out.append("=");
            push_name_arg(out, m, a);
        },
        Object::Currency(l, r) => {
            out.append("{*(");
            push_opt(out, l);
            out.append("c");
            push_opt(out, r);
            out.append(")}");
        },
        Object::Punctuation(p) => push_wrapped(out, "{", p, "}"),
        Object::KeyCombo(k) => push_wrapped(out, "{#", k, "}"),
        Object::CaseMode(Case::Sentence) => out.append("{mode:reset_case}"),
        Object::CaseMode(Case::Lower) => out.append("{mode:lower}"),
        Object::CaseMode(Case::Upper) => out.append("{mode:caps}"),
        Object::CaseMode(Case::Title) => out.append("{mode:title}"),
        Object::CaseMode(Case::Camel) => out.append("{mode:camel}"),
        Object::CaseMode(Case::Snake) => out.append("{mode:snake}"),
        Object::SpaceMode(Some(x)) => push_wrapped(out, "{mode:set_space:", x, "}"),
        Object::SpaceMode(None) => out.append("{mode:reset_space}"),
        Object::Cancel => out.append("{}"),
        Object::Noop => out.append("{#}"),
        Object::DeleteStroke => out.append("=undo"),
        Object::RepeatLastStroke => out.append("{*+}"),
        Object::RetroToggleStar => out.append("{*}"),
        Object::RetroInsertSpace => out.append("{*?}"),
        Object::RetroDeleteSpace => out.append("{*!}"),
        Object::HardSpace => out.append("{^ ^}"),
        Object::RawString(x) => out.append(x.as_str()),
        Object::ResetCaseAndSpace => out.append("{mode:reset}"),
        Object::AttachRaw => out.append("{^}"),
        Object::OrthoAttach => {
            assert(out@ =~= start + Seq::<char>::empty());
        },
        Object::CarryCapRaw(x) => push_wrapped(out, "{~|", x, "}"),
        Object::ForceCapitalize => out.append("{-|}"),
        Object::ForceLowercase => out.append("{>}"),
        Object::RetroForceCapitalize => out.append("{*-|}"),
        Object::RetroForceLowercase => out.append("{*>}"),
        Object::ForceCapitalizeWord => out.append("{<}"),
        Object::RetroForceCapitalizeWord => out.append("{*<}"),
        Object::Space => out.append("{ }"),
        Object::AttachPrefix(x) => push_wrapped(out, "{", x, "^}"),
        Object::AttachSuffix(x) => push_wrapped(out, "{^", x, "}"),
        Object::AttachInfix(x) => push_wrapped(out, "{^", x, "^}"),
        Object::CarryCapPrefix(x) => push_wrapped(out, "{~|", x, "^}"),
        Object::CarryCapSuffix(x) => push_wrapped(out, "{~|^", x, "}"),
        Object::CarryCapInfix(x) => push_wrapped(out, "{~|^", x, "^}"),
    }
    assert(out@ =~= start + plover_one(o@));
}

/// The Plover rendering of a sequence of objects.
pub fn plover_of(objs: &Vec<Object>) -> (r: String)
    ensures
        r@ == plover_text(views(objs@)),
{
    let mut out = String::new();
    let mut k: usize = 0;
    while k < objs.len()
        invariant
            k <= objs@.len(),
            out@ == plover_text(views(objs@.take(k as int))),
        decreases objs@.len() - k,
    {
        push_plover(&mut out, &objs[k]);
        proof {
            assert(views(objs@.take(k + 1)).drop_last() =~= views(objs@.take(k as int)));
            assert(views(objs@.take(k + 1)).last() == objs@[k as int]@);
        }
        k = k + 1;
    }
    assert(objs@.take(k as int) =~= objs@);
    out
}

/// Whether one of `objs` is the orthographic attach marker.
fn has_ortho(objs: &Vec<Object>) -> (r: bool)
    ensures
        r == views(objs@).contains(Directive::OrthoAttach),
{
    let mut k: usize = 0;
    while k < objs.len()
        invariant
            k <= objs@.len(),
            forall|m: int| 0 <= m < k ==> objs@[m]@ != Directive::OrthoAttach,
        decreases objs@.len() - k,
    {
        match &objs[k] {
            Object::OrthoAttach => {
                assert(views(objs@)[k as int] == Directive::OrthoAttach);
                return true;
            },
            _ => {},
        }
        k = k + 1;
    }
    assert forall|m: int| 0 <= m < views(objs@).len() implies views(objs@)[m]
        != Directive::OrthoAttach by {
        assert(views(objs@)[m] == objs@[m]@);
    }
    false
}

/// `t` reshaped as `reshape` says.
fn reshape_exec(t: &Vec<char>, head: &str, tail: &str, new_head: &str, new_tail: &str) -> (r: Vec<
    char,
>)
    ensures
        r@ == reshape(t@, head@, tail@, new_head@, new_tail@),
{
    let n = t.len();
    let h = head.unicode_len();
    let tl = tail.unicode_len();
    if h > n || tl > n - h || n - h - tl == 0 {
        return slice_of(t, 0, n);
    }
    let mid = slice_of(t, h, n - tl);
    if !has_at(t, 0, head) || !has_at(t, n - tl, tail) || find_char(&mid, 0, '{') != mid.len() {
        let r = slice_of(t, 0, n);
        assert(r@ =~= t@);
        return r;
    }
    let mut r = chars_of(new_head);
    let mut k: usize = 0;
    while k < mid.len()
        invariant
            k <= mid@.len(),
            r@ == new_head@ + mid@.take(k as int),
        decreases mid@.len() - k,
    {
        r.push(mid[k]);
        assert(mid@.take(k + 1) =~= mid@.take(k as int).push(mid@[k as int]));
        k = k + 1;
    }
    let nt = chars_of(new_tail);
    let mut k: usize = 0;
    let ghost base = r@;
    while k < nt.len()
        invariant
            k <= nt@.len(),
            r@ == base + nt@.take(k as int),
        decreases nt@.len() - k,
    {
        r.push(nt[k]);
        assert(nt@.take(k + 1) =~= nt@.take(k as int).push(nt@[k as int]));
        k = k + 1;
    }
    assert(mid@.take(mid@.len() as int) =~= mid@);
    assert(nt@.take(nt@.len() as int) =~= nt@);
    assert(r@ =~= new_head@ + mid@ + new_tail@);
    r
}

/// Fuses a translation made of attach tokens around one run of text into the
/// composite attach form (`{^}X{^}` becomes `{^X^}`, `{~|}X{^}` becomes
/// `{~|X^}`, and so on); any other translation is kept.
pub fn fix_attach(translation: &str) -> (r: String)
    ensures
        r@ == attach_fixup(translation@),
{
    let t = chars_of(translation);
    let t = reshape_exec(&t, "{^}", "{^}", "{^", "^}");
    let t = reshape_exec(&t, "", "{^}", "{", "^}");
    let t = reshape_exec(&t, "{^}", "", "{^", "}");
    let t = reshape_exec(&t, "{~|}{^}", "{^}", "{~|^", "^}");
    let t = reshape_exec(&t, "{~|}", "{^}", "{~|", "^}");
    let t = reshape_exec(&t, "{~|}{^}", "", "{~|^", "}");
    let t = reshape_exec(&t, "{~|}", "", "{~|", "}");
    let r = string_of(&t, 0, t.len());
    assert(t@.subrange(0, t@.len() as int) =~= t@);
    r
}

/// Translates an RTF translation body into Plover: parses it, renders each
/// directive in turn, then applies the attach fixup when the body holds the
/// orthographic attach marker.
pub fn format_rtf_to_plover(tl: &str) -> (r: String)
    ensures
        r@ == rtf_to_plover(tl@),
{
    let objs = parse_rtf_translation(tl);
    let text = plover_of(&objs);
    if has_ortho(&objs) {
        fix_attach(text.as_str())
    } else {
        text
    }
}

} // verus!
