use vstd::prelude::*;

use crate::model::{Case, Directive, ParagraphMode};
use crate::plover::{is_blank, lacks, nonempty, norm, or_empty};
use crate::plover::{esc_char, esc_rtf, parse_plover, plover_items, plover_step, rtf_one, rtf_text};
use crate::rtf::{
    attach_fixup, parse_rtf, plover_one, plover_text, rtf_items, rtf_step, rtf_to_plover, shaped,
};
use crate::text::{lower_of, trimmed, eq_nocase, alpha_end, at, at_nocase, char_of, is_alpha, decimal, digit, digit_end, digits_val, fold, is_digit, is_scalar, scan};
use crate::rtf::{no_arg_group, past_space, rtf_control};

verus! {

proof fn lemma_scan_past(s: Seq<char>, i: int, stops: Seq<char>)
    requires
        0 <= i <= s.len(),
        forall|k: int| i <= k < s.len() ==> !stops.contains(#[trigger] s[k]),
    ensures
        scan(s, i, stops) == s.len(),
    decreases s.len() - i,
{
    if i < s.len() {
        lemma_scan_past(s, i + 1, stops);
    }
}

proof fn lemma_one_directive(d: Directive)
    ensures
        rtf_text(seq![d]) == rtf_one(d),
        plover_text(seq![d]) == plover_one(d),
        seq![d].contains(Directive::OrthoAttach) <==> d == Directive::OrthoAttach,
{
    let e = Seq::<Directive>::empty();
    assert(seq![d].drop_last() =~= e);
    assert(seq![d].last() == d);
    assert(rtf_text(e) == Seq::<char>::empty());
    assert(plover_text(e) == Seq::<char>::empty());
    assert(rtf_text(seq![d]) == rtf_text(e) + rtf_one(d));
    assert(rtf_text(seq![d]) =~= rtf_one(d));
    assert(plover_text(seq![d]) == plover_text(e) + plover_one(d));
    assert(plover_text(seq![d]) =~= plover_one(d));
    if seq![d].contains(Directive::OrthoAttach) {
        let k = choose|k: int| 0 <= k < 1 && seq![d][k] == Directive::OrthoAttach;
        assert(k == 0);
    }
    if d == Directive::OrthoAttach {
        assert(seq![d][0] == Directive::OrthoAttach);
    }
}

/// A character that both dialects write as itself.
pub open spec fn text_char(c: char) -> bool {
    c != '{' && c != '}' && c != '\\' && c != '-' && c != '\n' && c != '\t' && c as u32 <= 255
}

proof fn lemma_esc_plain(x: Seq<char>)
    requires
        forall|k: int| 0 <= k < x.len() ==> text_char(#[trigger] x[k]),
    ensures
        esc_rtf(x) == x,
    decreases x.len(),
{
    if x.len() > 0 {
        lemma_esc_plain(x.drop_last());
        assert(x.drop_last().push(x.last()) =~= x);
    }
}

/// An empty translation stays empty in both directions.
pub proof fn lemma_empty_translation()
    ensures
        rtf_text(parse_plover(Seq::empty())) == Seq::<char>::empty(),
        rtf_to_plover(Seq::empty()) == Seq::<char>::empty(),
{
    assert(parse_rtf(Seq::empty()) =~= Seq::<Directive>::empty());
    assert(!Seq::<Directive>::empty().contains(Directive::OrthoAttach));
}

/// Text made only of characters that neither dialect escapes (no braces,
/// backslash, hyphen, newline or tab, and no code point above 255) passes
/// through both translations unchanged, unless it starts with `=`, which
/// makes a Plover translation a macro.
pub proof fn lemma_plain_text(s: Seq<char>)
    requires
        forall|k: int| 0 <= k < s.len() ==> text_char(#[trigger] s[k]),
        !(s.len() > 0 && s[0] == '='),
    ensures
        rtf_text(parse_plover(s)) == s,
        rtf_to_plover(s) == s,
{
    if s.len() == 0 {
        lemma_empty_translation();
        assert(s =~= Seq::<char>::empty());
        return;
    }
    lemma_scan_past(s, 1, seq!['{', '\\']);
    lemma_scan_past(s, 1, seq!['\\', '{', '}']);
    lemma_scan_past(s, 1, seq!['}']);
    assert(s.subrange(0, s.len() as int) =~= s);
    reveal_strlit("{#return}{#return}");
    assert(!at_nocase(s, 0, "{#return}{#return}"@)) by {
        vstd::utf8::char_u32_cast(s[0], s[0] as u32);
        vstd::utf8::char_u32_cast('{', '{' as u32);
        assert(fold(s[0]) != '{' as u32);
        assert("{#return}{#return}"@[0] == '{');
    }
    assert(plover_step(s, 0) == (Directive::RawString(s), s.len() as int));
    assert(plover_items(s, s.len() as int) =~= Seq::<Directive>::empty());
    assert(parse_plover(s) =~= seq![Directive::RawString(s)]);
    lemma_esc_plain(s);
    lemma_one_directive(Directive::RawString(s));
    assert(rtf_step(s, 0) == (Some(Directive::RawString(s)), s.len() as int));
    assert(rtf_items(s, s.len() as int) =~= Seq::<Directive>::empty());
    assert(parse_rtf(s) =~= seq![Directive::RawString(s)]);
}

/// The attach fixup changes only a translation that is one or two attach
/// tokens (`{^}`, `{~|}`, `{~|}{^}`) around a single run of text holding no
/// `{`: every other brace in a translation is left as it was.
pub proof fn lemma_fixup_locality(t: Seq<char>)
    ensures
        attach_fixup(t) != t ==> shaped(t, "{^}"@, "{^}"@) || shaped(t, ""@, "{^}"@) || shaped(
            t,
            "{^}"@,
            ""@,
        ) || shaped(t, "{~|}{^}"@, "{^}"@) || shaped(t, "{~|}"@, "{^}"@) || shaped(
            t,
            "{~|}{^}"@,
            ""@,
        ) || shaped(t, "{~|}"@, ""@),
{
}

proof fn lemma_digit(d: nat)
    requires
        d < 10,
    ensures
        is_digit(digit(d)),
        digit(d) as nat - '0' as nat == d,
{
}

proof fn lemma_decimal(n: nat)
    ensures
        decimal(n).len() > 0,
        forall|k: int| 0 <= k < decimal(n).len() ==> is_digit(#[trigger] decimal(n)[k]),
        digits_val(decimal(n)) == n,
    decreases n,
{
    if n < 10 {
        lemma_digit(n);
        assert(seq![digit(n)].drop_last() =~= Seq::<char>::empty());
        assert(digits_val(Seq::<char>::empty()) == 0);
        assert(seq![digit(n)].last() == digit(n));
        assert(digits_val(decimal(n)) == digits_val(Seq::<char>::empty()) * 10 + (digit(n) as nat
            - '0' as nat) as nat);
    } else {
        lemma_decimal(n / 10);
        lemma_digit(n % 10);
        assert(decimal(n).drop_last() =~= decimal(n / 10));
        assert(decimal(n).last() == digit(n % 10));
        assert(digits_val(decimal(n)) == digits_val(decimal(n / 10)) * 10 + (digit(n % 10) as nat
            - '0' as nat) as nat);
        assert((n / 10) * 10 + n % 10 == n);
    }
}

proof fn lemma_digit_end_at(s: Seq<char>, i: int, e: int)
    requires
        0 <= i <= e <= s.len(),
        forall|k: int| i <= k < e ==> is_digit(#[trigger] s[k]),
        e == s.len() || !is_digit(s[e]),
    ensures
        digit_end(s, i) == e,
    decreases e - i,
{
    if i < e {
        lemma_digit_end_at(s, i + 1, e);
    }
}

/// A character above code point 255 is written in RTF as `\u`, its code in
/// decimal, and a space.
pub proof fn lemma_unicode_to_rtf(c: char)
    requires
        c as u32 > 255,
    ensures
        rtf_text(parse_plover(seq![c])) == seq!['\\', 'u'] + decimal(c as u32 as nat) + seq![' '],
{
    let s = seq![c];
    assert(s.subrange(0, 1) =~= s);
    reveal_strlit("{#return}{#return}");
    assert(!at_nocase(s, 0, "{#return}{#return}"@));
    assert(plover_step(s, 0) == (Directive::RawString(s), 1int));
    assert(plover_items(s, 1) =~= Seq::<Directive>::empty());
    assert(parse_plover(s) =~= seq![Directive::RawString(s)]);
    lemma_one_directive(Directive::RawString(s));
    assert(s.drop_last() =~= Seq::<char>::empty());
    assert(esc_rtf(Seq::<char>::empty()) == Seq::<char>::empty());
    assert(s.last() == c);
    assert(esc_rtf(s) == esc_rtf(s.drop_last()) + esc_char(s.last()));
    assert(esc_rtf(s) =~= esc_char(c));
}

/// `\uN ` with `N` the decimal code of a character above 127 reads back as
/// that character.
pub proof fn lemma_unicode_from_rtf(c: char)
    requires
        c as u32 > 127,
    ensures
        rtf_to_plover(seq!['\\', 'u'] + decimal(c as u32 as nat) + seq![' ']) == seq![c],
{
    let v = c as u32;
    let d = decimal(v as nat);
    let s = seq!['\\', 'u'] + d + seq![' '];
    let e = d.len() as int + 2;
    lemma_decimal(v as nat);
    assert(s.subrange(2, e) =~= d);
    assert forall|k: int| 2 <= k < e implies is_digit(#[trigger] s[k]) by {
        assert(s[k] == d[k - 2]);
    }
    lemma_digit_end_at(s, 2, e);
    reveal_strlit("\\par\\s");
    reveal_strlit("\\cxdstroke");
    reveal_strlit("\\cxfl");
    reveal_strlit("\\cxfc");
    reveal_strlit("\\cxds");
    assert(!at(s, 0, "\\par\\s"@)) by {
        if at(s, 0, "\\par\\s"@) {
            assert(s.subrange(0, 6)[1] == "\\par\\s"@[1]);
        }
    }
    assert(!at(s, 0, "\\cxdstroke"@)) by {
        if at(s, 0, "\\cxdstroke"@) {
            assert(s.subrange(0, 10)[1] == "\\cxdstroke"@[1]);
        }
    }
    assert(!at(s, 0, "\\cxfl"@)) by {
        if at(s, 0, "\\cxfl"@) {
            assert(s.subrange(0, 5)[1] == "\\cxfl"@[1]);
        }
    }
    assert(!at(s, 0, "\\cxfc"@)) by {
        if at(s, 0, "\\cxfc"@) {
            assert(s.subrange(0, 5)[1] == "\\cxfc"@[1]);
        }
    }
    assert(!at(s, 0, "\\cxds"@)) by {
        if at(s, 0, "\\cxds"@) {
            assert(s.subrange(0, 5)[1] == "\\cxds"@[1]);
        }
    }
    vstd::utf8::char_is_scalar(c);
    vstd::utf8::char_u32_cast(c, v);
    assert(is_scalar(v as int));
    assert(char_of(v as int) == c);
    assert(past_space(s, e) == s.len());
    assert(rtf_control(s, 0) == (Some(Directive::RawString(seq![c])), s.len() as int));
    assert(rtf_step(s, 0) == rtf_control(s, 0));
    assert(rtf_items(s, s.len() as int) =~= Seq::<Directive>::empty());
    assert(parse_rtf(s) =~= seq![Directive::RawString(seq![c])]);
    lemma_one_directive(Directive::RawString(seq![c]));
}

proof fn lemma_not_at(s: Seq<char>, i: int, lit: Seq<char>, k: int)
    requires
        0 <= k < lit.len(),
        0 <= i + k < s.len(),
        s[i + k] != lit[k],
    ensures
        !at(s, i, lit),
{
    if at(s, i, lit) {
        assert(s.subrange(i, i + lit.len())[k] == lit[k]);
    }
}

proof fn lemma_not_at_nocase(s: Seq<char>, i: int, lit: Seq<char>, k: int)
    requires
        0 <= k < lit.len(),
        0 <= i + k < s.len(),
        fold(s[i + k]) != lit[k] as u32,
    ensures
        !at_nocase(s, i, lit),
{
}

proof fn lemma_scan_to(s: Seq<char>, i: int, stops: Seq<char>, e: int)
    requires
        0 <= i <= e < s.len(),
        forall|k: int| i <= k < e ==> !stops.contains(#[trigger] s[k]),
        stops.contains(s[e]),
    ensures
        scan(s, i, stops) == e,
    decreases e - i,
{
    if i < e {
        lemma_scan_to(s, i + 1, stops, e);
    }
}

proof fn lemma_lacks(x: Seq<char>, c: char)
    requires
        forall|k: int| 0 <= k < x.len() ==> #[trigger] x[k] != c,
    ensures
        lacks(x, c),
{
    assert forall|k: int| 0 <= k < x.len() implies !seq![c].contains(#[trigger] x[k]) by {
        if seq![c].contains(x[k]) {
            let j = choose|j: int| 0 <= j < 1 && seq![c][j] == x[k];
            assert(j == 0);
        }
    }
    lemma_scan_past(x, 0, seq![c]);
}

proof fn lemma_single(c: char, d: char)
    ensures
        seq![c].contains(d) <==> c == d,
{
    if seq![c].contains(d) {
        let j = choose|j: int| 0 <= j < 1 && seq![c][j] == d;
        assert(j == 0);
    }
    if c == d {
        assert(seq![c][0] == d);
    }
}

proof fn lemma_scan_none(s: Seq<char>, i: int, stops: Seq<char>)
    requires
        0 <= i <= s.len(),
        scan(s, i, stops) == s.len(),
    ensures
        forall|k: int| i <= k < s.len() ==> !stops.contains(#[trigger] s[k]),
    decreases s.len() - i,
{
    if i < s.len() {
        lemma_scan_none(s, i + 1, stops);
    }
}

proof fn lemma_no_char(x: Seq<char>, c: char)
    requires
        lacks(x, c),
    ensures
        forall|k: int| 0 <= k < x.len() ==> #[trigger] x[k] != c,
{
    lemma_scan_none(x, 0, seq![c]);
    assert forall|k: int| 0 <= k < x.len() implies #[trigger] x[k] != c by {
        lemma_single(c, x[k]);
    }
}

proof fn lemma_alpha_end_at(s: Seq<char>, i: int, e: int)
    requires
        0 <= i <= e <= s.len(),
        forall|k: int| i <= k < e ==> is_alpha(#[trigger] s[k]),
        e == s.len() || !is_alpha(s[e]),
    ensures
        alpha_end(s, i) == e,
    decreases e - i,
{
    if i < e {
        lemma_alpha_end_at(s, i + 1, e);
    }
}

proof fn lemma_or_nonempty(x: Seq<char>)
    ensures
        or_empty(nonempty(x)) == x,
{
    if x.len() == 0 {
        assert(x =~= Seq::<char>::empty());
    }
}

#[verifier::spinoff_prover]
proof fn lemma_currency_plover(x: Seq<char>, y: Seq<char>)
    requires
        lacks(x, '}'),
        lacks(y, '}'),
        lacks(x, 'c'),
        lacks(y, ')'),
    ensures
        parse_plover("{*("@ + x + "c"@ + y + ")}"@) == seq![
            Directive::Currency(nonempty(x), nonempty(y)),
        ],
{
    reveal_strlit("{*(");
    reveal_strlit("c");
    reveal_strlit(")}");
    reveal_strlit("*(");
    reveal_strlit("#");
    reveal_strlit("{#return}{#return}");
    reveal_strlit("plover:");
    reveal_strlit("mode:");
    let nx = x.len() as int;
    let ny = y.len() as int;
    let d = Directive::Currency(nonempty(x), nonempty(y));
    lemma_no_char(x, '}');
    lemma_no_char(y, '}');
    lemma_no_char(x, 'c');
    lemma_no_char(y, ')');
    // The Plover side: one braced currency directive.
    let s1 = "{*("@ + x + "c"@ + y + ")}"@;
    let n1 = nx + ny + 6;
    assert(s1 =~= seq!['{', '*', '('] + x + seq!['c'] + y + seq![')', '}']);
    assert forall|k: int| 1 <= k < n1 - 1 implies !seq!['}'].contains(#[trigger] s1[k]) by {
        lemma_single('}', s1[k]);
        if 3 <= k < 3 + nx {
            assert(s1[k] == x[k - 3]);
        } else if 4 + nx <= k < 4 + nx + ny {
            assert(s1[k] == y[k - 4 - nx]);
        }
    }
    lemma_single('}', s1[n1 - 1]);
    lemma_scan_to(s1, 1, seq!['}'], n1 - 1);
    lemma_not_at_nocase(s1, 0, "{#return}{#return}"@, 1);
    let b = s1.subrange(1, n1 - 1);
    assert(b =~= seq!['*', '('] + x + seq!['c'] + y + seq![')']);
    assert(b[0] == '*');
    lemma_not_at_nocase(b, 0, "plover:"@, 0);
    lemma_not_at_nocase(b, 0, "mode:"@, 0);
    assert(b.subrange(0, 2) =~= "*("@);
    let inner = b.skip(2);
    assert(inner =~= x + seq!['c'] + y + seq![')']);
    assert forall|k: int| 0 <= k < nx implies !seq!['c'].contains(#[trigger] inner[k]) by {
        lemma_single('c', inner[k]);
        assert(inner[k] == x[k]);
    }
    lemma_single('c', inner[nx]);
    lemma_scan_to(inner, 0, seq!['c'], nx);
    assert(inner.take(nx) =~= x);
    let post = inner.skip(nx + 1);
    assert(post =~= y + seq![')']);
    assert(post.drop_last() =~= y);
    assert(crate::plover::currency_block(b) == Some(d));
    assert(!is_blank(b));
    assert(crate::plover::braced(b) == d);
    assert(plover_step(s1, 0) == (d, n1));
    assert(plover_items(s1, n1) =~= Seq::<Directive>::empty());
    assert(parse_plover(s1) =~= seq![d]);
}

#[verifier::spinoff_prover]
proof fn lemma_currency_rtf(x: Seq<char>, y: Seq<char>)
    requires
        lacks(x, '}'),
        lacks(y, '}'),
        lacks(x, 'c'),
        lacks(y, ')'),
    ensures
        parse_rtf("{\\*\\cxplvrcurr "@ + x + "c"@ + y + "}"@) == seq![
            Directive::Currency(nonempty(x), nonempty(y)),
        ],
{
    reveal_strlit("{*(");
    reveal_strlit("c");
    reveal_strlit(")}");
    let nx = x.len() as int;
    let ny = y.len() as int;
    let d = Directive::Currency(nonempty(x), nonempty(y));
    lemma_no_char(x, '}');
    lemma_no_char(y, '}');
    lemma_no_char(x, 'c');
    lemma_no_char(y, ')');
    // The RTF side: one currency group.
    let s2 = "{\\*\\cxplvrcurr "@ + x + "c"@ + y + "}"@;
    let p = "{\\*\\cxplvrcurr "@;
    reveal_strlit("{\\*\\cxplvrcurr ");
    reveal_strlit("}");
    assert(s2 =~= p + x + seq!['c'] + y + seq!['}']);
    let n2 = nx + ny + 17;
    reveal_strlit("{\\*\\cxplvrcase0\\cxplvrspc0}");
    reveal_strlit("{\\*\\cxplvrcase4\\cxplvrspc}");
    reveal_strlit("{\\*\\cxplvrcase0\\cxplvrspc _}");
    reveal_strlit("{\\*\\cxplvr");
    reveal_strlit("curr");
    reveal_strlit("meta");
    reveal_strlit("mac");
    reveal_strlit("cmd");
    reveal_strlit("spc");
    reveal_strlit("key");
    lemma_not_at(s2, 0, "{\\*\\cxplvrcase0\\cxplvrspc0}"@, 11);
    lemma_not_at(s2, 0, "{\\*\\cxplvrcase4\\cxplvrspc}"@, 11);
    lemma_not_at(s2, 0, "{\\*\\cxplvrcase0\\cxplvrspc _}"@, 11);
    assert(s2.subrange(0, 10) =~= "{\\*\\cxplvr"@);
    lemma_alpha_end_at(s2, 10, 14);
    assert(crate::rtf::number_end(s2, 14) == 14);
    assert forall|k: int| 15 <= k < n2 - 1 implies !seq!['}'].contains(#[trigger] s2[k]) by {
        lemma_single('}', s2[k]);
        if 15 <= k < 15 + nx {
            assert(s2[k] == x[k - 15]);
        } else if 16 + nx <= k < 16 + nx + ny {
            assert(s2[k] == y[k - 16 - nx]);
        }
    }
    lemma_single('}', s2[n2 - 1]);
    lemma_scan_to(s2, 15, seq!['}'], n2 - 1);
    let label = s2.subrange(10, 14);
    assert(label =~= "curr"@);
    assert(label != "meta"@) by {
        assert(label[0] != "meta"@[0]);
    }
    let arg = s2.subrange(15, n2 - 1);
    assert(arg =~= x + seq!['c'] + y);
    assert forall|k: int| 0 <= k < nx implies !seq!['c'].contains(#[trigger] arg[k]) by {
        lemma_single('c', arg[k]);
        assert(arg[k] == x[k]);
    }
    lemma_single('c', arg[nx]);
    lemma_scan_to(arg, 0, seq!['c'], nx);
    assert(arg.take(nx) =~= x);
    assert(arg.skip(nx + 1) =~= y);
    assert(crate::rtf::arg_group(label, arg) == Some(d));
    assert(crate::rtf::cxplvr_group(s2, 0) == Some((Some(d), n2)));
    assert(rtf_step(s2, 0) == (Some(d), n2));
    assert(rtf_items(s2, n2) =~= Seq::<Directive>::empty());
    assert(parse_rtf(s2) =~= seq![d]);
}

/// A retroactive currency format `{*(XcY)}` survives the trip to RTF and
/// back unchanged, where `X` holds no `c` and `Y` no `)`, and neither holds
/// `}`.
pub proof fn lemma_currency_symmetry(x: Seq<char>, y: Seq<char>)
    requires
        lacks(x, '}'),
        lacks(y, '}'),
        lacks(x, 'c'),
        lacks(y, ')'),
    ensures
        rtf_to_plover(rtf_text(parse_plover("{*("@ + x + "c"@ + y + ")}"@))) == "{*("@ + x + "c"@
            + y + ")}"@,
{
    let d = Directive::Currency(nonempty(x), nonempty(y));
    lemma_currency_plover(x, y);
    lemma_one_directive(d);
    lemma_or_nonempty(x);
    lemma_or_nonempty(y);
    assert(rtf_text(parse_plover("{*("@ + x + "c"@ + y + ")}"@)) =~= "{\\*\\cxplvrcurr "@ + x
        + "c"@ + y + "}"@);
    lemma_currency_rtf(x, y);
    assert(plover_one(d) =~= "{*("@ + x + "c"@ + y + ")}"@);
}

/// The three long mode groups that the RTF parser matches whole.
pub open spec fn long_groups_absent(s: Seq<char>) -> bool {
    !at(s, 0, "{\\*\\cxplvrcase0\\cxplvrspc0}"@) && !at(s, 0, "{\\*\\cxplvrcase4\\cxplvrspc}"@)
        && !at(s, 0, "{\\*\\cxplvrcase0\\cxplvrspc _}"@)
}

#[verifier::spinoff_prover]
proof fn lemma_rtf_noarg(s: Seq<char>, lab: Seq<char>, num: Seq<char>)
    requires
        s == "{\\*\\cxplvr"@ + lab + num + "}"@,
        lab.len() > 0,
        forall|k: int| 0 <= k < lab.len() ==> is_alpha(#[trigger] lab[k]),
        forall|k: int| 0 <= k < num.len() ==> is_digit(#[trigger] num[k]),
        long_groups_absent(s),
    ensures
        parse_rtf(s) == match no_arg_group(lab, digits_val(num) as int) {
            Some(d) => seq![d],
            None => Seq::<Directive>::empty(),
        },
{
    reveal_strlit("{\\*\\cxplvr");
    reveal_strlit("}");
    let nl = lab.len() as int;
    let nn = num.len() as int;
    let n = 11 + nl + nn;
    assert(s =~= seq!['{', '\\', '*', '\\', 'c', 'x', 'p', 'l', 'v', 'r'] + lab + num + seq!['}']);
    assert(s.subrange(0, 10) =~= "{\\*\\cxplvr"@);
    assert forall|k: int| 10 <= k < 10 + nl implies is_alpha(#[trigger] s[k]) by {
        assert(s[k] == lab[k - 10]);
    }
    if nn > 0 {
        assert(s[10 + nl] == num[0]);
    }
    lemma_alpha_end_at(s, 10, 10 + nl);
    assert forall|k: int| 10 + nl <= k < 10 + nl + nn implies is_digit(#[trigger] s[k]) by {
        assert(s[k] == num[k - 10 - nl]);
    }
    lemma_digit_end_at(s, 10 + nl, 10 + nl + nn);
    assert(crate::rtf::number_end(s, 10 + nl) == 10 + nl + nn);
    assert(s.subrange(10, 10 + nl) =~= lab);
    assert(s.subrange(10 + nl, 10 + nl + nn) =~= num);
    if nn == 0 {
        assert(num =~= Seq::<char>::empty());
    }
    assert(crate::rtf::num_val(s, 10 + nl, 10 + nl + nn) == digits_val(num) as int);
    assert(crate::rtf::cxplvr_group(s, 0) == Some(
        (no_arg_group(lab, digits_val(num) as int), n),
    ));
    assert(rtf_items(s, n) =~= Seq::<Directive>::empty());
    match no_arg_group(lab, digits_val(num) as int) {
        Some(d) => {
            assert(parse_rtf(s) =~= seq![d]);
        },
        None => {
            assert(parse_rtf(s) =~= Seq::<Directive>::empty());
        },
    }
}

#[verifier::spinoff_prover]
proof fn lemma_rtf_nop()
    ensures
        parse_rtf(rtf_one(Directive::Noop)) == seq![Directive::Noop],
{
    reveal_strlit("{\\*\\cxplvrnop}");
    reveal_strlit("{\\*\\cxplvr");
    reveal_strlit("}");
    reveal_strlit("{\\*\\cxplvrcase0\\cxplvrspc0}");
    reveal_strlit("{\\*\\cxplvrcase4\\cxplvrspc}");
    reveal_strlit("{\\*\\cxplvrcase0\\cxplvrspc _}");
    reveal_strlit("nop");
    reveal_strlit("cancel");
    reveal_strlit("ast");
    reveal_strlit("rpt");
    reveal_strlit("rtisp");
    reveal_strlit("rtdsp");
    reveal_strlit("case");
    reveal_strlit("ccap");
    reveal_strlit("rtfc");
    reveal_strlit("rtfl");
    reveal_strlit("fcw");
    reveal_strlit("rtfcw");
    reveal_strlit("spc");
    reveal_strlit("ortho");
    let s = rtf_one(Directive::Noop);
    assert(s =~= "{\\*\\cxplvr"@ + seq!['n', 'o', 'p'] + Seq::<char>::empty() + "}"@);
    lemma_not_at(s, 0, "{\\*\\cxplvrcase0\\cxplvrspc0}"@, 10);
    lemma_not_at(s, 0, "{\\*\\cxplvrcase4\\cxplvrspc}"@, 10);
    lemma_not_at(s, 0, "{\\*\\cxplvrcase0\\cxplvrspc _}"@, 10);
    lemma_rtf_noarg(s, seq!['n', 'o', 'p'], Seq::<char>::empty());
    assert(seq!['n', 'o', 'p'] =~= "nop"@);
}

#[verifier::spinoff_prover]
proof fn lemma_rtf_cancel()
    ensures
        parse_rtf(rtf_one(Directive::Cancel)) == seq![Directive::Cancel],
{
    reveal_strlit("{\\*\\cxplvrcancel}");
    reveal_strlit("{\\*\\cxplvr");
    reveal_strlit("}");
    reveal_strlit("{\\*\\cxplvrcase0\\cxplvrspc0}");
    reveal_strlit("{\\*\\cxplvrcase4\\cxplvrspc}");
    reveal_strlit("{\\*\\cxplvrcase0\\cxplvrspc _}");
    reveal_strlit("cancel");
    reveal_strlit("nop");
    reveal_strlit("ast");
    reveal_strlit("rpt");
    reveal_strlit("rtisp");
    reveal_strlit("rtdsp");
    reveal_strlit("case");
    reveal_strlit("ccap");
    reveal_strlit("rtfc");
    reveal_strlit("rtfl");
    reveal_strlit("fcw");
    reveal_strlit("rtfcw");
    reveal_strlit("spc");
    reveal_strlit("ortho");
    let s = rtf_one(Directive::Cancel);
    assert(s =~= "{\\*\\cxplvr"@ + seq!['c', 'a', 'n', 'c', 'e', 'l'] + Seq::<char>::empty() + "}"@);
    lemma_not_at(s, 0, "{\\*\\cxplvrcase0\\cxplvrspc0}"@, 12);
    lemma_not_at(s, 0, "{\\*\\cxplvrcase4\\cxplvrspc}"@, 12);
    lemma_not_at(s, 0, "{\\*\\cxplvrcase0\\cxplvrspc _}"@, 12);
    lemma_rtf_noarg(s, seq!['c', 'a', 'n', 'c', 'e', 'l'], Seq::<char>::empty());
    assert(seq!['c', 'a', 'n', 'c', 'e', 'l'] =~= "cancel"@);
}

#[verifier::spinoff_prover]
proof fn lemma_rtf_ast()
    ensures
        parse_rtf(rtf_one(Directive::RetroToggleStar)) == seq![Directive::RetroToggleStar],
{
    reveal_strlit("{\\*\\cxplvrast}");
    reveal_strlit("{\\*\\cxplvr");
    reveal_strlit("}");
    reveal_strlit("{\\*\\cxplvrcase0\\cxplvrspc0}");
    reveal_strlit("{\\*\\cxplvrcase4\\cxplvrspc}");
    reveal_strlit("{\\*\\cxplvrcase0\\cxplvrspc _}");
    reveal_strlit("ast");
    reveal_strlit("nop");
    reveal_strlit("cancel");
    reveal_strlit("rpt");
    reveal_strlit("rtisp");
    reveal_strlit("rtdsp");
    reveal_strlit("case");
    reveal_strlit("ccap");
    reveal_strlit("rtfc");
    reveal_strlit("rtfl");
    reveal_strlit("fcw");
    reveal_strlit("rtfcw");
    reveal_strlit("spc");
    reveal_strlit("ortho");
    assert(seq!['a', 's', 't'] != "nop"@) by {
        assert(seq!['a', 's', 't'][0] != "nop"@[0]);
    }
    let s = rtf_one(Directive::RetroToggleStar);
    assert(s =~= "{\\*\\cxplvr"@ + seq!['a', 's', 't'] + Seq::<char>::empty() + "}"@);
    lemma_not_at(s, 0, "{\\*\\cxplvrcase0\\cxplvrspc0}"@, 10);
    lemma_not_at(s, 0, "{\\*\\cxplvrcase4\\cxplvrspc}"@, 10);
    lemma_not_at(s, 0, "{\\*\\cxplvrcase0\\cxplvrspc _}"@, 10);
    lemma_rtf_noarg(s, seq!['a', 's', 't'], Seq::<char>::empty());
    assert(seq!['a', 's', 't'] =~= "ast"@);
}

#[verifier::spinoff_prover]
proof fn lemma_rtf_rpt()
    ensures
        parse_rtf(rtf_one(Directive::RepeatLastStroke)) == seq![Directive::RepeatLastStroke],
{
    reveal_strlit("{\\*\\cxplvrrpt}");
    reveal_strlit("{\\*\\cxplvr");
    reveal_strlit("}");
    reveal_strlit("{\\*\\cxplvrcase0\\cxplvrspc0}");
    reveal_strlit("{\\*\\cxplvrcase4\\cxplvrspc}");
    reveal_strlit("{\\*\\cxplvrcase0\\cxplvrspc _}");
    reveal_strlit("rpt");
    reveal_strlit("nop");
    reveal_strlit("cancel");
    reveal_strlit("ast");
    reveal_strlit("rtisp");
    reveal_strlit("rtdsp");
    reveal_strlit("case");
    reveal_strlit("ccap");
    reveal_strlit("rtfc");
    reveal_strlit("rtfl");
    reveal_strlit("fcw");
    reveal_strlit("rtfcw");
    reveal_strlit("spc");
    reveal_strlit("ortho");
    assert(seq!['r', 'p', 't'] != "nop"@) by {
        assert(seq!['r', 'p', 't'][0] != "nop"@[0]);
    }
    assert(seq!['r', 'p', 't'] != "ast"@) by {
        assert(seq!['r', 'p', 't'][0] != "ast"@[0]);
    }
    let s = rtf_one(Directive::RepeatLastStroke);
    assert(s =~= "{\\*\\cxplvr"@ + seq!['r', 'p', 't'] + Seq::<char>::empty() + "}"@);
    lemma_not_at(s, 0, "{\\*\\cxplvrcase0\\cxplvrspc0}"@, 10);
    lemma_not_at(s, 0, "{\\*\\cxplvrcase4\\cxplvrspc}"@, 10);
    lemma_not_at(s, 0, "{\\*\\cxplvrcase0\\cxplvrspc _}"@, 10);
    lemma_rtf_noarg(s, seq!['r', 'p', 't'], Seq::<char>::empty());
    assert(seq!['r', 'p', 't'] =~= "rpt"@);
}

#[verifier::spinoff_prover]
proof fn lemma_rtf_rtisp()
    ensures
        parse_rtf(rtf_one(Directive::RetroInsertSpace)) == seq![Directive::RetroInsertSpace],
{
    reveal_strlit("{\\*\\cxplvrrtisp}");
    reveal_strlit("{\\*\\cxplvr");
    reveal_strlit("}");
    reveal_strlit("{\\*\\cxplvrcase0\\cxplvrspc0}");
    reveal_strlit("{\\*\\cxplvrcase4\\cxplvrspc}");
    reveal_strlit("{\\*\\cxplvrcase0\\cxplvrspc _}");
    reveal_strlit("rtisp");
    reveal_strlit("nop");
    reveal_strlit("cancel");
    reveal_strlit("ast");
    reveal_strlit("rpt");
    reveal_strlit("rtdsp");
    reveal_strlit("case");
    reveal_strlit("ccap");
    reveal_strlit("rtfc");
    reveal_strlit("rtfl");
    reveal_strlit("fcw");
    reveal_strlit("rtfcw");
    reveal_strlit("spc");
    reveal_strlit("ortho");
    let s = rtf_one(Directive::RetroInsertSpace);
    assert(s =~= "{\\*\\cxplvr"@ + seq!['r', 't', 'i', 's', 'p'] + Seq::<char>::empty() + "}"@);
    lemma_not_at(s, 0, "{\\*\\cxplvrcase0\\cxplvrspc0}"@, 10);
    lemma_not_at(s, 0, "{\\*\\cxplvrcase4\\cxplvrspc}"@, 10);
    lemma_not_at(s, 0, "{\\*\\cxplvrcase0\\cxplvrspc _}"@, 10);
    lemma_rtf_noarg(s, seq!['r', 't', 'i', 's', 'p'], Seq::<char>::empty());
    assert(seq!['r', 't', 'i', 's', 'p'] =~= "rtisp"@);
}

#[verifier::spinoff_prover]
proof fn lemma_rtf_rtdsp()
    ensures
        parse_rtf(rtf_one(Directive::RetroDeleteSpace)) == seq![Directive::RetroDeleteSpace],
{
    reveal_strlit("{\\*\\cxplvrrtdsp}");
    reveal_strlit("{\\*\\cxplvr");
    reveal_strlit("}");
    reveal_strlit("{\\*\\cxplvrcase0\\cxplvrspc0}");
    reveal_strlit("{\\*\\cxplvrcase4\\cxplvrspc}");
    reveal_strlit("{\\*\\cxplvrcase0\\cxplvrspc _}");
    reveal_strlit("rtdsp");
    reveal_strlit("nop");
    reveal_strlit("cancel");
    reveal_strlit("ast");
    reveal_strlit("rpt");
    reveal_strlit("rtisp");
    reveal_strlit("case");
    reveal_strlit("ccap");
    reveal_strlit("rtfc");
    reveal_strlit("rtfl");
    reveal_strlit("fcw");
    reveal_strlit("rtfcw");
    reveal_strlit("spc");
    reveal_strlit("ortho");
    assert(seq!['r', 't', 'd', 's', 'p'] != "rtisp"@) by {
        assert(seq!['r', 't', 'd', 's', 'p'][2] != "rtisp"@[2]);
    }
    let s = rtf_one(Directive::RetroDeleteSpace);
    assert(s =~= "{\\*\\cxplvr"@ + seq!['r', 't', 'd', 's', 'p'] + Seq::<char>::empty() + "}"@);
    lemma_not_at(s, 0, "{\\*\\cxplvrcase0\\cxplvrspc0}"@, 10);
    lemma_not_at(s, 0, "{\\*\\cxplvrcase4\\cxplvrspc}"@, 10);
    lemma_not_at(s, 0, "{\\*\\cxplvrcase0\\cxplvrspc _}"@, 10);
    lemma_rtf_noarg(s, seq!['r', 't', 'd', 's', 'p'], Seq::<char>::empty());
    assert(seq!['r', 't', 'd', 's', 'p'] =~= "rtdsp"@);
}

#[verifier::spinoff_prover]
proof fn lemma_rtf_rtfc()
    ensures
        parse_rtf(rtf_one(Directive::RetroForceCapitalize)) == seq![Directive::RetroForceCapitalize],
{
    reveal_strlit("{\\*\\cxplvrrtfc}");
    reveal_strlit("{\\*\\cxplvr");
    reveal_strlit("}");
    reveal_strlit("{\\*\\cxplvrcase0\\cxplvrspc0}");
    reveal_strlit("{\\*\\cxplvrcase4\\cxplvrspc}");
    reveal_strlit("{\\*\\cxplvrcase0\\cxplvrspc _}");
    reveal_strlit("rtfc");
    reveal_strlit("nop");
    reveal_strlit("cancel");
    reveal_strlit("ast");
    reveal_strlit("rpt");
    reveal_strlit("rtisp");
    reveal_strlit("rtdsp");
    reveal_strlit("case");
    reveal_strlit("ccap");
    reveal_strlit("rtfl");
    reveal_strlit("fcw");
    reveal_strlit("rtfcw");
    reveal_strlit("spc");
    reveal_strlit("ortho");
    assert(seq!['r', 't', 'f', 'c'] != "case"@) by {
        assert(seq!['r', 't', 'f', 'c'][0] != "case"@[0]);
    }
    assert(seq!['r', 't', 'f', 'c'] != "ccap"@) by {
        assert(seq!['r', 't', 'f', 'c'][0] != "ccap"@[0]);
    }
    let s = rtf_one(Directive::RetroForceCapitalize);
    assert(s =~= "{\\*\\cxplvr"@ + seq!['r', 't', 'f', 'c'] + Seq::<char>::empty() + "}"@);
    lemma_not_at(s, 0, "{\\*\\cxplvrcase0\\cxplvrspc0}"@, 10);
    lemma_not_at(s, 0, "{\\*\\cxplvrcase4\\cxplvrspc}"@, 10);
    lemma_not_at(s, 0, "{\\*\\cxplvrcase0\\cxplvrspc _}"@, 10);
    lemma_rtf_noarg(s, seq!['r', 't', 'f', 'c'], Seq::<char>::empty());
    assert(seq!['r', 't', 'f', 'c'] =~= "rtfc"@);
}

#[verifier::spinoff_prover]
proof fn lemma_rtf_rtfl()
    ensures
        parse_rtf(rtf_one(Directive::RetroForceLowercase)) == seq![Directive::RetroForceLowercase],
{
    reveal_strlit("{\\*\\cxplvrrtfl}");
    reveal_strlit("{\\*\\cxplvr");
    reveal_strlit("}");
    reveal_strlit("{\\*\\cxplvrcase0\\cxplvrspc0}");
    reveal_strlit("{\\*\\cxplvrcase4\\cxplvrspc}");
    reveal_strlit("{\\*\\cxplvrcase0\\cxplvrspc _}");
    reveal_strlit("rtfl");
    reveal_strlit("nop");
    reveal_strlit("cancel");
    reveal_strlit("ast");
    reveal_strlit("rpt");
    reveal_strlit("rtisp");
    reveal_strlit("rtdsp");
    reveal_strlit("case");
    reveal_strlit("ccap");
    reveal_strlit("rtfc");
    reveal_strlit("fcw");
    reveal_strlit("rtfcw");
    reveal_strlit("spc");
    reveal_strlit("ortho");
    assert(seq!['r', 't', 'f', 'l'] != "case"@) by {
        assert(seq!['r', 't', 'f', 'l'][0] != "case"@[0]);
    }
    assert(seq!['r', 't', 'f', 'l'] != "ccap"@) by {
        assert(seq!['r', 't', 'f', 'l'][0] != "ccap"@[0]);
    }
    assert(seq!['r', 't', 'f', 'l'] != "rtfc"@) by {
        assert(seq!['r', 't', 'f', 'l'][3] != "rtfc"@[3]);
    }
    let s = rtf_one(Directive::RetroForceLowercase);
    assert(s =~= "{\\*\\cxplvr"@ + seq!['r', 't', 'f', 'l'] + Seq::<char>::empty() + "}"@);
    lemma_not_at(s, 0, "{\\*\\cxplvrcase0\\cxplvrspc0}"@, 10);
    lemma_not_at(s, 0, "{\\*\\cxplvrcase4\\cxplvrspc}"@, 10);
    lemma_not_at(s, 0, "{\\*\\cxplvrcase0\\cxplvrspc _}"@, 10);
    lemma_rtf_noarg(s, seq!['r', 't', 'f', 'l'], Seq::<char>::empty());
    assert(seq!['r', 't', 'f', 'l'] =~= "rtfl"@);
}

#[verifier::spinoff_prover]
proof fn lemma_rtf_fcw()
    ensures
        parse_rtf(rtf_one(Directive::ForceCapitalizeWord)) == seq![Directive::ForceCapitalizeWord],
{
    reveal_strlit("{\\*\\cxplvrfcw}");
    reveal_strlit("{\\*\\cxplvr");
    reveal_strlit("}");
    reveal_strlit("{\\*\\cxplvrcase0\\cxplvrspc0}");
    reveal_strlit("{\\*\\cxplvrcase4\\cxplvrspc}");
    reveal_strlit("{\\*\\cxplvrcase0\\cxplvrspc _}");
    reveal_strlit("fcw");
    reveal_strlit("nop");
    reveal_strlit("cancel");
    reveal_strlit("ast");
    reveal_strlit("rpt");
    reveal_strlit("rtisp");
    reveal_strlit("rtdsp");
    reveal_strlit("case");
    reveal_strlit("ccap");
    reveal_strlit("rtfc");
    reveal_strlit("rtfl");
    reveal_strlit("rtfcw");
    reveal_strlit("spc");
    reveal_strlit("ortho");
    assert(seq!['f', 'c', 'w'] != "nop"@) by {
        assert(seq!['f', 'c', 'w'][0] != "nop"@[0]);
    }
    assert(seq!['f', 'c', 'w'] != "ast"@) by {
        assert(seq!['f', 'c', 'w'][0] != "ast"@[0]);
    }
    assert(seq!['f', 'c', 'w'] != "rpt"@) by {
        assert(seq!['f', 'c', 'w'][0] != "rpt"@[0]);
    }
    let s = rtf_one(Directive::ForceCapitalizeWord);
    assert(s =~= "{\\*\\cxplvr"@ + seq!['f', 'c', 'w'] + Seq::<char>::empty() + "}"@);
    lemma_not_at(s, 0, "{\\*\\cxplvrcase0\\cxplvrspc0}"@, 10);
    lemma_not_at(s, 0, "{\\*\\cxplvrcase4\\cxplvrspc}"@, 10);
    lemma_not_at(s, 0, "{\\*\\cxplvrcase0\\cxplvrspc _}"@, 10);
    lemma_rtf_noarg(s, seq!['f', 'c', 'w'], Seq::<char>::empty());
    assert(seq!['f', 'c', 'w'] =~= "fcw"@);
}

#[verifier::spinoff_prover]
proof fn lemma_rtf_rtfcw()
    ensures
        parse_rtf(rtf_one(Directive::RetroForceCapitalizeWord)) == seq![Directive::RetroForceCapitalizeWord],
{
    reveal_strlit("{\\*\\cxplvrrtfcw}");
    reveal_strlit("{\\*\\cxplvr");
    reveal_strlit("}");
    reveal_strlit("{\\*\\cxplvrcase0\\cxplvrspc0}");
    reveal_strlit("{\\*\\cxplvrcase4\\cxplvrspc}");
    reveal_strlit("{\\*\\cxplvrcase0\\cxplvrspc _}");
    reveal_strlit("rtfcw");
    reveal_strlit("nop");
    reveal_strlit("cancel");
    reveal_strlit("ast");
    reveal_strlit("rpt");
    reveal_strlit("rtisp");
    reveal_strlit("rtdsp");
    reveal_strlit("case");
    reveal_strlit("ccap");
    reveal_strlit("rtfc");
    reveal_strlit("rtfl");
    reveal_strlit("fcw");
    reveal_strlit("spc");
    reveal_strlit("ortho");
    assert(seq!['r', 't', 'f', 'c', 'w'] != "rtisp"@) by {
        assert(seq!['r', 't', 'f', 'c', 'w'][2] != "rtisp"@[2]);
    }
    assert(seq!['r', 't', 'f', 'c', 'w'] != "rtdsp"@) by {
        assert(seq!['r', 't', 'f', 'c', 'w'][2] != "rtdsp"@[2]);
    }
    let s = rtf_one(Directive::RetroForceCapitalizeWord);
    assert(s =~= "{\\*\\cxplvr"@ + seq!['r', 't', 'f', 'c', 'w'] + Seq::<char>::empty() + "}"@);
    lemma_not_at(s, 0, "{\\*\\cxplvrcase0\\cxplvrspc0}"@, 10);
    lemma_not_at(s, 0, "{\\*\\cxplvrcase4\\cxplvrspc}"@, 10);
    lemma_not_at(s, 0, "{\\*\\cxplvrcase0\\cxplvrspc _}"@, 10);
    lemma_rtf_noarg(s, seq!['r', 't', 'f', 'c', 'w'], Seq::<char>::empty());
    assert(seq!['r', 't', 'f', 'c', 'w'] =~= "rtfcw"@);
}

#[verifier::spinoff_prover]
proof fn lemma_rtf_spc0()
    ensures
        parse_rtf(rtf_one(Directive::SpaceMode(None))) == seq![Directive::SpaceMode(None)],
{
    reveal_strlit("{\\*\\cxplvrspc0}");
    reveal_strlit("{\\*\\cxplvr");
    reveal_strlit("}");
    reveal_strlit("{\\*\\cxplvrcase0\\cxplvrspc0}");
    reveal_strlit("{\\*\\cxplvrcase4\\cxplvrspc}");
    reveal_strlit("{\\*\\cxplvrcase0\\cxplvrspc _}");
    reveal_strlit("spc");
    reveal_strlit("nop");
    reveal_strlit("cancel");
    reveal_strlit("ast");
    reveal_strlit("rpt");
    reveal_strlit("rtisp");
    reveal_strlit("rtdsp");
    reveal_strlit("case");
    reveal_strlit("ccap");
    reveal_strlit("rtfc");
    reveal_strlit("rtfl");
    reveal_strlit("fcw");
    reveal_strlit("rtfcw");
    reveal_strlit("ortho");
    assert(seq!['s', 'p', 'c'] != "nop"@) by {
        assert(seq!['s', 'p', 'c'][0] != "nop"@[0]);
    }
    assert(seq!['s', 'p', 'c'] != "ast"@) by {
        assert(seq!['s', 'p', 'c'][0] != "ast"@[0]);
    }
    assert(seq!['s', 'p', 'c'] != "rpt"@) by {
        assert(seq!['s', 'p', 'c'][0] != "rpt"@[0]);
    }
    assert(seq!['s', 'p', 'c'] != "fcw"@) by {
        assert(seq!['s', 'p', 'c'][0] != "fcw"@[0]);
    }
    let s = rtf_one(Directive::SpaceMode(None));
    assert(s =~= "{\\*\\cxplvr"@ + seq!['s', 'p', 'c'] + seq!['0'] + "}"@);
    lemma_not_at(s, 0, "{\\*\\cxplvrcase0\\cxplvrspc0}"@, 10);
    lemma_not_at(s, 0, "{\\*\\cxplvrcase4\\cxplvrspc}"@, 10);
    lemma_not_at(s, 0, "{\\*\\cxplvrcase0\\cxplvrspc _}"@, 10);
    lemma_rtf_noarg(s, seq!['s', 'p', 'c'], seq!['0']);
    assert(seq!['s', 'p', 'c'] =~= "spc"@);
    assert(digits_val(seq!['0']) == 0) by {
        assert(seq!['0'].drop_last() =~= Seq::<char>::empty());
        assert(seq!['0'].last() == '0');
        assert(digits_val(Seq::<char>::empty()) == 0);
    }
}

#[verifier::spinoff_prover]
proof fn lemma_rtf_case0()
    ensures
        parse_rtf(rtf_one(Directive::CaseMode(Case::Sentence))) == seq![Directive::CaseMode(Case::Sentence)],
{
    reveal_strlit("{\\*\\cxplvrcase0}");
    reveal_strlit("{\\*\\cxplvr");
    reveal_strlit("}");
    reveal_strlit("{\\*\\cxplvrcase0\\cxplvrspc0}");
    reveal_strlit("{\\*\\cxplvrcase4\\cxplvrspc}");
    reveal_strlit("{\\*\\cxplvrcase0\\cxplvrspc _}");
    reveal_strlit("case");
    reveal_strlit("nop");
    reveal_strlit("cancel");
    reveal_strlit("ast");
    reveal_strlit("rpt");
    reveal_strlit("rtisp");
    reveal_strlit("rtdsp");
    reveal_strlit("ccap");
    reveal_strlit("rtfc");
    reveal_strlit("rtfl");
    reveal_strlit("fcw");
    reveal_strlit("rtfcw");
    reveal_strlit("spc");
    reveal_strlit("ortho");
    let s = rtf_one(Directive::CaseMode(Case::Sentence));
    assert(s =~= "{\\*\\cxplvr"@ + seq!['c', 'a', 's', 'e'] + seq!['0'] + "}"@);
    lemma_not_at(s, 0, "{\\*\\cxplvrcase0\\cxplvrspc0}"@, 15);
    lemma_not_at(s, 0, "{\\*\\cxplvrcase4\\cxplvrspc}"@, 14);
    lemma_not_at(s, 0, "{\\*\\cxplvrcase0\\cxplvrspc _}"@, 15);
    lemma_rtf_noarg(s, seq!['c', 'a', 's', 'e'], seq!['0']);
    assert(seq!['c', 'a', 's', 'e'] =~= "case"@);
    assert(digits_val(seq!['0']) == 0) by {
        assert(seq!['0'].drop_last() =~= Seq::<char>::empty());
        assert(seq!['0'].last() == '0');
        assert(digits_val(Seq::<char>::empty()) == 0);
    }
}

#[verifier::spinoff_prover]
proof fn lemma_rtf_case1()
    ensures
        parse_rtf(rtf_one(Directive::CaseMode(Case::Lower))) == seq![Directive::CaseMode(Case::Lower)],
{
    reveal_strlit("{\\*\\cxplvrcase1}");
    reveal_strlit("{\\*\\cxplvr");
    reveal_strlit("}");
    reveal_strlit("{\\*\\cxplvrcase0\\cxplvrspc0}");
    reveal_strlit("{\\*\\cxplvrcase4\\cxplvrspc}");
    reveal_strlit("{\\*\\cxplvrcase0\\cxplvrspc _}");
    reveal_strlit("case");
    reveal_strlit("nop");
    reveal_strlit("cancel");
    reveal_strlit("ast");
    reveal_strlit("rpt");
    reveal_strlit("rtisp");
    reveal_strlit("rtdsp");
    reveal_strlit("ccap");
    reveal_strlit("rtfc");
    reveal_strlit("rtfl");
    reveal_strlit("fcw");
    reveal_strlit("rtfcw");
    reveal_strlit("spc");
    reveal_strlit("ortho");
    let s = rtf_one(Directive::CaseMode(Case::Lower));
    assert(s =~= "{\\*\\cxplvr"@ + seq!['c', 'a', 's', 'e'] + seq!['1'] + "}"@);
    lemma_not_at(s, 0, "{\\*\\cxplvrcase0\\cxplvrspc0}"@, 14);
    lemma_not_at(s, 0, "{\\*\\cxplvrcase4\\cxplvrspc}"@, 14);
    lemma_not_at(s, 0, "{\\*\\cxplvrcase0\\cxplvrspc _}"@, 14);
    lemma_rtf_noarg(s, seq!['c', 'a', 's', 'e'], seq!['1']);
    assert(seq!['c', 'a', 's', 'e'] =~= "case"@);
    assert(digits_val(seq!['1']) == 1) by {
        assert(seq!['1'].drop_last() =~= Seq::<char>::empty());
        assert(seq!['1'].last() == '1');
        assert(digits_val(Seq::<char>::empty()) == 0);
    }
}

#[verifier::spinoff_prover]
proof fn lemma_rtf_case2()
    ensures
        parse_rtf(rtf_one(Directive::CaseMode(Case::Upper))) == seq![Directive::CaseMode(Case::Upper)],
{
    reveal_strlit("{\\*\\cxplvrcase2}");
    reveal_strlit("{\\*\\cxplvr");
    reveal_strlit("}");
    reveal_strlit("{\\*\\cxplvrcase0\\cxplvrspc0}");
    reveal_strlit("{\\*\\cxplvrcase4\\cxplvrspc}");
    reveal_strlit("{\\*\\cxplvrcase0\\cxplvrspc _}");
    reveal_strlit("case");
    reveal_strlit("nop");
    reveal_strlit("cancel");
    reveal_strlit("ast");
    reveal_strlit("rpt");
    reveal_strlit("rtisp");
    reveal_strlit("rtdsp");
    reveal_strlit("ccap");
    reveal_strlit("rtfc");
    reveal_strlit("rtfl");
    reveal_strlit("fcw");
    reveal_strlit("rtfcw");
    reveal_strlit("spc");
    reveal_strlit("ortho");
    let s = rtf_one(Directive::CaseMode(Case::Upper));
    assert(s =~= "{\\*\\cxplvr"@ + seq!['c', 'a', 's', 'e'] + seq!['2'] + "}"@);
    lemma_not_at(s, 0, "{\\*\\cxplvrcase0\\cxplvrspc0}"@, 14);
    lemma_not_at(s, 0, "{\\*\\cxplvrcase4\\cxplvrspc}"@, 14);
    lemma_not_at(s, 0, "{\\*\\cxplvrcase0\\cxplvrspc _}"@, 14);
    lemma_rtf_noarg(s, seq!['c', 'a', 's', 'e'], seq!['2']);
    assert(seq!['c', 'a', 's', 'e'] =~= "case"@);
    assert(digits_val(seq!['2']) == 2) by {
        assert(seq!['2'].drop_last() =~= Seq::<char>::empty());
        assert(seq!['2'].last() == '2');
        assert(digits_val(Seq::<char>::empty()) == 0);
    }
}

#[verifier::spinoff_prover]
proof fn lemma_rtf_case3()
    ensures
        parse_rtf(rtf_one(Directive::CaseMode(Case::Title))) == seq![Directive::CaseMode(Case::Title)],
{
    reveal_strlit("{\\*\\cxplvrcase3}");
    reveal_strlit("{\\*\\cxplvr");
    reveal_strlit("}");
    reveal_strlit("{\\*\\cxplvrcase0\\cxplvrspc0}");
    reveal_strlit("{\\*\\cxplvrcase4\\cxplvrspc}");
    reveal_strlit("{\\*\\cxplvrcase0\\cxplvrspc _}");
    reveal_strlit("case");
    reveal_strlit("nop");
    reveal_strlit("cancel");
    reveal_strlit("ast");
    reveal_strlit("rpt");
    reveal_strlit("rtisp");
    reveal_strlit("rtdsp");
    reveal_strlit("ccap");
    reveal_strlit("rtfc");
    reveal_strlit("rtfl");
    reveal_strlit("fcw");
    reveal_strlit("rtfcw");
    reveal_strlit("spc");
    reveal_strlit("ortho");
    let s = rtf_one(Directive::CaseMode(Case::Title));
    assert(s =~= "{\\*\\cxplvr"@ + seq!['c', 'a', 's', 'e'] + seq!['3'] + "}"@);
    lemma_not_at(s, 0, "{\\*\\cxplvrcase0\\cxplvrspc0}"@, 14);
    lemma_not_at(s, 0, "{\\*\\cxplvrcase4\\cxplvrspc}"@, 14);
    lemma_not_at(s, 0, "{\\*\\cxplvrcase0\\cxplvrspc _}"@, 14);
    lemma_rtf_noarg(s, seq!['c', 'a', 's', 'e'], seq!['3']);
    assert(seq!['c', 'a', 's', 'e'] =~= "case"@);
    assert(digits_val(seq!['3']) == 3) by {
        assert(seq!['3'].drop_last() =~= Seq::<char>::empty());
        assert(seq!['3'].last() == '3');
        assert(digits_val(Seq::<char>::empty()) == 0);
    }
}

#[verifier::spinoff_prover]
proof fn lemma_rtf_reset()
    ensures
        parse_rtf(rtf_one(Directive::ResetCaseAndSpace)) == seq![Directive::ResetCaseAndSpace],
{
    reveal_strlit("{\\*\\cxplvrcase0\\cxplvrspc0}");
    reveal_strlit("{\\*\\cxplvrcase4\\cxplvrspc}");
    reveal_strlit("{\\*\\cxplvrcase0\\cxplvrspc _}");
    let s = rtf_one(Directive::ResetCaseAndSpace);
    let n = s.len() as int;
    assert(s.subrange(0, n) =~= s);
    assert(crate::rtf::rtf_group(s, 0) == (Some(Directive::ResetCaseAndSpace), n));
    assert(rtf_items(s, n) =~= Seq::<Directive>::empty());
    assert(parse_rtf(s) =~= seq![Directive::ResetCaseAndSpace]);
}

#[verifier::spinoff_prover]
proof fn lemma_rtf_camel()
    ensures
        parse_rtf(rtf_one(Directive::CaseMode(Case::Camel))) == seq![Directive::CaseMode(Case::Camel)],
{
    reveal_strlit("{\\*\\cxplvrcase0\\cxplvrspc0}");
    reveal_strlit("{\\*\\cxplvrcase4\\cxplvrspc}");
    reveal_strlit("{\\*\\cxplvrcase0\\cxplvrspc _}");
    let s = rtf_one(Directive::CaseMode(Case::Camel));
    let n = s.len() as int;
    assert(s.subrange(0, n) =~= s);
    lemma_not_at(s, 0, "{\\*\\cxplvrcase0\\cxplvrspc0}"@, 14);
    assert(crate::rtf::rtf_group(s, 0) == (Some(Directive::CaseMode(Case::Camel)), n));
    assert(rtf_items(s, n) =~= Seq::<Directive>::empty());
    assert(parse_rtf(s) =~= seq![Directive::CaseMode(Case::Camel)]);
}

#[verifier::spinoff_prover]
proof fn lemma_rtf_snake()
    ensures
        parse_rtf(rtf_one(Directive::CaseMode(Case::Snake))) == seq![Directive::CaseMode(Case::Snake)],
{
    reveal_strlit("{\\*\\cxplvrcase0\\cxplvrspc0}");
    reveal_strlit("{\\*\\cxplvrcase4\\cxplvrspc}");
    reveal_strlit("{\\*\\cxplvrcase0\\cxplvrspc _}");
    let s = rtf_one(Directive::CaseMode(Case::Snake));
    let n = s.len() as int;
    assert(s.subrange(0, n) =~= s);
    lemma_not_at(s, 0, "{\\*\\cxplvrcase0\\cxplvrspc0}"@, 25);
    lemma_not_at(s, 0, "{\\*\\cxplvrcase4\\cxplvrspc}"@, 14);
    assert(crate::rtf::rtf_group(s, 0) == (Some(Directive::CaseMode(Case::Snake)), n));
    assert(rtf_items(s, n) =~= Seq::<Directive>::empty());
    assert(parse_rtf(s) =~= seq![Directive::CaseMode(Case::Snake)]);
}

#[verifier::spinoff_prover]
proof fn lemma_rtf_dstroke()
    ensures
        parse_rtf(rtf_one(Directive::DeleteStroke)) == seq![Directive::DeleteStroke],
{
    reveal_strlit("\\cxdstroke ");
    reveal_strlit("\\par\\s");
    reveal_strlit("\\cxdstroke");
    reveal_strlit("\\cxfl");
    reveal_strlit("\\cxfc");
    reveal_strlit("\\cxds");
    let s = rtf_one(Directive::DeleteStroke);
    let n = s.len() as int;
    lemma_not_at(s, 0, "\\par\\s"@, 1);
    assert(s.subrange(0, 10) =~= "\\cxdstroke"@);
    assert(rtf_control(s, 0) == (Some(Directive::DeleteStroke), n));
    assert(rtf_items(s, n) =~= Seq::<Directive>::empty());
    assert(parse_rtf(s) =~= seq![Directive::DeleteStroke]);
}

#[verifier::spinoff_prover]
proof fn lemma_rtf_fc()
    ensures
        parse_rtf(rtf_one(Directive::ForceCapitalize)) == seq![Directive::ForceCapitalize],
{
    reveal_strlit("\\cxfc ");
    reveal_strlit("\\par\\s");
    reveal_strlit("\\cxdstroke");
    reveal_strlit("\\cxfl");
    reveal_strlit("\\cxfc");
    reveal_strlit("\\cxds");
    let s = rtf_one(Directive::ForceCapitalize);
    let n = s.len() as int;
    lemma_not_at(s, 0, "\\par\\s"@, 1);
    lemma_not_at(s, 0, "\\cxdstroke"@, 3);
    lemma_not_at(s, 0, "\\cxfl"@, 4);
    assert(s.subrange(0, 5) =~= "\\cxfc"@);
    assert(rtf_control(s, 0) == (Some(Directive::ForceCapitalize), n));
    assert(rtf_items(s, n) =~= Seq::<Directive>::empty());
    assert(parse_rtf(s) =~= seq![Directive::ForceCapitalize]);
}

#[verifier::spinoff_prover]
proof fn lemma_rtf_fl()
    ensures
        parse_rtf(rtf_one(Directive::ForceLowercase)) == seq![Directive::ForceLowercase],
{
    reveal_strlit("\\cxfl ");
    reveal_strlit("\\par\\s");
    reveal_strlit("\\cxdstroke");
    reveal_strlit("\\cxfl");
    reveal_strlit("\\cxfc");
    reveal_strlit("\\cxds");
    let s = rtf_one(Directive::ForceLowercase);
    let n = s.len() as int;
    lemma_not_at(s, 0, "\\par\\s"@, 1);
    lemma_not_at(s, 0, "\\cxdstroke"@, 3);
    assert(s.subrange(0, 5) =~= "\\cxfl"@);
    assert(rtf_control(s, 0) == (Some(Directive::ForceLowercase), n));
    assert(rtf_items(s, n) =~= Seq::<Directive>::empty());
    assert(parse_rtf(s) =~= seq![Directive::ForceLowercase]);
}

#[verifier::spinoff_prover]
proof fn lemma_rtf_ds()
    ensures
        parse_rtf(rtf_one(Directive::AttachRaw)) == seq![Directive::AttachRaw],
{
    reveal_strlit("\\cxds ");
    reveal_strlit("\\par\\s");
    reveal_strlit("\\cxdstroke");
    reveal_strlit("\\cxfl");
    reveal_strlit("\\cxfc");
    reveal_strlit("\\cxds");
    let s = rtf_one(Directive::AttachRaw);
    let n = s.len() as int;
    lemma_not_at(s, 0, "\\par\\s"@, 1);
    lemma_not_at(s, 0, "\\cxdstroke"@, 5);
    lemma_not_at(s, 0, "\\cxfl"@, 3);
    lemma_not_at(s, 0, "\\cxfc"@, 3);
    assert(s.subrange(0, 5) =~= "\\cxds"@);
    assert(rtf_control(s, 0) == (Some(Directive::AttachRaw), n));
    assert(rtf_items(s, n) =~= Seq::<Directive>::empty());
    assert(parse_rtf(s) =~= seq![Directive::AttachRaw]);
}

#[verifier::spinoff_prover]
proof fn lemma_rtf_par_default()
    ensures
        parse_rtf(rtf_one(Directive::Paragraph(ParagraphMode::Default))) == seq![Directive::Paragraph(ParagraphMode::Default)],
{
    reveal_strlit("\\par\\s0 ");
    reveal_strlit("\\par\\s");
    reveal_strlit("\\cxdstroke");
    reveal_strlit("\\cxfl");
    reveal_strlit("\\cxfc");
    reveal_strlit("\\cxds");
    let s = rtf_one(Directive::Paragraph(ParagraphMode::Default));
    let n = s.len() as int;
    assert(s.subrange(0, 6) =~= "\\par\\s"@);
    lemma_digit_end_at(s, 6, 7);
    assert(s.subrange(6, 7).drop_last() =~= Seq::<char>::empty());
    assert(digits_val(Seq::<char>::empty()) == 0);
    assert(s.subrange(6, 7).last() == s[6]);
    assert(rtf_control(s, 0) == (Some(Directive::Paragraph(ParagraphMode::Default)), n));
    assert(rtf_items(s, n) =~= Seq::<Directive>::empty());
    assert(parse_rtf(s) =~= seq![Directive::Paragraph(ParagraphMode::Default)]);
}

#[verifier::spinoff_prover]
proof fn lemma_rtf_par_contin()
    ensures
        parse_rtf(rtf_one(Directive::Paragraph(ParagraphMode::Contin))) == seq![Directive::Paragraph(ParagraphMode::Contin)],
{
    reveal_strlit("\\par\\s1 ");
    reveal_strlit("\\par\\s");
    reveal_strlit("\\cxdstroke");
    reveal_strlit("\\cxfl");
    reveal_strlit("\\cxfc");
    reveal_strlit("\\cxds");
    let s = rtf_one(Directive::Paragraph(ParagraphMode::Contin));
    let n = s.len() as int;
    assert(s.subrange(0, 6) =~= "\\par\\s"@);
    lemma_digit_end_at(s, 6, 7);
    assert(s.subrange(6, 7).drop_last() =~= Seq::<char>::empty());
    assert(digits_val(Seq::<char>::empty()) == 0);
    assert(s.subrange(6, 7).last() == s[6]);
    assert(rtf_control(s, 0) == (Some(Directive::Paragraph(ParagraphMode::Contin)), n));
    assert(rtf_items(s, n) =~= Seq::<Directive>::empty());
    assert(parse_rtf(s) =~= seq![Directive::Paragraph(ParagraphMode::Contin)]);
}

#[verifier::spinoff_prover]
proof fn lemma_rtf_hard_space()
    ensures
        parse_rtf(rtf_one(Directive::HardSpace)) == seq![Directive::HardSpace],
{
    reveal_strlit("\\~");
    reveal_strlit("\\par\\s");
    reveal_strlit("\\cxdstroke");
    reveal_strlit("\\cxfl");
    reveal_strlit("\\cxfc");
    reveal_strlit("\\cxds");
    let s = rtf_one(Directive::HardSpace);
    let n = s.len() as int;
    lemma_not_at(s, 0, "\\par\\s"@, 1);
    lemma_not_at(s, 0, "\\cxdstroke"@, 1);
    lemma_not_at(s, 0, "\\cxfl"@, 1);
    lemma_not_at(s, 0, "\\cxfc"@, 1);
    lemma_not_at(s, 0, "\\cxds"@, 1);
    assert(rtf_control(s, 0) == (Some(Directive::HardSpace), n));
    assert(rtf_items(s, n) =~= Seq::<Directive>::empty());
    assert(parse_rtf(s) =~= seq![Directive::HardSpace]);
}

/// A directive without text, other than the space and the internal
/// orthographic marker, whose RTF spelling names it alone.
pub open spec fn fixed_directive(d: Directive) -> bool {
    match d {
        Directive::Noop => true,
        Directive::Cancel => true,
        Directive::RetroToggleStar => true,
        Directive::RepeatLastStroke => true,
        Directive::RetroInsertSpace => true,
        Directive::RetroDeleteSpace => true,
        Directive::RetroForceCapitalize => true,
        Directive::RetroForceLowercase => true,
        Directive::ForceCapitalizeWord => true,
        Directive::RetroForceCapitalizeWord => true,
        Directive::SpaceMode(None) => true,
        Directive::CaseMode(Case::Sentence) => true,
        Directive::CaseMode(Case::Lower) => true,
        Directive::CaseMode(Case::Upper) => true,
        Directive::CaseMode(Case::Title) => true,
        Directive::ResetCaseAndSpace => true,
        Directive::CaseMode(Case::Camel) => true,
        Directive::CaseMode(Case::Snake) => true,
        Directive::DeleteStroke => true,
        Directive::ForceCapitalize => true,
        Directive::ForceLowercase => true,
        Directive::AttachRaw => true,
        Directive::Paragraph(ParagraphMode::Default) => true,
        Directive::Paragraph(ParagraphMode::Contin) => true,
        Directive::HardSpace => true,
        _ => false,
    }
}

/// Each directive without text reads back from its RTF rendering as
/// exactly itself.
pub proof fn lemma_rtf_round_trip_fixed(d: Directive)
    requires
        fixed_directive(d),
    ensures
        parse_rtf(rtf_one(d)) == seq![d],
{
    match d {
        Directive::Noop => lemma_rtf_nop(),
        Directive::Cancel => lemma_rtf_cancel(),
        Directive::RetroToggleStar => lemma_rtf_ast(),
        Directive::RepeatLastStroke => lemma_rtf_rpt(),
        Directive::RetroInsertSpace => lemma_rtf_rtisp(),
        Directive::RetroDeleteSpace => lemma_rtf_rtdsp(),
        Directive::RetroForceCapitalize => lemma_rtf_rtfc(),
        Directive::RetroForceLowercase => lemma_rtf_rtfl(),
        Directive::ForceCapitalizeWord => lemma_rtf_fcw(),
        Directive::RetroForceCapitalizeWord => lemma_rtf_rtfcw(),
        Directive::SpaceMode(None) => lemma_rtf_spc0(),
        Directive::CaseMode(Case::Sentence) => lemma_rtf_case0(),
        Directive::CaseMode(Case::Lower) => lemma_rtf_case1(),
        Directive::CaseMode(Case::Upper) => lemma_rtf_case2(),
        Directive::CaseMode(Case::Title) => lemma_rtf_case3(),
        Directive::ResetCaseAndSpace => lemma_rtf_reset(),
        Directive::CaseMode(Case::Camel) => lemma_rtf_camel(),
        Directive::CaseMode(Case::Snake) => lemma_rtf_snake(),
        Directive::DeleteStroke => lemma_rtf_dstroke(),
        Directive::ForceCapitalize => lemma_rtf_fc(),
        Directive::ForceLowercase => lemma_rtf_fl(),
        Directive::AttachRaw => lemma_rtf_ds(),
        Directive::Paragraph(ParagraphMode::Default) => lemma_rtf_par_default(),
        Directive::Paragraph(ParagraphMode::Contin) => lemma_rtf_par_contin(),
        Directive::HardSpace => lemma_rtf_hard_space(),
        _ => {},
    }
}

proof fn lemma_plover_braced(s: Seq<char>, b: Seq<char>)
    requires
        s == seq!['{'] + b + seq!['}'],
        forall|k: int| 0 <= k < b.len() ==> #[trigger] b[k] != '}',
        !at_nocase(s, 0, "{#return}{#return}"@),
    ensures
        parse_plover(s) == seq![crate::plover::braced(b)],
{
    let n = s.len() as int;
    assert forall|k: int| 1 <= k < n - 1 implies !seq!['}'].contains(#[trigger] s[k]) by {
        lemma_single('}', s[k]);
        assert(s[k] == b[k - 1]);
    }
    lemma_single('}', s[n - 1]);
    lemma_scan_to(s, 1, seq!['}'], n - 1);
    assert(s.subrange(1, n - 1) =~= b);
    assert(plover_step(s, 0) == (crate::plover::braced(b), n));
    assert(plover_items(s, n) =~= Seq::<Directive>::empty());
    assert(parse_plover(s) =~= seq![crate::plover::braced(b)]);
}

#[verifier::spinoff_prover]
proof fn lemma_plover_cancel()
    ensures
        parse_plover(plover_one(Directive::Cancel)) == seq![Directive::Cancel],
{
    reveal_strlit("{}");
    reveal_strlit("{#return}{#return}");
    reveal_strlit("!");
    reveal_strlit("#");
    reveal_strlit("*");
    reveal_strlit("*!");
    reveal_strlit("*(");
    reveal_strlit("*+");
    reveal_strlit("*-|");
    reveal_strlit("*<");
    reveal_strlit("*>");
    reveal_strlit("*?");
    reveal_strlit(",");
    reveal_strlit("-");
    reveal_strlit("--");
    reveal_strlit("-|");
    reveal_strlit(".");
    reveal_strlit("...");
    reveal_strlit(":");
    reveal_strlit(":retro_currency:");
    reveal_strlit(";");
    reveal_strlit("<");
    reveal_strlit(">");
    reveal_strlit("?");
    reveal_strlit("^");
    reveal_strlit("camel");
    reveal_strlit("caps");
    reveal_strlit("l+");
    reveal_strlit("l-");
    reveal_strlit("lower");
    reveal_strlit("mode:");
    reveal_strlit("plover:");
    reveal_strlit("reset");
    reveal_strlit("reset_case");
    reveal_strlit("reset_space");
    reveal_strlit("set_space:");
    reveal_strlit("snake");
    reveal_strlit("title");
    reveal_strlit("~|");
    let s = plover_one(Directive::Cancel);
    let b = Seq::<char>::empty();
    assert(s =~= seq!['{'] + b + seq!['}']);
    lemma_plover_braced(s, b);
    assert(crate::plover::braced(b) == Directive::Cancel);
}

#[verifier::spinoff_prover]
proof fn lemma_plover_noop()
    ensures
        parse_plover(plover_one(Directive::Noop)) == seq![Directive::Noop],
{
    reveal_strlit("{#}");
    reveal_strlit("{#return}{#return}");
    reveal_strlit("!");
    reveal_strlit("#");
    reveal_strlit("*");
    reveal_strlit("*!");
    reveal_strlit("*(");
    reveal_strlit("*+");
    reveal_strlit("*-|");
    reveal_strlit("*<");
    reveal_strlit("*>");
    reveal_strlit("*?");
    reveal_strlit(",");
    reveal_strlit("-");
    reveal_strlit("--");
    reveal_strlit("-|");
    reveal_strlit(".");
    reveal_strlit("...");
    reveal_strlit(":");
    reveal_strlit(":retro_currency:");
    reveal_strlit(";");
    reveal_strlit("<");
    reveal_strlit(">");
    reveal_strlit("?");
    reveal_strlit("^");
    reveal_strlit("camel");
    reveal_strlit("caps");
    reveal_strlit("l+");
    reveal_strlit("l-");
    reveal_strlit("lower");
    reveal_strlit("mode:");
    reveal_strlit("plover:");
    reveal_strlit("reset");
    reveal_strlit("reset_case");
    reveal_strlit("reset_space");
    reveal_strlit("set_space:");
    reveal_strlit("snake");
    reveal_strlit("title");
    reveal_strlit("~|");
    let s = plover_one(Directive::Noop);
    let b = seq!['#'];
    assert(s =~= seq!['{'] + b + seq!['}']);
    assert(b != "-"@) by {
        assert(b[0] != "-"@[0]);
    }
    assert(b != "."@) by {
        assert(b[0] != "."@[0]);
    }
    assert(b != ","@) by {
        assert(b[0] != ","@[0]);
    }
    assert(b != ":"@) by {
        assert(b[0] != ":"@[0]);
    }
    assert(b != ";"@) by {
        assert(b[0] != ";"@[0]);
    }
    assert(b != "?"@) by {
        assert(b[0] != "?"@[0]);
    }
    assert(b != "!"@) by {
        assert(b[0] != "!"@[0]);
    }
    assert(b != "^"@) by {
        assert(b[0] != "^"@[0]);
    }
    assert(b != "*"@) by {
        assert(b[0] != "*"@[0]);
    }
    assert(b != "<"@) by {
        assert(b[0] != "<"@[0]);
    }
    assert(b != ">"@) by {
        assert(b[0] != ">"@[0]);
    }
    assert(!is_blank(b)) by {
        assert(b[0] == '#');
    }
    assert(b =~= "#"@);
    lemma_plover_braced(s, b);
    assert(crate::plover::braced(b) == Directive::Noop);
}

#[verifier::spinoff_prover]
proof fn lemma_plover_space()
    ensures
        parse_plover(plover_one(Directive::Space)) == seq![Directive::Space],
{
    reveal_strlit("{ }");
    reveal_strlit("{#return}{#return}");
    reveal_strlit("!");
    reveal_strlit("#");
    reveal_strlit("*");
    reveal_strlit("*!");
    reveal_strlit("*(");
    reveal_strlit("*+");
    reveal_strlit("*-|");
    reveal_strlit("*<");
    reveal_strlit("*>");
    reveal_strlit("*?");
    reveal_strlit(",");
    reveal_strlit("-");
    reveal_strlit("--");
    reveal_strlit("-|");
    reveal_strlit(".");
    reveal_strlit("...");
    reveal_strlit(":");
    reveal_strlit(":retro_currency:");
    reveal_strlit(";");
    reveal_strlit("<");
    reveal_strlit(">");
    reveal_strlit("?");
    reveal_strlit("^");
    reveal_strlit("camel");
    reveal_strlit("caps");
    reveal_strlit("l+");
    reveal_strlit("l-");
    reveal_strlit("lower");
    reveal_strlit("mode:");
    reveal_strlit("plover:");
    reveal_strlit("reset");
    reveal_strlit("reset_case");
    reveal_strlit("reset_space");
    reveal_strlit("set_space:");
    reveal_strlit("snake");
    reveal_strlit("title");
    reveal_strlit("~|");
    let s = plover_one(Directive::Space);
    let b = seq![' '];
    assert(s =~= seq!['{'] + b + seq!['}']);
    assert(b != "#"@) by {
        assert(b[0] != "#"@[0]);
    }
    assert(b != "-"@) by {
        assert(b[0] != "-"@[0]);
    }
    assert(b != "."@) by {
        assert(b[0] != "."@[0]);
    }
    assert(b != ","@) by {
        assert(b[0] != ","@[0]);
    }
    assert(b != ":"@) by {
        assert(b[0] != ":"@[0]);
    }
    assert(b != ";"@) by {
        assert(b[0] != ";"@[0]);
    }
    assert(b != "?"@) by {
        assert(b[0] != "?"@[0]);
    }
    assert(b != "!"@) by {
        assert(b[0] != "!"@[0]);
    }
    assert(b != "^"@) by {
        assert(b[0] != "^"@[0]);
    }
    assert(b != "*"@) by {
        assert(b[0] != "*"@[0]);
    }
    assert(b != "<"@) by {
        assert(b[0] != "<"@[0]);
    }
    assert(b != ">"@) by {
        assert(b[0] != ">"@[0]);
    }
    lemma_plover_braced(s, b);
    assert(crate::plover::braced(b) == Directive::Space);
}

#[verifier::spinoff_prover]
proof fn lemma_plover_hard_space()
    ensures
        parse_plover(plover_one(Directive::HardSpace)) == seq![Directive::HardSpace],
{
    reveal_strlit("{^ ^}");
    reveal_strlit("{#return}{#return}");
    reveal_strlit(" ");
    reveal_strlit("!");
    reveal_strlit("#");
    reveal_strlit("*");
    reveal_strlit("*!");
    reveal_strlit("*(");
    reveal_strlit("*+");
    reveal_strlit("*-|");
    reveal_strlit("*<");
    reveal_strlit("*>");
    reveal_strlit("*?");
    reveal_strlit(",");
    reveal_strlit("-");
    reveal_strlit("--");
    reveal_strlit("-|");
    reveal_strlit(".");
    reveal_strlit("...");
    reveal_strlit(":");
    reveal_strlit(":retro_currency:");
    reveal_strlit(";");
    reveal_strlit("<");
    reveal_strlit(">");
    reveal_strlit("?");
    reveal_strlit("^");
    reveal_strlit("camel");
    reveal_strlit("caps");
    reveal_strlit("l+");
    reveal_strlit("l-");
    reveal_strlit("lower");
    reveal_strlit("mode:");
    reveal_strlit("plover:");
    reveal_strlit("reset");
    reveal_strlit("reset_case");
    reveal_strlit("reset_space");
    reveal_strlit("set_space:");
    reveal_strlit("snake");
    reveal_strlit("title");
    reveal_strlit("~|");
    let s = plover_one(Directive::HardSpace);
    let b = seq!['^', ' ', '^'];
    assert(s =~= seq!['{'] + b + seq!['}']);
    assert(b != "..."@) by {
        assert(b[0] != "..."@[0]);
    }
    assert(b != "*-|"@) by {
        assert(b[0] != "*-|"@[0]);
    }
    assert(!is_blank(b)) by {
        assert(b[0] == '^');
    }
    lemma_not_at(b, 0, "*("@, 0);
    lemma_not_at(b, 0, "~|"@, 0);
    assert(b.subrange(1, 2) =~= " "@);
    lemma_lacks(b.subrange(1, 2), '^');
    lemma_plover_braced(s, b);
    assert(crate::plover::braced(b) == Directive::HardSpace);
}

#[verifier::spinoff_prover]
proof fn lemma_plover_attach()
    ensures
        parse_plover(plover_one(Directive::AttachRaw)) == seq![Directive::AttachRaw],
{
    reveal_strlit("{^}");
    reveal_strlit("{#return}{#return}");
    reveal_strlit("!");
    reveal_strlit("#");
    reveal_strlit("*");
    reveal_strlit("*!");
    reveal_strlit("*(");
    reveal_strlit("*+");
    reveal_strlit("*-|");
    reveal_strlit("*<");
    reveal_strlit("*>");
    reveal_strlit("*?");
    reveal_strlit(",");
    reveal_strlit("-");
    reveal_strlit("--");
    reveal_strlit("-|");
    reveal_strlit(".");
    reveal_strlit("...");
    reveal_strlit(":");
    reveal_strlit(":retro_currency:");
    reveal_strlit(";");
    reveal_strlit("<");
    reveal_strlit(">");
    reveal_strlit("?");
    reveal_strlit("^");
    reveal_strlit("camel");
    reveal_strlit("caps");
    reveal_strlit("l+");
    reveal_strlit("l-");
    reveal_strlit("lower");
    reveal_strlit("mode:");
    reveal_strlit("plover:");
    reveal_strlit("reset");
    reveal_strlit("reset_case");
    reveal_strlit("reset_space");
    reveal_strlit("set_space:");
    reveal_strlit("snake");
    reveal_strlit("title");
    reveal_strlit("~|");
    let s = plover_one(Directive::AttachRaw);
    let b = seq!['^'];
    assert(s =~= seq!['{'] + b + seq!['}']);
    assert(b != "#"@) by {
        assert(b[0] != "#"@[0]);
    }
    assert(b != "-"@) by {
        assert(b[0] != "-"@[0]);
    }
    assert(b != "."@) by {
        assert(b[0] != "."@[0]);
    }
    assert(b != ","@) by {
        assert(b[0] != ","@[0]);
    }
    assert(b != ":"@) by {
        assert(b[0] != ":"@[0]);
    }
    assert(b != ";"@) by {
        assert(b[0] != ";"@[0]);
    }
    assert(b != "?"@) by {
        assert(b[0] != "?"@[0]);
    }
    assert(b != "!"@) by {
        assert(b[0] != "!"@[0]);
    }
    assert(b != "*"@) by {
        assert(b[0] != "*"@[0]);
    }
    assert(b != "<"@) by {
        assert(b[0] != "<"@[0]);
    }
    assert(b != ">"@) by {
        assert(b[0] != ">"@[0]);
    }
    assert(!is_blank(b)) by {
        assert(b[0] == '^');
    }
    assert(b =~= "^"@);
    lemma_plover_braced(s, b);
    assert(crate::plover::braced(b) == Directive::AttachRaw);
}

#[verifier::spinoff_prover]
proof fn lemma_plover_repeat()
    ensures
        parse_plover(plover_one(Directive::RepeatLastStroke)) == seq![Directive::RepeatLastStroke],
{
    reveal_strlit("{*+}");
    reveal_strlit("{#return}{#return}");
    reveal_strlit("!");
    reveal_strlit("#");
    reveal_strlit("*");
    reveal_strlit("*!");
    reveal_strlit("*(");
    reveal_strlit("*+");
    reveal_strlit("*-|");
    reveal_strlit("*<");
    reveal_strlit("*>");
    reveal_strlit("*?");
    reveal_strlit(",");
    reveal_strlit("-");
    reveal_strlit("--");
    reveal_strlit("-|");
    reveal_strlit(".");
    reveal_strlit("...");
    reveal_strlit(":");
    reveal_strlit(":retro_currency:");
    reveal_strlit(";");
    reveal_strlit("<");
    reveal_strlit(">");
    reveal_strlit("?");
    reveal_strlit("^");
    reveal_strlit("camel");
    reveal_strlit("caps");
    reveal_strlit("l+");
    reveal_strlit("l-");
    reveal_strlit("lower");
    reveal_strlit("mode:");
    reveal_strlit("plover:");
    reveal_strlit("reset");
    reveal_strlit("reset_case");
    reveal_strlit("reset_space");
    reveal_strlit("set_space:");
    reveal_strlit("snake");
    reveal_strlit("title");
    reveal_strlit("~|");
    let s = plover_one(Directive::RepeatLastStroke);
    let b = seq!['*', '+'];
    assert(s =~= seq!['{'] + b + seq!['}']);
    assert(b != "--"@) by {
        assert(b[0] != "--"@[0]);
    }
    assert(b != "-|"@) by {
        assert(b[0] != "-|"@[0]);
    }
    assert(b != "l-"@) by {
        assert(b[0] != "l-"@[0]);
    }
    assert(b != "*?"@) by {
        assert(b[1] != "*?"@[1]);
    }
    assert(b != "*!"@) by {
        assert(b[1] != "*!"@[1]);
    }
    assert(b != "*<"@) by {
        assert(b[1] != "*<"@[1]);
    }
    assert(b != "*>"@) by {
        assert(b[1] != "*>"@[1]);
    }
    assert(b != "l+"@) by {
        assert(b[0] != "l+"@[0]);
    }
    assert(!is_blank(b)) by {
        assert(b[0] == '*');
    }
    lemma_not_at(b, 0, "*("@, 1);
    lemma_not_at(b, 0, "~|"@, 0);
    assert(b =~= "*+"@);
    lemma_plover_braced(s, b);
    assert(crate::plover::braced(b) == Directive::RepeatLastStroke);
}

#[verifier::spinoff_prover]
proof fn lemma_plover_toggle_star()
    ensures
        parse_plover(plover_one(Directive::RetroToggleStar)) == seq![Directive::RetroToggleStar],
{
    reveal_strlit("{*}");
    reveal_strlit("{#return}{#return}");
    reveal_strlit("!");
    reveal_strlit("#");
    reveal_strlit("*");
    reveal_strlit("*!");
    reveal_strlit("*(");
    reveal_strlit("*+");
    reveal_strlit("*-|");
    reveal_strlit("*<");
    reveal_strlit("*>");
    reveal_strlit("*?");
    reveal_strlit(",");
    reveal_strlit("-");
    reveal_strlit("--");
    reveal_strlit("-|");
    reveal_strlit(".");
    reveal_strlit("...");
    reveal_strlit(":");
    reveal_strlit(":retro_currency:");
    reveal_strlit(";");
    reveal_strlit("<");
    reveal_strlit(">");
    reveal_strlit("?");
    reveal_strlit("^");
    reveal_strlit("camel");
    reveal_strlit("caps");
    reveal_strlit("l+");
    reveal_strlit("l-");
    reveal_strlit("lower");
    reveal_strlit("mode:");
    reveal_strlit("plover:");
    reveal_strlit("reset");
    reveal_strlit("reset_case");
    reveal_strlit("reset_space");
    reveal_strlit("set_space:");
    reveal_strlit("snake");
    reveal_strlit("title");
    reveal_strlit("~|");
    let s = plover_one(Directive::RetroToggleStar);
    let b = seq!['*'];
    assert(s =~= seq!['{'] + b + seq!['}']);
    assert(b != "#"@) by {
        assert(b[0] != "#"@[0]);
    }
    assert(b != "-"@) by {
        assert(b[0] != "-"@[0]);
    }
    assert(b != "."@) by {
        assert(b[0] != "."@[0]);
    }
    assert(b != ","@) by {
        assert(b[0] != ","@[0]);
    }
    assert(b != ":"@) by {
        assert(b[0] != ":"@[0]);
    }
    assert(b != ";"@) by {
        assert(b[0] != ";"@[0]);
    }
    assert(b != "?"@) by {
        assert(b[0] != "?"@[0]);
    }
    assert(b != "!"@) by {
        assert(b[0] != "!"@[0]);
    }
    assert(b != "^"@) by {
        assert(b[0] != "^"@[0]);
    }
    assert(b != "<"@) by {
        assert(b[0] != "<"@[0]);
    }
    assert(b != ">"@) by {
        assert(b[0] != ">"@[0]);
    }
    assert(!is_blank(b)) by {
        assert(b[0] == '*');
    }
    assert(b =~= "*"@);
    lemma_plover_braced(s, b);
    assert(crate::plover::braced(b) == Directive::RetroToggleStar);
}

#[verifier::spinoff_prover]
proof fn lemma_plover_insert_space()
    ensures
        parse_plover(plover_one(Directive::RetroInsertSpace)) == seq![Directive::RetroInsertSpace],
{
    reveal_strlit("{*?}");
    reveal_strlit("{#return}{#return}");
    reveal_strlit("!");
    reveal_strlit("#");
    reveal_strlit("*");
    reveal_strlit("*!");
    reveal_strlit("*(");
    reveal_strlit("*+");
    reveal_strlit("*-|");
    reveal_strlit("*<");
    reveal_strlit("*>");
    reveal_strlit("*?");
    reveal_strlit(",");
    reveal_strlit("-");
    reveal_strlit("--");
    reveal_strlit("-|");
    reveal_strlit(".");
    reveal_strlit("...");
    reveal_strlit(":");
    reveal_strlit(":retro_currency:");
    reveal_strlit(";");
    reveal_strlit("<");
    reveal_strlit(">");
    reveal_strlit("?");
    reveal_strlit("^");
    reveal_strlit("camel");
    reveal_strlit("caps");
    reveal_strlit("l+");
    reveal_strlit("l-");
    reveal_strlit("lower");
    reveal_strlit("mode:");
    reveal_strlit("plover:");
    reveal_strlit("reset");
    reveal_strlit("reset_case");
    reveal_strlit("reset_space");
    reveal_strlit("set_space:");
    reveal_strlit("snake");
    reveal_strlit("title");
    reveal_strlit("~|");
    let s = plover_one(Directive::RetroInsertSpace);
    let b = seq!['*', '?'];
    assert(s =~= seq!['{'] + b + seq!['}']);
    assert(b != "--"@) by {
        assert(b[0] != "--"@[0]);
    }
    assert(b != "-|"@) by {
        assert(b[0] != "-|"@[0]);
    }
    assert(b != "l-"@) by {
        assert(b[0] != "l-"@[0]);
    }
    assert(b != "*+"@) by {
        assert(b[1] != "*+"@[1]);
    }
    assert(b != "*!"@) by {
        assert(b[1] != "*!"@[1]);
    }
    assert(b != "*<"@) by {
        assert(b[1] != "*<"@[1]);
    }
    assert(b != "*>"@) by {
        assert(b[1] != "*>"@[1]);
    }
    assert(b != "l+"@) by {
        assert(b[0] != "l+"@[0]);
    }
    assert(!is_blank(b)) by {
        assert(b[0] == '*');
    }
    lemma_not_at(b, 0, "*("@, 1);
    lemma_not_at(b, 0, "~|"@, 0);
    assert(b =~= "*?"@);
    lemma_plover_braced(s, b);
    assert(crate::plover::braced(b) == Directive::RetroInsertSpace);
}

#[verifier::spinoff_prover]
proof fn lemma_plover_delete_space()
    ensures
        parse_plover(plover_one(Directive::RetroDeleteSpace)) == seq![Directive::RetroDeleteSpace],
{
    reveal_strlit("{*!}");
    reveal_strlit("{#return}{#return}");
    reveal_strlit("!");
    reveal_strlit("#");
    reveal_strlit("*");
    reveal_strlit("*!");
    reveal_strlit("*(");
    reveal_strlit("*+");
    reveal_strlit("*-|");
    reveal_strlit("*<");
    reveal_strlit("*>");
    reveal_strlit("*?");
    reveal_strlit(",");
    reveal_strlit("-");
    reveal_strlit("--");
    reveal_strlit("-|");
    reveal_strlit(".");
    reveal_strlit("...");
    reveal_strlit(":");
    reveal_strlit(":retro_currency:");
    reveal_strlit(";");
    reveal_strlit("<");
    reveal_strlit(">");
    reveal_strlit("?");
    reveal_strlit("^");
    reveal_strlit("camel");
    reveal_strlit("caps");
    reveal_strlit("l+");
    reveal_strlit("l-");
    reveal_strlit("lower");
    reveal_strlit("mode:");
    reveal_strlit("plover:");
    reveal_strlit("reset");
    reveal_strlit("reset_case");
    reveal_strlit("reset_space");
    reveal_strlit("set_space:");
    reveal_strlit("snake");
    reveal_strlit("title");
    reveal_strlit("~|");
    let s = plover_one(Directive::RetroDeleteSpace);
    let b = seq!['*', '!'];
    assert(s =~= seq!['{'] + b + seq!['}']);
    assert(b != "--"@) by {
        assert(b[0] != "--"@[0]);
    }
    assert(b != "-|"@) by {
        assert(b[0] != "-|"@[0]);
    }
    assert(b != "l-"@) by {
        assert(b[0] != "l-"@[0]);
    }
    assert(b != "*+"@) by {
        assert(b[1] != "*+"@[1]);
    }
    assert(b != "*?"@) by {
        assert(b[1] != "*?"@[1]);
    }
    assert(b != "*<"@) by {
        assert(b[1] != "*<"@[1]);
    }
    assert(b != "*>"@) by {
        assert(b[1] != "*>"@[1]);
    }
    assert(b != "l+"@) by {
        assert(b[0] != "l+"@[0]);
    }
    assert(!is_blank(b)) by {
        assert(b[0] == '*');
    }
    lemma_not_at(b, 0, "*("@, 1);
    lemma_not_at(b, 0, "~|"@, 0);
    assert(b =~= "*!"@);
    lemma_plover_braced(s, b);
    assert(crate::plover::braced(b) == Directive::RetroDeleteSpace);
}

#[verifier::spinoff_prover]
proof fn lemma_plover_force_cap()
    ensures
        parse_plover(plover_one(Directive::ForceCapitalize)) == seq![Directive::ForceCapitalize],
{
    reveal_strlit("{-|}");
    reveal_strlit("{#return}{#return}");
    reveal_strlit("!");
    reveal_strlit("#");
    reveal_strlit("*");
    reveal_strlit("*!");
    reveal_strlit("*(");
    reveal_strlit("*+");
    reveal_strlit("*-|");
    reveal_strlit("*<");
    reveal_strlit("*>");
    reveal_strlit("*?");
    reveal_strlit(",");
    reveal_strlit("-");
    reveal_strlit("--");
    reveal_strlit("-|");
    reveal_strlit(".");
    reveal_strlit("...");
    reveal_strlit(":");
    reveal_strlit(":retro_currency:");
    reveal_strlit(";");
    reveal_strlit("<");
    reveal_strlit(">");
    reveal_strlit("?");
    reveal_strlit("^");
    reveal_strlit("camel");
    reveal_strlit("caps");
    reveal_strlit("l+");
    reveal_strlit("l-");
    reveal_strlit("lower");
    reveal_strlit("mode:");
    reveal_strlit("plover:");
    reveal_strlit("reset");
    reveal_strlit("reset_case");
    reveal_strlit("reset_space");
    reveal_strlit("set_space:");
    reveal_strlit("snake");
    reveal_strlit("title");
    reveal_strlit("~|");
    let s = plover_one(Directive::ForceCapitalize);
    let b = seq!['-', '|'];
    assert(s =~= seq!['{'] + b + seq!['}']);
    assert(b != "--"@) by {
        assert(b[1] != "--"@[1]);
    }
    assert(b != "l-"@) by {
        assert(b[0] != "l-"@[0]);
    }
    assert(b != "*+"@) by {
        assert(b[0] != "*+"@[0]);
    }
    assert(b != "*?"@) by {
        assert(b[0] != "*?"@[0]);
    }
    assert(b != "*!"@) by {
        assert(b[0] != "*!"@[0]);
    }
    assert(b != "*<"@) by {
        assert(b[0] != "*<"@[0]);
    }
    assert(b != "*>"@) by {
        assert(b[0] != "*>"@[0]);
    }
    assert(b != "l+"@) by {
        assert(b[0] != "l+"@[0]);
    }
    assert(!is_blank(b)) by {
        assert(b[0] == '-');
    }
    lemma_not_at(b, 0, "*("@, 0);
    lemma_not_at(b, 0, "~|"@, 0);
    assert(b =~= "-|"@);
    lemma_plover_braced(s, b);
    assert(crate::plover::braced(b) == Directive::ForceCapitalize);
}

#[verifier::spinoff_prover]
proof fn lemma_plover_force_lower()
    ensures
        parse_plover(plover_one(Directive::ForceLowercase)) == seq![Directive::ForceLowercase],
{
    reveal_strlit("{>}");
    reveal_strlit("{#return}{#return}");
    reveal_strlit("!");
    reveal_strlit("#");
    reveal_strlit("*");
    reveal_strlit("*!");
    reveal_strlit("*(");
    reveal_strlit("*+");
    reveal_strlit("*-|");
    reveal_strlit("*<");
    reveal_strlit("*>");
    reveal_strlit("*?");
    reveal_strlit(",");
    reveal_strlit("-");
    reveal_strlit("--");
    reveal_strlit("-|");
    reveal_strlit(".");
    reveal_strlit("...");
    reveal_strlit(":");
    reveal_strlit(":retro_currency:");
    reveal_strlit(";");
    reveal_strlit("<");
    reveal_strlit(">");
    reveal_strlit("?");
    reveal_strlit("^");
    reveal_strlit("camel");
    reveal_strlit("caps");
    reveal_strlit("l+");
    reveal_strlit("l-");
    reveal_strlit("lower");
    reveal_strlit("mode:");
    reveal_strlit("plover:");
    reveal_strlit("reset");
    reveal_strlit("reset_case");
    reveal_strlit("reset_space");
    reveal_strlit("set_space:");
    reveal_strlit("snake");
    reveal_strlit("title");
    reveal_strlit("~|");
    let s = plover_one(Directive::ForceLowercase);
    let b = seq!['>'];
    assert(s =~= seq!['{'] + b + seq!['}']);
    assert(b != "#"@) by {
        assert(b[0] != "#"@[0]);
    }
    assert(b != "-"@) by {
        assert(b[0] != "-"@[0]);
    }
    assert(b != "."@) by {
        assert(b[0] != "."@[0]);
    }
    assert(b != ","@) by {
        assert(b[0] != ","@[0]);
    }
    assert(b != ":"@) by {
        assert(b[0] != ":"@[0]);
    }
    assert(b != ";"@) by {
        assert(b[0] != ";"@[0]);
    }
    assert(b != "?"@) by {
        assert(b[0] != "?"@[0]);
    }
    assert(b != "!"@) by {
        assert(b[0] != "!"@[0]);
    }
    assert(b != "^"@) by {
        assert(b[0] != "^"@[0]);
    }
    assert(b != "*"@) by {
        assert(b[0] != "*"@[0]);
    }
    assert(b != "<"@) by {
        assert(b[0] != "<"@[0]);
    }
    assert(!is_blank(b)) by {
        assert(b[0] == '>');
    }
    assert(b =~= ">"@);
    lemma_plover_braced(s, b);
    assert(crate::plover::braced(b) == Directive::ForceLowercase);
}

#[verifier::spinoff_prover]
proof fn lemma_plover_retro_force_cap()
    ensures
        parse_plover(plover_one(Directive::RetroForceCapitalize)) == seq![Directive::RetroForceCapitalize],
{
    reveal_strlit("{*-|}");
    reveal_strlit("{#return}{#return}");
    reveal_strlit("!");
    reveal_strlit("#");
    reveal_strlit("*");
    reveal_strlit("*!");
    reveal_strlit("*(");
    reveal_strlit("*+");
    reveal_strlit("*-|");
    reveal_strlit("*<");
    reveal_strlit("*>");
    reveal_strlit("*?");
    reveal_strlit(",");
    reveal_strlit("-");
    reveal_strlit("--");
    reveal_strlit("-|");
    reveal_strlit(".");
    reveal_strlit("...");
    reveal_strlit(":");
    reveal_strlit(":retro_currency:");
    reveal_strlit(";");
    reveal_strlit("<");
    reveal_strlit(">");
    reveal_strlit("?");
    reveal_strlit("^");
    reveal_strlit("camel");
    reveal_strlit("caps");
    reveal_strlit("l+");
    reveal_strlit("l-");
    reveal_strlit("lower");
    reveal_strlit("mode:");
    reveal_strlit("plover:");
    reveal_strlit("reset");
    reveal_strlit("reset_case");
    reveal_strlit("reset_space");
    reveal_strlit("set_space:");
    reveal_strlit("snake");
    reveal_strlit("title");
    reveal_strlit("~|");
    let s = plover_one(Directive::RetroForceCapitalize);
    let b = seq!['*', '-', '|'];
    assert(s =~= seq!['{'] + b + seq!['}']);
    assert(b != "..."@) by {
        assert(b[0] != "..."@[0]);
    }
    assert(!is_blank(b)) by {
        assert(b[0] == '*');
    }
    lemma_not_at(b, 0, "*("@, 1);
    lemma_not_at(b, 0, "~|"@, 0);
    assert(b =~= "*-|"@);
    lemma_plover_braced(s, b);
    assert(crate::plover::braced(b) == Directive::RetroForceCapitalize);
}

#[verifier::spinoff_prover]
proof fn lemma_plover_retro_force_lower()
    ensures
        parse_plover(plover_one(Directive::RetroForceLowercase)) == seq![Directive::RetroForceLowercase],
{
    reveal_strlit("{*>}");
    reveal_strlit("{#return}{#return}");
    reveal_strlit("!");
    reveal_strlit("#");
    reveal_strlit("*");
    reveal_strlit("*!");
    reveal_strlit("*(");
    reveal_strlit("*+");
    reveal_strlit("*-|");
    reveal_strlit("*<");
    reveal_strlit("*>");
    reveal_strlit("*?");
    reveal_strlit(",");
    reveal_strlit("-");
    reveal_strlit("--");
    reveal_strlit("-|");
    reveal_strlit(".");
    reveal_strlit("...");
    reveal_strlit(":");
    reveal_strlit(":retro_currency:");
    reveal_strlit(";");
    reveal_strlit("<");
    reveal_strlit(">");
    reveal_strlit("?");
    reveal_strlit("^");
    reveal_strlit("camel");
    reveal_strlit("caps");
    reveal_strlit("l+");
    reveal_strlit("l-");
    reveal_strlit("lower");
    reveal_strlit("mode:");
    reveal_strlit("plover:");
    reveal_strlit("reset");
    reveal_strlit("reset_case");
    reveal_strlit("reset_space");
    reveal_strlit("set_space:");
    reveal_strlit("snake");
    reveal_strlit("title");
    reveal_strlit("~|");
    let s = plover_one(Directive::RetroForceLowercase);
    let b = seq!['*', '>'];
    assert(s =~= seq!['{'] + b + seq!['}']);
    assert(b != "--"@) by {
        assert(b[0] != "--"@[0]);
    }
    assert(b != "-|"@) by {
        assert(b[0] != "-|"@[0]);
    }
    assert(b != "l-"@) by {
        assert(b[0] != "l-"@[0]);
    }
    assert(b != "*+"@) by {
        assert(b[1] != "*+"@[1]);
    }
    assert(b != "*?"@) by {
        assert(b[1] != "*?"@[1]);
    }
    assert(b != "*!"@) by {
        assert(b[1] != "*!"@[1]);
    }
    assert(b != "*<"@) by {
        assert(b[1] != "*<"@[1]);
    }
    assert(b != "l+"@) by {
        assert(b[0] != "l+"@[0]);
    }
    assert(!is_blank(b)) by {
        assert(b[0] == '*');
    }
    lemma_not_at(b, 0, "*("@, 1);
    lemma_not_at(b, 0, "~|"@, 0);
    assert(b =~= "*>"@);
    lemma_plover_braced(s, b);
    assert(crate::plover::braced(b) == Directive::RetroForceLowercase);
}

#[verifier::spinoff_prover]
proof fn lemma_plover_force_cap_word()
    ensures
        parse_plover(plover_one(Directive::ForceCapitalizeWord)) == seq![Directive::ForceCapitalizeWord],
{
    reveal_strlit("{<}");
    reveal_strlit("{#return}{#return}");
    reveal_strlit("!");
    reveal_strlit("#");
    reveal_strlit("*");
    reveal_strlit("*!");
    reveal_strlit("*(");
    reveal_strlit("*+");
    reveal_strlit("*-|");
    reveal_strlit("*<");
    reveal_strlit("*>");
    reveal_strlit("*?");
    reveal_strlit(",");
    reveal_strlit("-");
    reveal_strlit("--");
    reveal_strlit("-|");
    reveal_strlit(".");
    reveal_strlit("...");
    reveal_strlit(":");
    reveal_strlit(":retro_currency:");
    reveal_strlit(";");
    reveal_strlit("<");
    reveal_strlit(">");
    reveal_strlit("?");
    reveal_strlit("^");
    reveal_strlit("camel");
    reveal_strlit("caps");
    reveal_strlit("l+");
    reveal_strlit("l-");
    reveal_strlit("lower");
    reveal_strlit("mode:");
    reveal_strlit("plover:");
    reveal_strlit("reset");
    reveal_strlit("reset_case");
    reveal_strlit("reset_space");
    reveal_strlit("set_space:");
    reveal_strlit("snake");
    reveal_strlit("title");
    reveal_strlit("~|");
    let s = plover_one(Directive::ForceCapitalizeWord);
    let b = seq!['<'];
    assert(s =~= seq!['{'] + b + seq!['}']);
    assert(b != "#"@) by {
        assert(b[0] != "#"@[0]);
    }
    assert(b != "-"@) by {
        assert(b[0] != "-"@[0]);
    }
    assert(b != "."@) by {
        assert(b[0] != "."@[0]);
    }
    assert(b != ","@) by {
        assert(b[0] != ","@[0]);
    }
    assert(b != ":"@) by {
        assert(b[0] != ":"@[0]);
    }
    assert(b != ";"@) by {
        assert(b[0] != ";"@[0]);
    }
    assert(b != "?"@) by {
        assert(b[0] != "?"@[0]);
    }
    assert(b != "!"@) by {
        assert(b[0] != "!"@[0]);
    }
    assert(b != "^"@) by {
        assert(b[0] != "^"@[0]);
    }
    assert(b != "*"@) by {
        assert(b[0] != "*"@[0]);
    }
    assert(b != ">"@) by {
        assert(b[0] != ">"@[0]);
    }
    assert(!is_blank(b)) by {
        assert(b[0] == '<');
    }
    assert(b =~= "<"@);
    lemma_plover_braced(s, b);
    assert(crate::plover::braced(b) == Directive::ForceCapitalizeWord);
}

#[verifier::spinoff_prover]
proof fn lemma_plover_retro_force_cap_word()
    ensures
        parse_plover(plover_one(Directive::RetroForceCapitalizeWord)) == seq![Directive::RetroForceCapitalizeWord],
{
    reveal_strlit("{*<}");
    reveal_strlit("{#return}{#return}");
    reveal_strlit("!");
    reveal_strlit("#");
    reveal_strlit("*");
    reveal_strlit("*!");
    reveal_strlit("*(");
    reveal_strlit("*+");
    reveal_strlit("*-|");
    reveal_strlit("*<");
    reveal_strlit("*>");
    reveal_strlit("*?");
    reveal_strlit(",");
    reveal_strlit("-");
    reveal_strlit("--");
    reveal_strlit("-|");
    reveal_strlit(".");
    reveal_strlit("...");
    reveal_strlit(":");
    reveal_strlit(":retro_currency:");
    reveal_strlit(";");
    reveal_strlit("<");
    reveal_strlit(">");
    reveal_strlit("?");
    reveal_strlit("^");
    reveal_strlit("camel");
    reveal_strlit("caps");
    reveal_strlit("l+");
    reveal_strlit("l-");
    reveal_strlit("lower");
    reveal_strlit("mode:");
    reveal_strlit("plover:");
    reveal_strlit("reset");
    reveal_strlit("reset_case");
    reveal_strlit("reset_space");
    reveal_strlit("set_space:");
    reveal_strlit("snake");
    reveal_strlit("title");
    reveal_strlit("~|");
    let s = plover_one(Directive::RetroForceCapitalizeWord);
    let b = seq!['*', '<'];
    assert(s =~= seq!['{'] + b + seq!['}']);
    assert(b != "--"@) by {
        assert(b[0] != "--"@[0]);
    }
    assert(b != "-|"@) by {
        assert(b[0] != "-|"@[0]);
    }
    assert(b != "l-"@) by {
        assert(b[0] != "l-"@[0]);
    }
    assert(b != "*+"@) by {
        assert(b[1] != "*+"@[1]);
    }
    assert(b != "*?"@) by {
        assert(b[1] != "*?"@[1]);
    }
    assert(b != "*!"@) by {
        assert(b[1] != "*!"@[1]);
    }
    assert(b != "*>"@) by {
        assert(b[1] != "*>"@[1]);
    }
    assert(b != "l+"@) by {
        assert(b[0] != "l+"@[0]);
    }
    assert(!is_blank(b)) by {
        assert(b[0] == '*');
    }
    lemma_not_at(b, 0, "*("@, 1);
    lemma_not_at(b, 0, "~|"@, 0);
    assert(b =~= "*<"@);
    lemma_plover_braced(s, b);
    assert(crate::plover::braced(b) == Directive::RetroForceCapitalizeWord);
}

#[verifier::spinoff_prover]
proof fn lemma_plover_case_sentence()
    ensures
        parse_plover(plover_one(Directive::CaseMode(Case::Sentence))) == seq![Directive::CaseMode(Case::Sentence)],
{
    reveal_strlit("{mode:reset_case}");
    reveal_strlit("{#return}{#return}");
    reveal_strlit("!");
    reveal_strlit("#");
    reveal_strlit("*");
    reveal_strlit("*!");
    reveal_strlit("*(");
    reveal_strlit("*+");
    reveal_strlit("*-|");
    reveal_strlit("*<");
    reveal_strlit("*>");
    reveal_strlit("*?");
    reveal_strlit(",");
    reveal_strlit("-");
    reveal_strlit("--");
    reveal_strlit("-|");
    reveal_strlit(".");
    reveal_strlit("...");
    reveal_strlit(":");
    reveal_strlit(":retro_currency:");
    reveal_strlit(";");
    reveal_strlit("<");
    reveal_strlit(">");
    reveal_strlit("?");
    reveal_strlit("^");
    reveal_strlit("camel");
    reveal_strlit("caps");
    reveal_strlit("l+");
    reveal_strlit("l-");
    reveal_strlit("lower");
    reveal_strlit("mode:");
    reveal_strlit("plover:");
    reveal_strlit("reset");
    reveal_strlit("reset_case");
    reveal_strlit("reset_space");
    reveal_strlit("set_space:");
    reveal_strlit("snake");
    reveal_strlit("title");
    reveal_strlit("~|");
    let s = plover_one(Directive::CaseMode(Case::Sentence));
    let b = seq!['m', 'o', 'd', 'e', ':', 'r', 'e', 's', 'e', 't', '_', 'c', 'a', 's', 'e'];
    assert(s =~= seq!['{'] + b + seq!['}']);
    assert(!is_blank(b)) by {
        assert(b[0] == 'm');
    }
    lemma_not_at_nocase(b, 0, "plover:"@, 0);
    lemma_not_at(b, 0, "*("@, 0);
    lemma_not_at(b, 0, "~|"@, 0);
    let a = b.skip(5);
    assert(a =~= seq!['r', 'e', 's', 'e', 't', '_', 'c', 'a', 's', 'e']);
    lemma_not_at_nocase(a, 0, "set_space:"@, 0);
    assert(eq_nocase(a, "reset_case"@)) by {
        assert forall|k: int| 0 <= k < a.len() implies #[trigger] fold(a[k]) == "reset_case"@[k] as u32 by {
        }
    }
    lemma_plover_braced(s, b);
    assert(crate::plover::braced(b) == Directive::CaseMode(Case::Sentence));
}

#[verifier::spinoff_prover]
proof fn lemma_plover_case_lower()
    ensures
        parse_plover(plover_one(Directive::CaseMode(Case::Lower))) == seq![Directive::CaseMode(Case::Lower)],
{
    reveal_strlit("{mode:lower}");
    reveal_strlit("{#return}{#return}");
    reveal_strlit("!");
    reveal_strlit("#");
    reveal_strlit("*");
    reveal_strlit("*!");
    reveal_strlit("*(");
    reveal_strlit("*+");
    reveal_strlit("*-|");
    reveal_strlit("*<");
    reveal_strlit("*>");
    reveal_strlit("*?");
    reveal_strlit(",");
    reveal_strlit("-");
    reveal_strlit("--");
    reveal_strlit("-|");
    reveal_strlit(".");
    reveal_strlit("...");
    reveal_strlit(":");
    reveal_strlit(":retro_currency:");
    reveal_strlit(";");
    reveal_strlit("<");
    reveal_strlit(">");
    reveal_strlit("?");
    reveal_strlit("^");
    reveal_strlit("camel");
    reveal_strlit("caps");
    reveal_strlit("l+");
    reveal_strlit("l-");
    reveal_strlit("lower");
    reveal_strlit("mode:");
    reveal_strlit("plover:");
    reveal_strlit("reset");
    reveal_strlit("reset_case");
    reveal_strlit("reset_space");
    reveal_strlit("set_space:");
    reveal_strlit("snake");
    reveal_strlit("title");
    reveal_strlit("~|");
    let s = plover_one(Directive::CaseMode(Case::Lower));
    let b = seq!['m', 'o', 'd', 'e', ':', 'l', 'o', 'w', 'e', 'r'];
    assert(s =~= seq!['{'] + b + seq!['}']);
    assert(!is_blank(b)) by {
        assert(b[0] == 'm');
    }
    lemma_not_at_nocase(b, 0, "plover:"@, 0);
    lemma_not_at(b, 0, "*("@, 0);
    lemma_not_at(b, 0, "~|"@, 0);
    let a = b.skip(5);
    assert(a =~= seq!['l', 'o', 'w', 'e', 'r']);
    assert(eq_nocase(a, "lower"@)) by {
        assert forall|k: int| 0 <= k < a.len() implies #[trigger] fold(a[k]) == "lower"@[k] as u32 by {
        }
    }
    lemma_plover_braced(s, b);
    assert(crate::plover::braced(b) == Directive::CaseMode(Case::Lower));
}

#[verifier::spinoff_prover]
proof fn lemma_plover_case_upper()
    ensures
        parse_plover(plover_one(Directive::CaseMode(Case::Upper))) == seq![Directive::CaseMode(Case::Upper)],
{
    reveal_strlit("{mode:caps}");
    reveal_strlit("{#return}{#return}");
    reveal_strlit("!");
    reveal_strlit("#");
    reveal_strlit("*");
    reveal_strlit("*!");
    reveal_strlit("*(");
    reveal_strlit("*+");
    reveal_strlit("*-|");
    reveal_strlit("*<");
    reveal_strlit("*>");
    reveal_strlit("*?");
    reveal_strlit(",");
    reveal_strlit("-");
    reveal_strlit("--");
    reveal_strlit("-|");
    reveal_strlit(".");
    reveal_strlit("...");
    reveal_strlit(":");
    reveal_strlit(":retro_currency:");
    reveal_strlit(";");
    reveal_strlit("<");
    reveal_strlit(">");
    reveal_strlit("?");
    reveal_strlit("^");
    reveal_strlit("camel");
    reveal_strlit("caps");
    reveal_strlit("l+");
    reveal_strlit("l-");
    reveal_strlit("lower");
    reveal_strlit("mode:");
    reveal_strlit("plover:");
    reveal_strlit("reset");
    reveal_strlit("reset_case");
    reveal_strlit("reset_space");
    reveal_strlit("set_space:");
    reveal_strlit("snake");
    reveal_strlit("title");
    reveal_strlit("~|");
    let s = plover_one(Directive::CaseMode(Case::Upper));
    let b = seq!['m', 'o', 'd', 'e', ':', 'c', 'a', 'p', 's'];
    assert(s =~= seq!['{'] + b + seq!['}']);
    assert(!is_blank(b)) by {
        assert(b[0] == 'm');
    }
    lemma_not_at_nocase(b, 0, "plover:"@, 0);
    lemma_not_at(b, 0, "*("@, 0);
    lemma_not_at(b, 0, "~|"@, 0);
    let a = b.skip(5);
    assert(a =~= seq!['c', 'a', 'p', 's']);
    assert(eq_nocase(a, "caps"@)) by {
        assert forall|k: int| 0 <= k < a.len() implies #[trigger] fold(a[k]) == "caps"@[k] as u32 by {
        }
    }
    lemma_plover_braced(s, b);
    assert(crate::plover::braced(b) == Directive::CaseMode(Case::Upper));
}

#[verifier::spinoff_prover]
proof fn lemma_plover_case_title()
    ensures
        parse_plover(plover_one(Directive::CaseMode(Case::Title))) == seq![Directive::CaseMode(Case::Title)],
{
    reveal_strlit("{mode:title}");
    reveal_strlit("{#return}{#return}");
    reveal_strlit("!");
    reveal_strlit("#");
    reveal_strlit("*");
    reveal_strlit("*!");
    reveal_strlit("*(");
    reveal_strlit("*+");
    reveal_strlit("*-|");
    reveal_strlit("*<");
    reveal_strlit("*>");
    reveal_strlit("*?");
    reveal_strlit(",");
    reveal_strlit("-");
    reveal_strlit("--");
    reveal_strlit("-|");
    reveal_strlit(".");
    reveal_strlit("...");
    reveal_strlit(":");
    reveal_strlit(":retro_currency:");
    reveal_strlit(";");
    reveal_strlit("<");
    reveal_strlit(">");
    reveal_strlit("?");
    reveal_strlit("^");
    reveal_strlit("camel");
    reveal_strlit("caps");
    reveal_strlit("l+");
    reveal_strlit("l-");
    reveal_strlit("lower");
    reveal_strlit("mode:");
    reveal_strlit("plover:");
    reveal_strlit("reset");
    reveal_strlit("reset_case");
    reveal_strlit("reset_space");
    reveal_strlit("set_space:");
    reveal_strlit("snake");
    reveal_strlit("title");
    reveal_strlit("~|");
    let s = plover_one(Directive::CaseMode(Case::Title));
    let b = seq!['m', 'o', 'd', 'e', ':', 't', 'i', 't', 'l', 'e'];
    assert(s =~= seq!['{'] + b + seq!['}']);
    assert(!is_blank(b)) by {
        assert(b[0] == 'm');
    }
    lemma_not_at_nocase(b, 0, "plover:"@, 0);
    lemma_not_at(b, 0, "*("@, 0);
    lemma_not_at(b, 0, "~|"@, 0);
    let a = b.skip(5);
    assert(a =~= seq!['t', 'i', 't', 'l', 'e']);
    assert(!eq_nocase(a, "lower"@)) by {
        lemma_not_at_nocase(a, 0, "lower"@, 0);
    }
    assert(eq_nocase(a, "title"@)) by {
        assert forall|k: int| 0 <= k < a.len() implies #[trigger] fold(a[k]) == "title"@[k] as u32 by {
        }
    }
    lemma_plover_braced(s, b);
    assert(crate::plover::braced(b) == Directive::CaseMode(Case::Title));
}

#[verifier::spinoff_prover]
proof fn lemma_plover_case_camel()
    ensures
        parse_plover(plover_one(Directive::CaseMode(Case::Camel))) == seq![Directive::CaseMode(Case::Camel)],
{
    reveal_strlit("{mode:camel}");
    reveal_strlit("{#return}{#return}");
    reveal_strlit("!");
    reveal_strlit("#");
    reveal_strlit("*");
    reveal_strlit("*!");
    reveal_strlit("*(");
    reveal_strlit("*+");
    reveal_strlit("*-|");
    reveal_strlit("*<");
    reveal_strlit("*>");
    reveal_strlit("*?");
    reveal_strlit(",");
    reveal_strlit("-");
    reveal_strlit("--");
    reveal_strlit("-|");
    reveal_strlit(".");
    reveal_strlit("...");
    reveal_strlit(":");
    reveal_strlit(":retro_currency:");
    reveal_strlit(";");
    reveal_strlit("<");
    reveal_strlit(">");
    reveal_strlit("?");
    reveal_strlit("^");
    reveal_strlit("camel");
    reveal_strlit("caps");
    reveal_strlit("l+");
    reveal_strlit("l-");
    reveal_strlit("lower");
    reveal_strlit("mode:");
    reveal_strlit("plover:");
    reveal_strlit("reset");
    reveal_strlit("reset_case");
    reveal_strlit("reset_space");
    reveal_strlit("set_space:");
    reveal_strlit("snake");
    reveal_strlit("title");
    reveal_strlit("~|");
    let s = plover_one(Directive::CaseMode(Case::Camel));
    let b = seq!['m', 'o', 'd', 'e', ':', 'c', 'a', 'm', 'e', 'l'];
    assert(s =~= seq!['{'] + b + seq!['}']);
    assert(!is_blank(b)) by {
        assert(b[0] == 'm');
    }
    lemma_not_at_nocase(b, 0, "plover:"@, 0);
    lemma_not_at(b, 0, "*("@, 0);
    lemma_not_at(b, 0, "~|"@, 0);
    let a = b.skip(5);
    assert(a =~= seq!['c', 'a', 'm', 'e', 'l']);
    assert(!eq_nocase(a, "lower"@)) by {
        lemma_not_at_nocase(a, 0, "lower"@, 0);
    }
    assert(!eq_nocase(a, "title"@)) by {
        lemma_not_at_nocase(a, 0, "title"@, 0);
    }
    assert(eq_nocase(a, "camel"@)) by {
        assert forall|k: int| 0 <= k < a.len() implies #[trigger] fold(a[k]) == "camel"@[k] as u32 by {
        }
    }
    lemma_plover_braced(s, b);
    assert(crate::plover::braced(b) == Directive::CaseMode(Case::Camel));
}

#[verifier::spinoff_prover]
proof fn lemma_plover_case_snake()
    ensures
        parse_plover(plover_one(Directive::CaseMode(Case::Snake))) == seq![Directive::CaseMode(Case::Snake)],
{
    reveal_strlit("{mode:snake}");
    reveal_strlit("{#return}{#return}");
    reveal_strlit("!");
    reveal_strlit("#");
    reveal_strlit("*");
    reveal_strlit("*!");
    reveal_strlit("*(");
    reveal_strlit("*+");
    reveal_strlit("*-|");
    reveal_strlit("*<");
    reveal_strlit("*>");
    reveal_strlit("*?");
    reveal_strlit(",");
    reveal_strlit("-");
    reveal_strlit("--");
    reveal_strlit("-|");
    reveal_strlit(".");
    reveal_strlit("...");
    reveal_strlit(":");
    reveal_strlit(":retro_currency:");
    reveal_strlit(";");
    reveal_strlit("<");
    reveal_strlit(">");
    reveal_strlit("?");
    reveal_strlit("^");
    reveal_strlit("camel");
    reveal_strlit("caps");
    reveal_strlit("l+");
    reveal_strlit("l-");
    reveal_strlit("lower");
    reveal_strlit("mode:");
    reveal_strlit("plover:");
    reveal_strlit("reset");
    reveal_strlit("reset_case");
    reveal_strlit("reset_space");
    reveal_strlit("set_space:");
    reveal_strlit("snake");
    reveal_strlit("title");
    reveal_strlit("~|");
    let s = plover_one(Directive::CaseMode(Case::Snake));
    let b = seq!['m', 'o', 'd', 'e', ':', 's', 'n', 'a', 'k', 'e'];
    assert(s =~= seq!['{'] + b + seq!['}']);
    assert(!is_blank(b)) by {
        assert(b[0] == 'm');
    }
    lemma_not_at_nocase(b, 0, "plover:"@, 0);
    lemma_not_at(b, 0, "*("@, 0);
    lemma_not_at(b, 0, "~|"@, 0);
    let a = b.skip(5);
    assert(a =~= seq!['s', 'n', 'a', 'k', 'e']);
    assert(!eq_nocase(a, "lower"@)) by {
        lemma_not_at_nocase(a, 0, "lower"@, 0);
    }
    assert(!eq_nocase(a, "title"@)) by {
        lemma_not_at_nocase(a, 0, "title"@, 0);
    }
    assert(!eq_nocase(a, "camel"@)) by {
        lemma_not_at_nocase(a, 0, "camel"@, 0);
    }
    assert(eq_nocase(a, "snake"@)) by {
        assert forall|k: int| 0 <= k < a.len() implies #[trigger] fold(a[k]) == "snake"@[k] as u32 by {
        }
    }
    lemma_plover_braced(s, b);
    assert(crate::plover::braced(b) == Directive::CaseMode(Case::Snake));
}

#[verifier::spinoff_prover]
proof fn lemma_plover_reset_space()
    ensures
        parse_plover(plover_one(Directive::SpaceMode(None))) == seq![Directive::SpaceMode(None)],
{
    reveal_strlit("{mode:reset_space}");
    reveal_strlit("{#return}{#return}");
    reveal_strlit("!");
    reveal_strlit("#");
    reveal_strlit("*");
    reveal_strlit("*!");
    reveal_strlit("*(");
    reveal_strlit("*+");
    reveal_strlit("*-|");
    reveal_strlit("*<");
    reveal_strlit("*>");
    reveal_strlit("*?");
    reveal_strlit(",");
    reveal_strlit("-");
    reveal_strlit("--");
    reveal_strlit("-|");
    reveal_strlit(".");
    reveal_strlit("...");
    reveal_strlit(":");
    reveal_strlit(":retro_currency:");
    reveal_strlit(";");
    reveal_strlit("<");
    reveal_strlit(">");
    reveal_strlit("?");
    reveal_strlit("^");
    reveal_strlit("camel");
    reveal_strlit("caps");
    reveal_strlit("l+");
    reveal_strlit("l-");
    reveal_strlit("lower");
    reveal_strlit("mode:");
    reveal_strlit("plover:");
    reveal_strlit("reset");
    reveal_strlit("reset_case");
    reveal_strlit("reset_space");
    reveal_strlit("set_space:");
    reveal_strlit("snake");
    reveal_strlit("title");
    reveal_strlit("~|");
    let s = plover_one(Directive::SpaceMode(None));
    let b = seq!['m', 'o', 'd', 'e', ':', 'r', 'e', 's', 'e', 't', '_', 's', 'p', 'a', 'c', 'e'];
    assert(s =~= seq!['{'] + b + seq!['}']);
    lemma_not_at_nocase(s, 0, "{#return}{#return}"@, 1);
    assert(!is_blank(b)) by {
        assert(b[0] == 'm');
    }
    lemma_not_at_nocase(b, 0, "plover:"@, 0);
    lemma_not_at(b, 0, "*("@, 0);
    lemma_not_at(b, 0, ":retro_currency:"@, 0);
    lemma_not_at(b, 0, "~|"@, 0);
    let a = b.skip(5);
    assert(a =~= seq!['r', 'e', 's', 'e', 't', '_', 's', 'p', 'a', 'c', 'e']);
    lemma_not_at_nocase(a, 0, "set_space:"@, 0);
    assert(eq_nocase(a, "reset_space"@)) by {
        assert forall|k: int| 0 <= k < a.len() implies #[trigger] fold(a[k]) == "reset_space"@[k] as u32 by {
        }
    }
    lemma_plover_braced(s, b);
    assert(crate::plover::braced(b) == Directive::SpaceMode(None));
}

#[verifier::spinoff_prover]
proof fn lemma_plover_reset()
    ensures
        parse_plover(plover_one(Directive::ResetCaseAndSpace)) == seq![Directive::ResetCaseAndSpace],
{
    reveal_strlit("{mode:reset}");
    reveal_strlit("{#return}{#return}");
    reveal_strlit("!");
    reveal_strlit("#");
    reveal_strlit("*");
    reveal_strlit("*!");
    reveal_strlit("*(");
    reveal_strlit("*+");
    reveal_strlit("*-|");
    reveal_strlit("*<");
    reveal_strlit("*>");
    reveal_strlit("*?");
    reveal_strlit(",");
    reveal_strlit("-");
    reveal_strlit("--");
    reveal_strlit("-|");
    reveal_strlit(".");
    reveal_strlit("...");
    reveal_strlit(":");
    reveal_strlit(":retro_currency:");
    reveal_strlit(";");
    reveal_strlit("<");
    reveal_strlit(">");
    reveal_strlit("?");
    reveal_strlit("^");
    reveal_strlit("camel");
    reveal_strlit("caps");
    reveal_strlit("l+");
    reveal_strlit("l-");
    reveal_strlit("lower");
    reveal_strlit("mode:");
    reveal_strlit("plover:");
    reveal_strlit("reset");
    reveal_strlit("reset_case");
    reveal_strlit("reset_space");
    reveal_strlit("set_space:");
    reveal_strlit("snake");
    reveal_strlit("title");
    reveal_strlit("~|");
    let s = plover_one(Directive::ResetCaseAndSpace);
    let b = seq!['m', 'o', 'd', 'e', ':', 'r', 'e', 's', 'e', 't'];
    assert(s =~= seq!['{'] + b + seq!['}']);
    assert(!is_blank(b)) by {
        assert(b[0] == 'm');
    }
    lemma_not_at_nocase(b, 0, "plover:"@, 0);
    lemma_not_at(b, 0, "*("@, 0);
    lemma_not_at(b, 0, "~|"@, 0);
    let a = b.skip(5);
    assert(a =~= seq!['r', 'e', 's', 'e', 't']);
    assert(!eq_nocase(a, "lower"@)) by {
        lemma_not_at_nocase(a, 0, "lower"@, 0);
    }
    assert(!eq_nocase(a, "title"@)) by {
        lemma_not_at_nocase(a, 0, "title"@, 0);
    }
    assert(!eq_nocase(a, "camel"@)) by {
        lemma_not_at_nocase(a, 0, "camel"@, 0);
    }
    assert(!eq_nocase(a, "snake"@)) by {
        lemma_not_at_nocase(a, 0, "snake"@, 0);
    }
    assert(eq_nocase(a, "reset"@)) by {
        assert forall|k: int| 0 <= k < a.len() implies #[trigger] fold(a[k]) == "reset"@[k] as u32 by {
        }
    }
    lemma_plover_braced(s, b);
    assert(crate::plover::braced(b) == Directive::ResetCaseAndSpace);
}

#[verifier::spinoff_prover]
proof fn lemma_plover_paragraph(m: ParagraphMode)
    ensures
        parse_plover(plover_one(Directive::Paragraph(m))) == seq![Directive::Paragraph(m)],
{
    reveal_strlit("{#return}{#return}");
    reveal_strlit("{#return}{#return}    ");
    reveal_strlit("    ");
    let s = plover_one(Directive::Paragraph(m));
    let n = s.len() as int;
    assert forall|k: int| 0 <= k < 18 implies #[trigger] fold(s[k]) == "{#return}{#return}"@[k] as u32
        by {
    }
    if m == ParagraphMode::Contin {
        assert(s.subrange(18, 22) =~= "    "@);
    }
    assert(plover_step(s, 0) == (Directive::Paragraph(m), n));
    assert(plover_items(s, n) =~= Seq::<Directive>::empty());
    assert(parse_plover(s) =~= seq![Directive::Paragraph(m)]);
}

/// A directive without text whose Plover spelling is braced (every one but
/// the internal orthographic marker and the `=undo` macro, whose reading
/// rests on lower-casing its name).
pub open spec fn plover_fixed(d: Directive) -> bool {
    match d {
        Directive::Cancel => true,
        Directive::Noop => true,
        Directive::Space => true,
        Directive::HardSpace => true,
        Directive::AttachRaw => true,
        Directive::RepeatLastStroke => true,
        Directive::RetroToggleStar => true,
        Directive::RetroInsertSpace => true,
        Directive::RetroDeleteSpace => true,
        Directive::ForceCapitalize => true,
        Directive::ForceLowercase => true,
        Directive::RetroForceCapitalize => true,
        Directive::RetroForceLowercase => true,
        Directive::ForceCapitalizeWord => true,
        Directive::RetroForceCapitalizeWord => true,
        Directive::CaseMode(Case::Sentence) => true,
        Directive::CaseMode(Case::Lower) => true,
        Directive::CaseMode(Case::Upper) => true,
        Directive::CaseMode(Case::Title) => true,
        Directive::CaseMode(Case::Camel) => true,
        Directive::CaseMode(Case::Snake) => true,
        Directive::SpaceMode(None) => true,
        Directive::ResetCaseAndSpace => true,
        Directive::Paragraph(ParagraphMode::Default) => true,
        Directive::Paragraph(ParagraphMode::Contin) => true,
        _ => false,
    }
}

/// Each directive without text reads back from its Plover rendering as
/// exactly itself.
pub proof fn lemma_plover_round_trip_fixed(d: Directive)
    requires
        plover_fixed(d),
    ensures
        parse_plover(plover_one(d)) == seq![d],
{
    match d {
        Directive::Cancel => lemma_plover_cancel(),
        Directive::Noop => lemma_plover_noop(),
        Directive::Space => lemma_plover_space(),
        Directive::HardSpace => lemma_plover_hard_space(),
        Directive::AttachRaw => lemma_plover_attach(),
        Directive::RepeatLastStroke => lemma_plover_repeat(),
        Directive::RetroToggleStar => lemma_plover_toggle_star(),
        Directive::RetroInsertSpace => lemma_plover_insert_space(),
        Directive::RetroDeleteSpace => lemma_plover_delete_space(),
        Directive::ForceCapitalize => lemma_plover_force_cap(),
        Directive::ForceLowercase => lemma_plover_force_lower(),
        Directive::RetroForceCapitalize => lemma_plover_retro_force_cap(),
        Directive::RetroForceLowercase => lemma_plover_retro_force_lower(),
        Directive::ForceCapitalizeWord => lemma_plover_force_cap_word(),
        Directive::RetroForceCapitalizeWord => lemma_plover_retro_force_cap_word(),
        Directive::CaseMode(Case::Sentence) => lemma_plover_case_sentence(),
        Directive::CaseMode(Case::Lower) => lemma_plover_case_lower(),
        Directive::CaseMode(Case::Upper) => lemma_plover_case_upper(),
        Directive::CaseMode(Case::Title) => lemma_plover_case_title(),
        Directive::CaseMode(Case::Camel) => lemma_plover_case_camel(),
        Directive::CaseMode(Case::Snake) => lemma_plover_case_snake(),
        Directive::SpaceMode(None) => lemma_plover_reset_space(),
        Directive::ResetCaseAndSpace => lemma_plover_reset(),
        Directive::Paragraph(ParagraphMode::Default) => lemma_plover_paragraph(ParagraphMode::Default),
        Directive::Paragraph(ParagraphMode::Contin) => lemma_plover_paragraph(ParagraphMode::Contin),
        _ => {},
    }
}

#[verifier::spinoff_prover]
proof fn lemma_rtf_arg(s: Seq<char>, lab: Seq<char>, arg: Seq<char>)
    requires
        s == "{\\*\\cxplvr"@ + lab + " "@ + arg + "}"@,
        lab.len() > 0,
        forall|k: int| 0 <= k < lab.len() ==> is_alpha(#[trigger] lab[k]),
        lacks(arg, '}'),
        long_groups_absent(s),
    ensures
        parse_rtf(s) == match crate::rtf::arg_group(lab, arg) {
            Some(d) => seq![d],
            None => Seq::<Directive>::empty(),
        },
{
    reveal_strlit("{\\*\\cxplvr");
    reveal_strlit(" ");
    reveal_strlit("}");
    let nl = lab.len() as int;
    let na = arg.len() as int;
    let n = 12 + nl + na;
    lemma_no_char(arg, '}');
    assert(s =~= seq!['{', '\\', '*', '\\', 'c', 'x', 'p', 'l', 'v', 'r'] + lab + seq![' '] + arg
        + seq!['}']);
    assert(s.subrange(0, 10) =~= "{\\*\\cxplvr"@);
    assert forall|k: int| 10 <= k < 10 + nl implies is_alpha(#[trigger] s[k]) by {
        assert(s[k] == lab[k - 10]);
    }
    lemma_alpha_end_at(s, 10, 10 + nl);
    assert(crate::rtf::number_end(s, 10 + nl) == 10 + nl);
    assert forall|k: int| 11 + nl <= k < n - 1 implies !seq!['}'].contains(#[trigger] s[k]) by {
        lemma_single('}', s[k]);
        assert(s[k] == arg[k - 11 - nl]);
    }
    lemma_single('}', s[n - 1]);
    lemma_scan_to(s, 11 + nl, seq!['}'], n - 1);
    assert(s.subrange(10, 10 + nl) =~= lab);
    assert(s.subrange(11 + nl, n - 1) =~= arg);
    assert(crate::rtf::cxplvr_group(s, 0) == Some((crate::rtf::arg_group(lab, arg), n)));
    assert(rtf_items(s, n) =~= Seq::<Directive>::empty());
    match crate::rtf::arg_group(lab, arg) {
        Some(d) => {
            assert(parse_rtf(s) =~= seq![d]);
        },
        None => {
            assert(parse_rtf(s) =~= Seq::<Directive>::empty());
        },
    }
}

proof fn lemma_long_absent_after(s: Seq<char>, lab: Seq<char>)
    requires
        s.len() >= 10 + lab.len(),
        s.subrange(0, 10) == "{\\*\\cxplvr"@,
        s.subrange(10, 10 + lab.len() as int) == lab,
        lab.len() >= 2,
        lab[0] != 'c' || lab[1] != 'a',
    ensures
        long_groups_absent(s),
{
    reveal_strlit("{\\*\\cxplvr");
    reveal_strlit("{\\*\\cxplvrcase0\\cxplvrspc0}");
    reveal_strlit("{\\*\\cxplvrcase4\\cxplvrspc}");
    reveal_strlit("{\\*\\cxplvrcase0\\cxplvrspc _}");
    assert(s.subrange(10, 10 + lab.len() as int)[0] == s[10]);
    assert(s.subrange(10, 10 + lab.len() as int)[1] == s[11]);
    if lab[0] != 'c' {
        lemma_not_at(s, 0, "{\\*\\cxplvrcase0\\cxplvrspc0}"@, 10);
        lemma_not_at(s, 0, "{\\*\\cxplvrcase4\\cxplvrspc}"@, 10);
        lemma_not_at(s, 0, "{\\*\\cxplvrcase0\\cxplvrspc _}"@, 10);
    } else {
        lemma_not_at(s, 0, "{\\*\\cxplvrcase0\\cxplvrspc0}"@, 11);
        lemma_not_at(s, 0, "{\\*\\cxplvrcase4\\cxplvrspc}"@, 11);
        lemma_not_at(s, 0, "{\\*\\cxplvrcase0\\cxplvrspc _}"@, 11);
    }
}

/// `NAME` or `NAME:ARG` splits back into its name and argument when the
/// name holds no colon.
proof fn lemma_split_name_arg(n: Seq<char>, a: Option<Seq<char>>)
    requires
        lacks(n, ':'),
    ensures
        crate::plover::head(crate::plover::name_arg(n, a)) == n,
        crate::plover::tail_arg(crate::plover::name_arg(n, a)) == a,
{
    reveal_strlit(":");
    let x = crate::plover::name_arg(n, a);
    lemma_no_char(n, ':');
    let nn = n.len() as int;
    match a {
        Some(t) => {
            assert(x =~= n + seq![':'] + t);
            assert forall|k: int| 0 <= k < nn implies !seq![':'].contains(#[trigger] x[k]) by {
                lemma_single(':', x[k]);
                assert(x[k] == n[k]);
            }
            lemma_single(':', x[nn]);
            lemma_scan_to(x, 0, seq![':'], nn);
            assert(x.take(nn) =~= n);
            assert(x.skip(nn + 1) =~= t);
        },
        None => {
            assert(x == n);
            lemma_scan_past(n, 0, seq![':']);
            assert(n.take(nn) =~= n);
        },
    }
}

#[verifier::spinoff_prover]
proof fn lemma_rtf_cmd(n: Seq<char>, a: Option<Seq<char>>)
    requires
        lower_of(n) == n,
        lacks(n, ':'),
        lacks(n, '}'),
        a matches Some(x) ==> lacks(x, '}'),
    ensures
        parse_rtf(rtf_one(Directive::Command(n, a))) == seq![Directive::Command(n, a)],
{
    reveal_strlit("{\\*\\cxplvrcmd ");
    reveal_strlit("{\\*\\cxplvr");
    reveal_strlit(" ");
    reveal_strlit("}");
    reveal_strlit(":");
    reveal_strlit("meta");
    reveal_strlit("mac");
    reveal_strlit("cmd");
    let lab = seq!['c', 'm', 'd'];
    assert(lab =~= "cmd"@);
    let arg = crate::plover::name_arg(n, a);
    let s = rtf_one(Directive::Command(n, a));
    assert(s =~= "{\\*\\cxplvr"@ + lab + " "@ + arg + "}"@);
    lemma_no_char(n, '}');
    match a {
        Some(x) => {
            lemma_no_char(x, '}');
            assert forall|k: int| 0 <= k < arg.len() implies #[trigger] arg[k] != '}' by {
                assert(arg =~= n + seq![':'] + x);
                if k < n.len() {
                    assert(arg[k] == n[k]);
                } else if k > n.len() {
                    assert(arg[k] == x[k - n.len() - 1]);
                }
            }
        },
        None => {},
    }
    lemma_lacks(arg, '}');
    assert(s.subrange(0, 10) =~= "{\\*\\cxplvr"@);
    assert(s.subrange(10, 10 + lab.len() as int) =~= lab);
    lemma_long_absent_after(s, lab);
    lemma_rtf_arg(s, lab, arg);
    assert(lab != "mac"@) by {
        assert(lab[0] != "mac"@[0]);
    }
    lemma_split_name_arg(n, a);
}
#[verifier::spinoff_prover]
proof fn lemma_rtf_meta(n: Seq<char>, a: Option<Seq<char>>)
    requires
        lower_of(n) == n,
        lacks(n, ':'),
        lacks(n, '}'),
        a matches Some(x) ==> lacks(x, '}'),
    ensures
        parse_rtf(rtf_one(Directive::Meta(n, a))) == seq![Directive::Meta(n, a)],
{
    reveal_strlit("{\\*\\cxplvrmeta ");
    reveal_strlit("{\\*\\cxplvr");
    reveal_strlit(" ");
    reveal_strlit("}");
    reveal_strlit(":");
    reveal_strlit("meta");
    reveal_strlit("mac");
    reveal_strlit("cmd");
    let lab = seq!['m', 'e', 't', 'a'];
    assert(lab =~= "meta"@);
    let arg = crate::plover::name_arg(n, a);
    let s = rtf_one(Directive::Meta(n, a));
    assert(s =~= "{\\*\\cxplvr"@ + lab + " "@ + arg + "}"@);
    lemma_no_char(n, '}');
    match a {
        Some(x) => {
            lemma_no_char(x, '}');
            assert forall|k: int| 0 <= k < arg.len() implies #[trigger] arg[k] != '}' by {
                assert(arg =~= n + seq![':'] + x);
                if k < n.len() {
                    assert(arg[k] == n[k]);
                } else if k > n.len() {
                    assert(arg[k] == x[k - n.len() - 1]);
                }
            }
        },
        None => {},
    }
    lemma_lacks(arg, '}');
    assert(s.subrange(0, 10) =~= "{\\*\\cxplvr"@);
    assert(s.subrange(10, 10 + lab.len() as int) =~= lab);
    lemma_long_absent_after(s, lab);
    lemma_rtf_arg(s, lab, arg);
    lemma_split_name_arg(n, a);
}
#[verifier::spinoff_prover]
proof fn lemma_rtf_mac(n: Seq<char>, a: Option<Seq<char>>)
    requires
        lower_of(n) == n,
        lacks(n, ':'),
        lacks(n, '}'),
        a matches Some(x) ==> lacks(x, '}'),
    ensures
        parse_rtf(rtf_one(Directive::Macro(n, a))) == seq![Directive::Macro(n, a)],
{
    reveal_strlit("{\\*\\cxplvrmac ");
    reveal_strlit("{\\*\\cxplvr");
    reveal_strlit(" ");
    reveal_strlit("}");
    reveal_strlit(":");
    reveal_strlit("meta");
    reveal_strlit("mac");
    reveal_strlit("cmd");
    let lab = seq!['m', 'a', 'c'];
    assert(lab =~= "mac"@);
    let arg = crate::plover::name_arg(n, a);
    let s = rtf_one(Directive::Macro(n, a));
    assert(s =~= "{\\*\\cxplvr"@ + lab + " "@ + arg + "}"@);
    lemma_no_char(n, '}');
    match a {
        Some(x) => {
            lemma_no_char(x, '}');
            assert forall|k: int| 0 <= k < arg.len() implies #[trigger] arg[k] != '}' by {
                assert(arg =~= n + seq![':'] + x);
                if k < n.len() {
                    assert(arg[k] == n[k]);
                } else if k > n.len() {
                    assert(arg[k] == x[k - n.len() - 1]);
                }
            }
        },
        None => {},
    }
    lemma_lacks(arg, '}');
    assert(s.subrange(0, 10) =~= "{\\*\\cxplvr"@);
    assert(s.subrange(10, 10 + lab.len() as int) =~= lab);
    lemma_long_absent_after(s, lab);
    lemma_rtf_arg(s, lab, arg);
    lemma_split_name_arg(n, a);
}
#[verifier::spinoff_prover]
proof fn lemma_rtf_spc(x: Seq<char>)
    requires
        x != " "@,
        lacks(x, '}'),
    ensures
        parse_rtf(rtf_one(Directive::SpaceMode(Some(x)))) == seq![Directive::SpaceMode(Some(x))],
{
    reveal_strlit("{\\*\\cxplvrspc ");
    reveal_strlit("{\\*\\cxplvr");
    reveal_strlit(" ");
    reveal_strlit("}");
    reveal_strlit("meta");
    reveal_strlit("mac");
    reveal_strlit("cmd");
    reveal_strlit("spc");
    let lab = seq!['s', 'p', 'c'];
    assert(lab =~= "spc"@);
    let s = rtf_one(Directive::SpaceMode(Some(x)));
    assert(s =~= "{\\*\\cxplvr"@ + lab + " "@ + x + "}"@);
    assert(s.subrange(0, 10) =~= "{\\*\\cxplvr"@);
    assert(s.subrange(10, 13) =~= lab);
    lemma_long_absent_after(s, lab);
    lemma_rtf_arg(s, lab, x);
    assert(lab != "mac"@) by {
        assert(lab[0] != "mac"@[0]);
    }
    assert(lab != "cmd"@) by {
        assert(lab[0] != "cmd"@[0]);
    }
}

#[verifier::spinoff_prover]
proof fn lemma_rtf_key(k: Seq<char>)
    requires
        trimmed(k) == k,
        lacks(k, '}'),
    ensures
        parse_rtf(rtf_one(Directive::KeyCombo(k))) == seq![Directive::KeyCombo(k)],
{
    reveal_strlit("{\\*\\cxplvrkey ");
    reveal_strlit("{\\*\\cxplvr");
    reveal_strlit(" ");
    reveal_strlit("}");
    reveal_strlit("meta");
    reveal_strlit("mac");
    reveal_strlit("cmd");
    reveal_strlit("spc");
    reveal_strlit("key");
    let lab = seq!['k', 'e', 'y'];
    assert(lab =~= "key"@);
    let s = rtf_one(Directive::KeyCombo(k));
    assert(s =~= "{\\*\\cxplvr"@ + lab + " "@ + k + "}"@);
    assert(s.subrange(0, 10) =~= "{\\*\\cxplvr"@);
    assert(s.subrange(10, 13) =~= lab);
    lemma_long_absent_after(s, lab);
    lemma_rtf_arg(s, lab, k);
    assert(lab != "mac"@) by {
        assert(lab[0] != "mac"@[0]);
    }
    assert(lab != "cmd"@) by {
        assert(lab[0] != "cmd"@[0]);
    }
    assert(lab != "spc"@) by {
        assert(lab[0] != "spc"@[0]);
    }
}

/// A directive with text whose RTF spelling reads back as itself: names
/// already in lower case and without `:`, texts without `}` (the key combination already trimmed,
/// the spacer other than a single space, the currency prefix without `c`,
/// and no empty currency side written as present).
pub open spec fn rtf_text_directive(d: Directive) -> bool {
    match d {
        Directive::Command(n, a) => lower_of(n) == n && lacks(n, ':') && lacks(n, '}') && (a matches Some(x) ==> lacks(
            x,
            '}',
        )),
        Directive::Meta(n, a) => lower_of(n) == n && lacks(n, ':') && lacks(n, '}') && (a matches Some(x) ==> lacks(
            x,
            '}',
        )),
        Directive::Macro(n, a) => lower_of(n) == n && lacks(n, ':') && lacks(n, '}') && (a matches Some(x) ==> lacks(
            x,
            '}',
        )),
        Directive::SpaceMode(Some(x)) => x != " "@ && lacks(x, '}'),
        Directive::KeyCombo(k) => trimmed(k) == k && lacks(k, '}'),
        Directive::Currency(l, r) => norm(l) == l && norm(r) == r && lacks(or_empty(l), 'c')
            && lacks(or_empty(l), '}') && lacks(or_empty(r), '}') && lacks(or_empty(r), ')'),
        _ => false,
    }
}

/// Each directive with text described by `rtf_text_directive` reads back
/// from its RTF rendering as exactly itself.
pub proof fn lemma_rtf_round_trip_text(d: Directive)
    requires
        rtf_text_directive(d),
    ensures
        parse_rtf(rtf_one(d)) == seq![d],
{
    match d {
        Directive::Command(n, a) => lemma_rtf_cmd(n, a),
        Directive::Meta(n, a) => lemma_rtf_meta(n, a),
        Directive::Macro(n, a) => lemma_rtf_mac(n, a),
        Directive::SpaceMode(Some(x)) => lemma_rtf_spc(x),
        Directive::KeyCombo(k) => lemma_rtf_key(k),
        Directive::Currency(l, r) => {
            lemma_currency_rtf(or_empty(l), or_empty(r));
            lemma_or_nonempty(or_empty(l));
            lemma_or_nonempty(or_empty(r));
            reveal_strlit("c");
            assert(rtf_one(d) =~= "{\\*\\cxplvrcurr "@ + or_empty(l) + "c"@ + or_empty(r) + "}"@);
            assert(nonempty(or_empty(l)) == l);
            assert(nonempty(or_empty(r)) == r);
        },
        _ => {},
    }
}

proof fn lemma_key_not_paragraph(s: Seq<char>, x: Seq<char>)
    requires
        s == seq!['{', '#'] + x + seq!['}'],
        forall|k: int| 0 <= k < x.len() ==> #[trigger] x[k] != '}',
    ensures
        !at_nocase(s, 0, "{#return}{#return}"@),
{
    reveal_strlit("{#return}{#return}");
    if s.len() >= 18 {
        let c = s[8];
        assert(c == x[6]);
        vstd::utf8::char_u32_cast(c, c as u32);
        vstd::utf8::char_u32_cast('}', '}' as u32);
        assert(fold(c) != '}' as u32);
        lemma_not_at_nocase(s, 0, "{#return}{#return}"@, 8);
    }
}

#[verifier::spinoff_prover]
proof fn lemma_plover_fing(x: Seq<char>)
    requires
        lacks(x, '}'),
    ensures
        parse_plover(plover_one(Directive::Fingerspell(x))) == seq![Directive::Fingerspell(x)],
{
    reveal_strlit("!");
    reveal_strlit("#");
    reveal_strlit("*");
    reveal_strlit("*!");
    reveal_strlit("*(");
    reveal_strlit("*+");
    reveal_strlit("*-|");
    reveal_strlit("*<");
    reveal_strlit("*>");
    reveal_strlit("*?");
    reveal_strlit(",");
    reveal_strlit("-");
    reveal_strlit("--");
    reveal_strlit("-|");
    reveal_strlit(".");
    reveal_strlit("...");
    reveal_strlit(":");
    reveal_strlit(":retro_currency:");
    reveal_strlit(";");
    reveal_strlit("<");
    reveal_strlit(">");
    reveal_strlit("?");
    reveal_strlit("^");
    reveal_strlit("l+");
    reveal_strlit("l-");
    reveal_strlit("mode:");
    reveal_strlit("plover:");
    reveal_strlit("{#return}{#return}");
    reveal_strlit("~|");
    reveal_strlit("{&");
    reveal_strlit("}");
    let b = seq!['&'] + x + Seq::<char>::empty();
    let s = plover_one(Directive::Fingerspell(x));
    assert(s =~= seq!['{'] + b + seq!['}']);
    lemma_no_char(x, '}');
    assert forall|k: int| 0 <= k < b.len() implies #[trigger] b[k] != '}' by {
        if 1 <= k < 1 + x.len() {
            assert(b[k] == x[k - 1]);
        }
    }
    lemma_not_at_nocase(s, 0, "{#return}{#return}"@, 1);
    assert(b[0] == '&');
    assert(b != "#"@) by {
        assert(b[0] != "#"@[0]);
    }
    assert(!is_blank(b));
    lemma_not_at_nocase(b, 0, "plover:"@, 0);
    lemma_not_at_nocase(b, 0, "mode:"@, 0);
    lemma_not_at(b, 0, "*("@, 0);
    lemma_not_at(b, 0, ":retro_currency:"@, 0);
    assert(b != "..."@) by {
        assert(b[0] != "..."@[0]);
    }
    assert(b != "--"@) by {
        assert(b[0] != "--"@[0]);
    }
    assert(b != "-"@) by {
        assert(b[0] != "-"@[0]);
    }
    assert(b != "."@) by {
        assert(b[0] != "."@[0]);
    }
    assert(b != ","@) by {
        assert(b[0] != ","@[0]);
    }
    assert(b != ":"@) by {
        assert(b[0] != ":"@[0]);
    }
    assert(b != ";"@) by {
        assert(b[0] != ";"@[0]);
    }
    assert(b != "?"@) by {
        assert(b[0] != "?"@[0]);
    }
    assert(b != "!"@) by {
        assert(b[0] != "!"@[0]);
    }
    assert(b != "^"@) by {
        assert(b[0] != "^"@[0]);
    }
    assert(b != "-|"@) by {
        assert(b[0] != "-|"@[0]);
    }
    assert(b != "l-"@) by {
        assert(b[0] != "l-"@[0]);
    }
    assert(b != "*-|"@) by {
        assert(b[0] != "*-|"@[0]);
    }
    assert(b != "*+"@) by {
        assert(b[0] != "*+"@[0]);
    }
    assert(b != "*?"@) by {
        assert(b[0] != "*?"@[0]);
    }
    assert(b != "*!"@) by {
        assert(b[0] != "*!"@[0]);
    }
    assert(b != "*<"@) by {
        assert(b[0] != "*<"@[0]);
    }
    assert(b != "*>"@) by {
        assert(b[0] != "*>"@[0]);
    }
    assert(b != "*"@) by {
        assert(b[0] != "*"@[0]);
    }
    assert(b != "<"@) by {
        assert(b[0] != "<"@[0]);
    }
    assert(b != ">"@) by {
        assert(b[0] != ">"@[0]);
    }
    assert(b != "l+"@) by {
        assert(b[0] != "l+"@[0]);
    }
    lemma_not_at(b, 0, "~|"@, 0);
    assert(b.skip(1) =~= x);
    lemma_plover_braced(s, b);
}
#[verifier::spinoff_prover]
proof fn lemma_plover_key(x: Seq<char>)
    requires
        x.len() > 0,
        lacks(x, '}'),
    ensures
        parse_plover(plover_one(Directive::KeyCombo(x))) == seq![Directive::KeyCombo(x)],
{
    reveal_strlit("!");
    reveal_strlit("#");
    reveal_strlit("*");
    reveal_strlit("*!");
    reveal_strlit("*(");
    reveal_strlit("*+");
    reveal_strlit("*-|");
    reveal_strlit("*<");
    reveal_strlit("*>");
    reveal_strlit("*?");
    reveal_strlit(",");
    reveal_strlit("-");
    reveal_strlit("--");
    reveal_strlit("-|");
    reveal_strlit(".");
    reveal_strlit("...");
    reveal_strlit(":");
    reveal_strlit(":retro_currency:");
    reveal_strlit(";");
    reveal_strlit("<");
    reveal_strlit(">");
    reveal_strlit("?");
    reveal_strlit("^");
    reveal_strlit("l+");
    reveal_strlit("l-");
    reveal_strlit("mode:");
    reveal_strlit("plover:");
    reveal_strlit("{#return}{#return}");
    reveal_strlit("~|");
    reveal_strlit("{#");
    reveal_strlit("}");
    let b = seq!['#'] + x + Seq::<char>::empty();
    let s = plover_one(Directive::KeyCombo(x));
    assert(s =~= seq!['{'] + b + seq!['}']);
    lemma_no_char(x, '}');
    assert forall|k: int| 0 <= k < b.len() implies #[trigger] b[k] != '}' by {
        if 1 <= k < 1 + x.len() {
            assert(b[k] == x[k - 1]);
        }
    }
    assert(s =~= seq!['{', '#'] + x + seq!['}']);
    lemma_key_not_paragraph(s, x);
    assert(b[0] == '#');
    assert(!is_blank(b));
    lemma_not_at_nocase(b, 0, "plover:"@, 0);
    lemma_not_at_nocase(b, 0, "mode:"@, 0);
    lemma_not_at(b, 0, "*("@, 0);
    lemma_not_at(b, 0, ":retro_currency:"@, 0);
    assert(b != "..."@) by {
        assert(b[0] != "..."@[0]);
    }
    assert(b != "--"@) by {
        assert(b[0] != "--"@[0]);
    }
    assert(b != "-"@) by {
        assert(b[0] != "-"@[0]);
    }
    assert(b != "."@) by {
        assert(b[0] != "."@[0]);
    }
    assert(b != ","@) by {
        assert(b[0] != ","@[0]);
    }
    assert(b != ":"@) by {
        assert(b[0] != ":"@[0]);
    }
    assert(b != ";"@) by {
        assert(b[0] != ";"@[0]);
    }
    assert(b != "?"@) by {
        assert(b[0] != "?"@[0]);
    }
    assert(b != "!"@) by {
        assert(b[0] != "!"@[0]);
    }
    assert(b != "^"@) by {
        assert(b[0] != "^"@[0]);
    }
    assert(b != "-|"@) by {
        assert(b[0] != "-|"@[0]);
    }
    assert(b != "l-"@) by {
        assert(b[0] != "l-"@[0]);
    }
    assert(b != "*-|"@) by {
        assert(b[0] != "*-|"@[0]);
    }
    assert(b != "*+"@) by {
        assert(b[0] != "*+"@[0]);
    }
    assert(b != "*?"@) by {
        assert(b[0] != "*?"@[0]);
    }
    assert(b != "*!"@) by {
        assert(b[0] != "*!"@[0]);
    }
    assert(b != "*<"@) by {
        assert(b[0] != "*<"@[0]);
    }
    assert(b != "*>"@) by {
        assert(b[0] != "*>"@[0]);
    }
    assert(b != "*"@) by {
        assert(b[0] != "*"@[0]);
    }
    assert(b != "<"@) by {
        assert(b[0] != "<"@[0]);
    }
    assert(b != ">"@) by {
        assert(b[0] != ">"@[0]);
    }
    assert(b != "l+"@) by {
        assert(b[0] != "l+"@[0]);
    }
    lemma_not_at(b, 0, "~|"@, 0);
    assert(b.skip(1) =~= x);
    assert(b != "#"@);
    lemma_plover_braced(s, b);
}
#[verifier::spinoff_prover]
proof fn lemma_plover_attach_suffix(x: Seq<char>)
    requires
        x.len() > 0,
        lacks(x, '^'),
        lacks(x, '}'),
    ensures
        parse_plover(plover_one(Directive::AttachSuffix(x))) == seq![Directive::AttachSuffix(x)],
{
    reveal_strlit("!");
    reveal_strlit("#");
    reveal_strlit("*");
    reveal_strlit("*!");
    reveal_strlit("*(");
    reveal_strlit("*+");
    reveal_strlit("*-|");
    reveal_strlit("*<");
    reveal_strlit("*>");
    reveal_strlit("*?");
    reveal_strlit(",");
    reveal_strlit("-");
    reveal_strlit("--");
    reveal_strlit("-|");
    reveal_strlit(".");
    reveal_strlit("...");
    reveal_strlit(":");
    reveal_strlit(":retro_currency:");
    reveal_strlit(";");
    reveal_strlit("<");
    reveal_strlit(">");
    reveal_strlit("?");
    reveal_strlit("^");
    reveal_strlit("l+");
    reveal_strlit("l-");
    reveal_strlit("mode:");
    reveal_strlit("plover:");
    reveal_strlit("{#return}{#return}");
    reveal_strlit("~|");
    reveal_strlit("{^");
    reveal_strlit("}");
    let b = seq!['^'] + x + Seq::<char>::empty();
    let s = plover_one(Directive::AttachSuffix(x));
    assert(s =~= seq!['{'] + b + seq!['}']);
    lemma_no_char(x, '}');
    assert forall|k: int| 0 <= k < b.len() implies #[trigger] b[k] != '}' by {
        if 1 <= k < 1 + x.len() {
            assert(b[k] == x[k - 1]);
        }
    }
    lemma_not_at_nocase(s, 0, "{#return}{#return}"@, 1);
    assert(b[0] == '^');
    assert(b != "#"@) by {
        assert(b[0] != "#"@[0]);
    }
    assert(!is_blank(b));
    lemma_not_at_nocase(b, 0, "plover:"@, 0);
    lemma_not_at_nocase(b, 0, "mode:"@, 0);
    lemma_not_at(b, 0, "*("@, 0);
    lemma_not_at(b, 0, ":retro_currency:"@, 0);
    assert(b != "..."@) by {
        assert(b[0] != "..."@[0]);
    }
    assert(b != "--"@) by {
        assert(b[0] != "--"@[0]);
    }
    assert(b != "-"@) by {
        assert(b[0] != "-"@[0]);
    }
    assert(b != "."@) by {
        assert(b[0] != "."@[0]);
    }
    assert(b != ","@) by {
        assert(b[0] != ","@[0]);
    }
    assert(b != ":"@) by {
        assert(b[0] != ":"@[0]);
    }
    assert(b != ";"@) by {
        assert(b[0] != ";"@[0]);
    }
    assert(b != "?"@) by {
        assert(b[0] != "?"@[0]);
    }
    assert(b != "!"@) by {
        assert(b[0] != "!"@[0]);
    }
    assert(b != "-|"@) by {
        assert(b[0] != "-|"@[0]);
    }
    assert(b != "l-"@) by {
        assert(b[0] != "l-"@[0]);
    }
    assert(b != "*-|"@) by {
        assert(b[0] != "*-|"@[0]);
    }
    assert(b != "*+"@) by {
        assert(b[0] != "*+"@[0]);
    }
    assert(b != "*?"@) by {
        assert(b[0] != "*?"@[0]);
    }
    assert(b != "*!"@) by {
        assert(b[0] != "*!"@[0]);
    }
    assert(b != "*<"@) by {
        assert(b[0] != "*<"@[0]);
    }
    assert(b != "*>"@) by {
        assert(b[0] != "*>"@[0]);
    }
    assert(b != "*"@) by {
        assert(b[0] != "*"@[0]);
    }
    assert(b != "<"@) by {
        assert(b[0] != "<"@[0]);
    }
    assert(b != ">"@) by {
        assert(b[0] != ">"@[0]);
    }
    assert(b != "l+"@) by {
        assert(b[0] != "l+"@[0]);
    }
    lemma_not_at(b, 0, "~|"@, 0);
    lemma_no_char(x, '^');
    assert(b.last() == x.last());
    assert(b.skip(1) =~= x);
    assert(b != "^"@);
    lemma_plover_braced(s, b);
}
#[verifier::spinoff_prover]
proof fn lemma_plover_attach_infix(x: Seq<char>)
    requires
        x != " "@,
        lacks(x, '^'),
        lacks(x, '}'),
    ensures
        parse_plover(plover_one(Directive::AttachInfix(x))) == seq![Directive::AttachInfix(x)],
{
    reveal_strlit("!");
    reveal_strlit("#");
    reveal_strlit("*");
    reveal_strlit("*!");
    reveal_strlit("*(");
    reveal_strlit("*+");
    reveal_strlit("*-|");
    reveal_strlit("*<");
    reveal_strlit("*>");
    reveal_strlit("*?");
    reveal_strlit(",");
    reveal_strlit("-");
    reveal_strlit("--");
    reveal_strlit("-|");
    reveal_strlit(".");
    reveal_strlit("...");
    reveal_strlit(":");
    reveal_strlit(":retro_currency:");
    reveal_strlit(";");
    reveal_strlit("<");
    reveal_strlit(">");
    reveal_strlit("?");
    reveal_strlit("^");
    reveal_strlit("l+");
    reveal_strlit("l-");
    reveal_strlit("mode:");
    reveal_strlit("plover:");
    reveal_strlit("{#return}{#return}");
    reveal_strlit("~|");
    reveal_strlit("^}");
    reveal_strlit("{^");
    let b = seq!['^'] + x + seq!['^'];
    let s = plover_one(Directive::AttachInfix(x));
    assert(s =~= seq!['{'] + b + seq!['}']);
    lemma_no_char(x, '}');
    assert forall|k: int| 0 <= k < b.len() implies #[trigger] b[k] != '}' by {
        if 1 <= k < 1 + x.len() {
            assert(b[k] == x[k - 1]);
        }
    }
    lemma_not_at_nocase(s, 0, "{#return}{#return}"@, 1);
    assert(b[0] == '^');
    assert(b != "#"@) by {
        assert(b[0] != "#"@[0]);
    }
    assert(!is_blank(b));
    lemma_not_at_nocase(b, 0, "plover:"@, 0);
    lemma_not_at_nocase(b, 0, "mode:"@, 0);
    lemma_not_at(b, 0, "*("@, 0);
    lemma_not_at(b, 0, ":retro_currency:"@, 0);
    assert(b != "..."@) by {
        assert(b[0] != "..."@[0]);
    }
    assert(b != "--"@) by {
        assert(b[0] != "--"@[0]);
    }
    assert(b != "-"@) by {
        assert(b[0] != "-"@[0]);
    }
    assert(b != "."@) by {
        assert(b[0] != "."@[0]);
    }
    assert(b != ","@) by {
        assert(b[0] != ","@[0]);
    }
    assert(b != ":"@) by {
        assert(b[0] != ":"@[0]);
    }
    assert(b != ";"@) by {
        assert(b[0] != ";"@[0]);
    }
    assert(b != "?"@) by {
        assert(b[0] != "?"@[0]);
    }
    assert(b != "!"@) by {
        assert(b[0] != "!"@[0]);
    }
    assert(b != "-|"@) by {
        assert(b[0] != "-|"@[0]);
    }
    assert(b != "l-"@) by {
        assert(b[0] != "l-"@[0]);
    }
    assert(b != "*-|"@) by {
        assert(b[0] != "*-|"@[0]);
    }
    assert(b != "*+"@) by {
        assert(b[0] != "*+"@[0]);
    }
    assert(b != "*?"@) by {
        assert(b[0] != "*?"@[0]);
    }
    assert(b != "*!"@) by {
        assert(b[0] != "*!"@[0]);
    }
    assert(b != "*<"@) by {
        assert(b[0] != "*<"@[0]);
    }
    assert(b != "*>"@) by {
        assert(b[0] != "*>"@[0]);
    }
    assert(b != "*"@) by {
        assert(b[0] != "*"@[0]);
    }
    assert(b != "<"@) by {
        assert(b[0] != "<"@[0]);
    }
    assert(b != ">"@) by {
        assert(b[0] != ">"@[0]);
    }
    assert(b != "l+"@) by {
        assert(b[0] != "l+"@[0]);
    }
    lemma_not_at(b, 0, "~|"@, 0);
    assert(b.subrange(1, b.len() - 1) =~= x);
    assert(b != "^"@);
    lemma_plover_braced(s, b);
}
#[verifier::spinoff_prover]
proof fn lemma_plover_carry_raw(x: Seq<char>)
    requires
        lacks(x, '^'),
        lacks(x, '}'),
    ensures
        parse_plover(plover_one(Directive::CarryCapRaw(x))) == seq![Directive::CarryCapRaw(x)],
{
    reveal_strlit("!");
    reveal_strlit("#");
    reveal_strlit("*");
    reveal_strlit("*!");
    reveal_strlit("*(");
    reveal_strlit("*+");
    reveal_strlit("*-|");
    reveal_strlit("*<");
    reveal_strlit("*>");
    reveal_strlit("*?");
    reveal_strlit(",");
    reveal_strlit("-");
    reveal_strlit("--");
    reveal_strlit("-|");
    reveal_strlit(".");
    reveal_strlit("...");
    reveal_strlit(":");
    reveal_strlit(":retro_currency:");
    reveal_strlit(";");
    reveal_strlit("<");
    reveal_strlit(">");
    reveal_strlit("?");
    reveal_strlit("^");
    reveal_strlit("l+");
    reveal_strlit("l-");
    reveal_strlit("mode:");
    reveal_strlit("plover:");
    reveal_strlit("{#return}{#return}");
    reveal_strlit("~|");
    reveal_strlit("{~|");
    reveal_strlit("}");
    let b = seq!['~', '|'] + x + Seq::<char>::empty();
    let s = plover_one(Directive::CarryCapRaw(x));
    assert(s =~= seq!['{'] + b + seq!['}']);
    lemma_no_char(x, '}');
    assert forall|k: int| 0 <= k < b.len() implies #[trigger] b[k] != '}' by {
        if 2 <= k < 2 + x.len() {
            assert(b[k] == x[k - 2]);
        }
    }
    lemma_not_at_nocase(s, 0, "{#return}{#return}"@, 1);
    assert(b[0] == '~');
    assert(b != "#"@) by {
        assert(b[0] != "#"@[0]);
    }
    assert(!is_blank(b));
    lemma_not_at_nocase(b, 0, "plover:"@, 0);
    lemma_not_at_nocase(b, 0, "mode:"@, 0);
    lemma_not_at(b, 0, "*("@, 0);
    lemma_not_at(b, 0, ":retro_currency:"@, 0);
    assert(b != "..."@) by {
        assert(b[0] != "..."@[0]);
    }
    assert(b != "--"@) by {
        assert(b[0] != "--"@[0]);
    }
    assert(b != "-"@) by {
        assert(b[0] != "-"@[0]);
    }
    assert(b != "."@) by {
        assert(b[0] != "."@[0]);
    }
    assert(b != ","@) by {
        assert(b[0] != ","@[0]);
    }
    assert(b != ":"@) by {
        assert(b[0] != ":"@[0]);
    }
    assert(b != ";"@) by {
        assert(b[0] != ";"@[0]);
    }
    assert(b != "?"@) by {
        assert(b[0] != "?"@[0]);
    }
    assert(b != "!"@) by {
        assert(b[0] != "!"@[0]);
    }
    assert(b != "^"@) by {
        assert(b[0] != "^"@[0]);
    }
    assert(b != "-|"@) by {
        assert(b[0] != "-|"@[0]);
    }
    assert(b != "l-"@) by {
        assert(b[0] != "l-"@[0]);
    }
    assert(b != "*-|"@) by {
        assert(b[0] != "*-|"@[0]);
    }
    assert(b != "*+"@) by {
        assert(b[0] != "*+"@[0]);
    }
    assert(b != "*?"@) by {
        assert(b[0] != "*?"@[0]);
    }
    assert(b != "*!"@) by {
        assert(b[0] != "*!"@[0]);
    }
    assert(b != "*<"@) by {
        assert(b[0] != "*<"@[0]);
    }
    assert(b != "*>"@) by {
        assert(b[0] != "*>"@[0]);
    }
    assert(b != "*"@) by {
        assert(b[0] != "*"@[0]);
    }
    assert(b != "<"@) by {
        assert(b[0] != "<"@[0]);
    }
    assert(b != ">"@) by {
        assert(b[0] != ">"@[0]);
    }
    assert(b != "l+"@) by {
        assert(b[0] != "l+"@[0]);
    }
    lemma_no_char(x, '^');
    let r = b.skip(2);
    assert(r =~= Seq::<char>::empty() + x + Seq::<char>::empty());
    assert(b.subrange(0, 2) =~= "~|"@);
    if x.len() > 0 {
        assert(r[0] == x[0]);
        assert(r.last() == x.last());
    }
    lemma_plover_braced(s, b);
}
#[verifier::spinoff_prover]
proof fn lemma_plover_carry_suffix(x: Seq<char>)
    requires
        x.len() > 0,
        lacks(x, '^'),
        lacks(x, '}'),
    ensures
        parse_plover(plover_one(Directive::CarryCapSuffix(x))) == seq![Directive::CarryCapSuffix(x)],
{
    reveal_strlit("!");
    reveal_strlit("#");
    reveal_strlit("*");
    reveal_strlit("*!");
    reveal_strlit("*(");
    reveal_strlit("*+");
    reveal_strlit("*-|");
    reveal_strlit("*<");
    reveal_strlit("*>");
    reveal_strlit("*?");
    reveal_strlit(",");
    reveal_strlit("-");
    reveal_strlit("--");
    reveal_strlit("-|");
    reveal_strlit(".");
    reveal_strlit("...");
    reveal_strlit(":");
    reveal_strlit(":retro_currency:");
    reveal_strlit(";");
    reveal_strlit("<");
    reveal_strlit(">");
    reveal_strlit("?");
    reveal_strlit("^");
    reveal_strlit("l+");
    reveal_strlit("l-");
    reveal_strlit("mode:");
    reveal_strlit("plover:");
    reveal_strlit("{#return}{#return}");
    reveal_strlit("~|");
    reveal_strlit("{~|^");
    reveal_strlit("}");
    let b = seq!['~', '|', '^'] + x + Seq::<char>::empty();
    let s = plover_one(Directive::CarryCapSuffix(x));
    assert(s =~= seq!['{'] + b + seq!['}']);
    lemma_no_char(x, '}');
    assert forall|k: int| 0 <= k < b.len() implies #[trigger] b[k] != '}' by {
        if 3 <= k < 3 + x.len() {
            assert(b[k] == x[k - 3]);
        }
    }
    lemma_not_at_nocase(s, 0, "{#return}{#return}"@, 1);
    assert(b[0] == '~');
    assert(b != "#"@) by {
        assert(b[0] != "#"@[0]);
    }
    assert(!is_blank(b));
    lemma_not_at_nocase(b, 0, "plover:"@, 0);
    lemma_not_at_nocase(b, 0, "mode:"@, 0);
    lemma_not_at(b, 0, "*("@, 0);
    lemma_not_at(b, 0, ":retro_currency:"@, 0);
    assert(b != "..."@) by {
        assert(b[0] != "..."@[0]);
    }
    assert(b != "--"@) by {
        assert(b[0] != "--"@[0]);
    }
    assert(b != "-"@) by {
        assert(b[0] != "-"@[0]);
    }
    assert(b != "."@) by {
        assert(b[0] != "."@[0]);
    }
    assert(b != ","@) by {
        assert(b[0] != ","@[0]);
    }
    assert(b != ":"@) by {
        assert(b[0] != ":"@[0]);
    }
    assert(b != ";"@) by {
        assert(b[0] != ";"@[0]);
    }
    assert(b != "?"@) by {
        assert(b[0] != "?"@[0]);
    }
    assert(b != "!"@) by {
        assert(b[0] != "!"@[0]);
    }
    assert(b != "^"@) by {
        assert(b[0] != "^"@[0]);
    }
    assert(b != "-|"@) by {
        assert(b[0] != "-|"@[0]);
    }
    assert(b != "l-"@) by {
        assert(b[0] != "l-"@[0]);
    }
    assert(b != "*-|"@) by {
        assert(b[0] != "*-|"@[0]);
    }
    assert(b != "*+"@) by {
        assert(b[0] != "*+"@[0]);
    }
    assert(b != "*?"@) by {
        assert(b[0] != "*?"@[0]);
    }
    assert(b != "*!"@) by {
        assert(b[0] != "*!"@[0]);
    }
    assert(b != "*<"@) by {
        assert(b[0] != "*<"@[0]);
    }
    assert(b != "*>"@) by {
        assert(b[0] != "*>"@[0]);
    }
    assert(b != "*"@) by {
        assert(b[0] != "*"@[0]);
    }
    assert(b != "<"@) by {
        assert(b[0] != "<"@[0]);
    }
    assert(b != ">"@) by {
        assert(b[0] != ">"@[0]);
    }
    assert(b != "l+"@) by {
        assert(b[0] != "l+"@[0]);
    }
    lemma_no_char(x, '^');
    let r = b.skip(2);
    assert(r =~= seq!['^'] + x + Seq::<char>::empty());
    assert(b.subrange(0, 2) =~= "~|"@);
    assert(r.last() == x.last());
    assert(r.skip(1) =~= x);
    assert(r.drop_last()[0] == '^');
    lemma_plover_braced(s, b);
}
#[verifier::spinoff_prover]
proof fn lemma_plover_carry_prefix(x: Seq<char>)
    requires
        lacks(x, '^'),
        lacks(x, '}'),
    ensures
        parse_plover(plover_one(Directive::CarryCapPrefix(x))) == seq![Directive::CarryCapPrefix(x)],
{
    reveal_strlit("!");
    reveal_strlit("#");
    reveal_strlit("*");
    reveal_strlit("*!");
    reveal_strlit("*(");
    reveal_strlit("*+");
    reveal_strlit("*-|");
    reveal_strlit("*<");
    reveal_strlit("*>");
    reveal_strlit("*?");
    reveal_strlit(",");
    reveal_strlit("-");
    reveal_strlit("--");
    reveal_strlit("-|");
    reveal_strlit(".");
    reveal_strlit("...");
    reveal_strlit(":");
    reveal_strlit(":retro_currency:");
    reveal_strlit(";");
    reveal_strlit("<");
    reveal_strlit(">");
    reveal_strlit("?");
    reveal_strlit("^");
    reveal_strlit("l+");
    reveal_strlit("l-");
    reveal_strlit("mode:");
    reveal_strlit("plover:");
    reveal_strlit("{#return}{#return}");
    reveal_strlit("~|");
    reveal_strlit("^}");
    reveal_strlit("{~|");
    let b = seq!['~', '|'] + x + seq!['^'];
    let s = plover_one(Directive::CarryCapPrefix(x));
    assert(s =~= seq!['{'] + b + seq!['}']);
    lemma_no_char(x, '}');
    assert forall|k: int| 0 <= k < b.len() implies #[trigger] b[k] != '}' by {
        if 2 <= k < 2 + x.len() {
            assert(b[k] == x[k - 2]);
        }
    }
    lemma_not_at_nocase(s, 0, "{#return}{#return}"@, 1);
    assert(b[0] == '~');
    assert(b != "#"@) by {
        assert(b[0] != "#"@[0]);
    }
    assert(!is_blank(b));
    lemma_not_at_nocase(b, 0, "plover:"@, 0);
    lemma_not_at_nocase(b, 0, "mode:"@, 0);
    lemma_not_at(b, 0, "*("@, 0);
    lemma_not_at(b, 0, ":retro_currency:"@, 0);
    assert(b != "..."@) by {
        assert(b[0] != "..."@[0]);
    }
    assert(b != "--"@) by {
        assert(b[0] != "--"@[0]);
    }
    assert(b != "-"@) by {
        assert(b[0] != "-"@[0]);
    }
    assert(b != "."@) by {
        assert(b[0] != "."@[0]);
    }
    assert(b != ","@) by {
        assert(b[0] != ","@[0]);
    }
    assert(b != ":"@) by {
        assert(b[0] != ":"@[0]);
    }
    assert(b != ";"@) by {
        assert(b[0] != ";"@[0]);
    }
    assert(b != "?"@) by {
        assert(b[0] != "?"@[0]);
    }
    assert(b != "!"@) by {
        assert(b[0] != "!"@[0]);
    }
    assert(b != "^"@) by {
        assert(b[0] != "^"@[0]);
    }
    assert(b != "-|"@) by {
        assert(b[0] != "-|"@[0]);
    }
    assert(b != "l-"@) by {
        assert(b[0] != "l-"@[0]);
    }
    assert(b != "*-|"@) by {
        assert(b[0] != "*-|"@[0]);
    }
    assert(b != "*+"@) by {
        assert(b[0] != "*+"@[0]);
    }
    assert(b != "*?"@) by {
        assert(b[0] != "*?"@[0]);
    }
    assert(b != "*!"@) by {
        assert(b[0] != "*!"@[0]);
    }
    assert(b != "*<"@) by {
        assert(b[0] != "*<"@[0]);
    }
    assert(b != "*>"@) by {
        assert(b[0] != "*>"@[0]);
    }
    assert(b != "*"@) by {
        assert(b[0] != "*"@[0]);
    }
    assert(b != "<"@) by {
        assert(b[0] != "<"@[0]);
    }
    assert(b != ">"@) by {
        assert(b[0] != ">"@[0]);
    }
    assert(b != "l+"@) by {
        assert(b[0] != "l+"@[0]);
    }
    lemma_no_char(x, '^');
    let r = b.skip(2);
    assert(r =~= Seq::<char>::empty() + x + seq!['^']);
    assert(b.subrange(0, 2) =~= "~|"@);
    assert(r.drop_last() =~= x);
    if x.len() > 0 {
        assert(r[0] == x[0]);
    }
    lemma_plover_braced(s, b);
}
#[verifier::spinoff_prover]
proof fn lemma_plover_carry_infix(x: Seq<char>)
    requires
        lacks(x, '^'),
        lacks(x, '}'),
    ensures
        parse_plover(plover_one(Directive::CarryCapInfix(x))) == seq![Directive::CarryCapInfix(x)],
{
    reveal_strlit("!");
    reveal_strlit("#");
    reveal_strlit("*");
    reveal_strlit("*!");
    reveal_strlit("*(");
    reveal_strlit("*+");
    reveal_strlit("*-|");
    reveal_strlit("*<");
    reveal_strlit("*>");
    reveal_strlit("*?");
    reveal_strlit(",");
    reveal_strlit("-");
    reveal_strlit("--");
    reveal_strlit("-|");
    reveal_strlit(".");
    reveal_strlit("...");
    reveal_strlit(":");
    reveal_strlit(":retro_currency:");
    reveal_strlit(";");
    reveal_strlit("<");
    reveal_strlit(">");
    reveal_strlit("?");
    reveal_strlit("^");
    reveal_strlit("l+");
    reveal_strlit("l-");
    reveal_strlit("mode:");
    reveal_strlit("plover:");
    reveal_strlit("{#return}{#return}");
    reveal_strlit("~|");
    reveal_strlit("^}");
    reveal_strlit("{~|^");
    let b = seq!['~', '|', '^'] + x + seq!['^'];
    let s = plover_one(Directive::CarryCapInfix(x));
    assert(s =~= seq!['{'] + b + seq!['}']);
    lemma_no_char(x, '}');
    assert forall|k: int| 0 <= k < b.len() implies #[trigger] b[k] != '}' by {
        if 3 <= k < 3 + x.len() {
            assert(b[k] == x[k - 3]);
        }
    }
    lemma_not_at_nocase(s, 0, "{#return}{#return}"@, 1);
    assert(b[0] == '~');
    assert(b != "#"@) by {
        assert(b[0] != "#"@[0]);
    }
    assert(!is_blank(b));
    lemma_not_at_nocase(b, 0, "plover:"@, 0);
    lemma_not_at_nocase(b, 0, "mode:"@, 0);
    lemma_not_at(b, 0, "*("@, 0);
    lemma_not_at(b, 0, ":retro_currency:"@, 0);
    assert(b != "..."@) by {
        assert(b[0] != "..."@[0]);
    }
    assert(b != "--"@) by {
        assert(b[0] != "--"@[0]);
    }
    assert(b != "-"@) by {
        assert(b[0] != "-"@[0]);
    }
    assert(b != "."@) by {
        assert(b[0] != "."@[0]);
    }
    assert(b != ","@) by {
        assert(b[0] != ","@[0]);
    }
    assert(b != ":"@) by {
        assert(b[0] != ":"@[0]);
    }
    assert(b != ";"@) by {
        assert(b[0] != ";"@[0]);
    }
    assert(b != "?"@) by {
        assert(b[0] != "?"@[0]);
    }
    assert(b != "!"@) by {
        assert(b[0] != "!"@[0]);
    }
    assert(b != "^"@) by {
        assert(b[0] != "^"@[0]);
    }
    assert(b != "-|"@) by {
        assert(b[0] != "-|"@[0]);
    }
    assert(b != "l-"@) by {
        assert(b[0] != "l-"@[0]);
    }
    assert(b != "*-|"@) by {
        assert(b[0] != "*-|"@[0]);
    }
    assert(b != "*+"@) by {
        assert(b[0] != "*+"@[0]);
    }
    assert(b != "*?"@) by {
        assert(b[0] != "*?"@[0]);
    }
    assert(b != "*!"@) by {
        assert(b[0] != "*!"@[0]);
    }
    assert(b != "*<"@) by {
        assert(b[0] != "*<"@[0]);
    }
    assert(b != "*>"@) by {
        assert(b[0] != "*>"@[0]);
    }
    assert(b != "*"@) by {
        assert(b[0] != "*"@[0]);
    }
    assert(b != "<"@) by {
        assert(b[0] != "<"@[0]);
    }
    assert(b != ">"@) by {
        assert(b[0] != ">"@[0]);
    }
    assert(b != "l+"@) by {
        assert(b[0] != "l+"@[0]);
    }
    lemma_no_char(x, '^');
    let r = b.skip(2);
    assert(r =~= seq!['^'] + x + seq!['^']);
    assert(b.subrange(0, 2) =~= "~|"@);
    assert(r.subrange(1, r.len() - 1) =~= x);
    lemma_plover_braced(s, b);
}
#[verifier::spinoff_prover]
proof fn lemma_plover_space_mode(x: Seq<char>)
    requires
        x != " "@,
        lacks(x, '}'),
    ensures
        parse_plover(plover_one(Directive::SpaceMode(Some(x)))) == seq![
            Directive::SpaceMode(Some(x)),
        ],
{
    reveal_strlit("{mode:set_space:");
    reveal_strlit("}");
    reveal_strlit("#");
    reveal_strlit("plover:");
    reveal_strlit("mode:");
    reveal_strlit("set_space:");
    reveal_strlit("{#return}{#return}");
    let pre = seq!['m', 'o', 'd', 'e', ':', 's', 'e', 't', '_', 's', 'p', 'a', 'c', 'e', ':'];
    let b = pre + x;
    let s = plover_one(Directive::SpaceMode(Some(x)));
    assert(s =~= seq!['{'] + b + seq!['}']);
    lemma_no_char(x, '}');
    assert forall|k: int| 0 <= k < b.len() implies #[trigger] b[k] != '}' by {
        if 15 <= k {
            assert(b[k] == x[k - 15]);
        }
    }
    lemma_not_at_nocase(s, 0, "{#return}{#return}"@, 1);
    assert(b[0] == 'm');
    assert(!is_blank(b));
    lemma_not_at_nocase(b, 0, "plover:"@, 0);
    assert forall|k: int| 0 <= k < 5 implies #[trigger] fold(b[k]) == "mode:"@[k] as u32 by {
    }
    let a = b.skip(5);
    assert(a =~= seq!['s', 'e', 't', '_', 's', 'p', 'a', 'c', 'e', ':'] + x);
    assert forall|k: int| 0 <= k < 10 implies #[trigger] fold(a[k]) == "set_space:"@[k] as u32 by {
    }
    assert(a.skip(10) =~= x);
    lemma_plover_braced(s, b);
}

/// A directive with text whose Plover spelling is one braced form: texts
/// without `}` (and without `^` where the form marks attachment with it),
/// a key combination or suffix that is not empty, a spacer other than a
/// single space, and a currency as `rtf_text_directive` says.
pub open spec fn plover_text_directive(d: Directive) -> bool {
    match d {
        Directive::Fingerspell(x) => lacks(x, '}'),
        Directive::KeyCombo(x) => x.len() > 0 && lacks(x, '}'),
        Directive::SpaceMode(Some(x)) => x != " "@ && lacks(x, '}'),
        Directive::AttachSuffix(x) => x.len() > 0 && lacks(x, '^') && lacks(x, '}'),
        Directive::AttachInfix(x) => x != " "@ && lacks(x, '^') && lacks(x, '}'),
        Directive::CarryCapRaw(x) => lacks(x, '^') && lacks(x, '}'),
        Directive::CarryCapSuffix(x) => x.len() > 0 && lacks(x, '^') && lacks(x, '}'),
        Directive::CarryCapPrefix(x) => lacks(x, '^') && lacks(x, '}'),
        Directive::CarryCapInfix(x) => lacks(x, '^') && lacks(x, '}'),
        Directive::Currency(l, r) => norm(l) == l && norm(r) == r && lacks(or_empty(l), 'c')
            && lacks(or_empty(l), '}') && lacks(or_empty(r), '}') && lacks(or_empty(r), ')'),
        _ => false,
    }
}

/// Each directive with text described by `plover_text_directive` reads back
/// from its Plover rendering as exactly itself.
pub proof fn lemma_plover_round_trip_text(d: Directive)
    requires
        plover_text_directive(d),
    ensures
        parse_plover(plover_one(d)) == seq![d],
{
    match d {
        Directive::Fingerspell(x) => lemma_plover_fing(x),
        Directive::KeyCombo(x) => lemma_plover_key(x),
        Directive::SpaceMode(Some(x)) => lemma_plover_space_mode(x),
        Directive::AttachSuffix(x) => lemma_plover_attach_suffix(x),
        Directive::AttachInfix(x) => lemma_plover_attach_infix(x),
        Directive::CarryCapRaw(x) => lemma_plover_carry_raw(x),
        Directive::CarryCapSuffix(x) => lemma_plover_carry_suffix(x),
        Directive::CarryCapPrefix(x) => lemma_plover_carry_prefix(x),
        Directive::CarryCapInfix(x) => lemma_plover_carry_infix(x),
        Directive::Currency(l, r) => {
            lemma_currency_plover(or_empty(l), or_empty(r));
            lemma_or_nonempty(or_empty(l));
            lemma_or_nonempty(or_empty(r));
            reveal_strlit("c");
            reveal_strlit("{*(");
            reveal_strlit(")}");
            assert(plover_one(d) =~= "{*("@ + or_empty(l) + "c"@ + or_empty(r) + ")}"@);
        },
        _ => {},
    }
}

/// The text `NAME` or `NAME:ARG` holds no `}` when neither part does.
proof fn lemma_name_arg_lacks(n: Seq<char>, a: Option<Seq<char>>)
    requires
        lacks(n, '}'),
        a matches Some(x) ==> lacks(x, '}'),
    ensures
        forall|k: int|
            0 <= k < crate::plover::name_arg(n, a).len() ==> #[trigger] crate::plover::name_arg(
                n,
                a,
            )[k] != '}',
{
    reveal_strlit(":");
    let x = crate::plover::name_arg(n, a);
    lemma_no_char(n, '}');
    match a {
        Some(t) => {
            lemma_no_char(t, '}');
            assert(x =~= n + seq![':'] + t);
            assert forall|k: int| 0 <= k < x.len() implies #[trigger] x[k] != '}' by {
                if k < n.len() {
                    assert(x[k] == n[k]);
                } else if k > n.len() {
                    assert(x[k] == t[k - n.len() - 1]);
                }
            }
        },
        None => {},
    }
}

#[verifier::spinoff_prover]
proof fn lemma_plover_command(n: Seq<char>, a: Option<Seq<char>>)
    requires
        lower_of(n) == n,
        lacks(n, ':'),
        lacks(n, '}'),
        norm(a) == a,
        a matches Some(x) ==> lacks(x, '}'),
    ensures
        parse_plover(plover_one(Directive::Command(n, a))) == seq![Directive::Command(n, a)],
{
    reveal_strlit("{plover:");
    reveal_strlit("}");
    reveal_strlit("#");
    reveal_strlit("plover:");
    reveal_strlit("{#return}{#return}");
    let na = crate::plover::name_arg(n, a);
    let b = seq!['p', 'l', 'o', 'v', 'e', 'r', ':'] + na;
    let s = plover_one(Directive::Command(n, a));
    assert(s =~= seq!['{'] + b + seq!['}']);
    lemma_name_arg_lacks(n, a);
    assert forall|k: int| 0 <= k < b.len() implies #[trigger] b[k] != '}' by {
        if k >= 7 {
            assert(b[k] == na[k - 7]);
        }
    }
    lemma_not_at_nocase(s, 0, "{#return}{#return}"@, 1);
    assert(b[0] == 'p');
    assert(!is_blank(b));
    assert forall|k: int| 0 <= k < 7 implies #[trigger] fold(b[k]) == "plover:"@[k] as u32 by {
    }
    assert(b.skip(7) =~= na);
    lemma_split_name_arg(n, a);
    lemma_plover_braced(s, b);
}

#[verifier::spinoff_prover]
proof fn lemma_plover_macro(n: Seq<char>, a: Option<Seq<char>>)
    requires
        lower_of(n) == n,
        lacks(n, ':'),
        norm(a) == a,
        n != "undo"@ && n != "repeat_last_stroke"@ && n != "retrospective_toggle_asterisk"@ && n != "retrospective_insert_space"@ && n != "retrospective_delete_space"@,
    ensures
        parse_plover(plover_one(Directive::Macro(n, a))) == seq![Directive::Macro(n, a)],
{
    reveal_strlit("=");
    let na = crate::plover::name_arg(n, a);
    let s = plover_one(Directive::Macro(n, a));
    assert(s =~= seq!['='] + na);
    assert(s.skip(1) =~= na);
    lemma_split_name_arg(n, a);
}

#[verifier::spinoff_prover]
proof fn lemma_plover_meta(n: Seq<char>, a: Option<Seq<char>>)
    requires
        n.len() > 0,
        lower_of(n) == n,
        lacks(n, ':'),
        lacks(n, '}'),
        n != "retro_currency"@,
        norm(a) == a,
        a matches Some(x) ==> lacks(x, '}'),
        n != "glue"@ && n != "stop"@ && n != "comma"@ && n != "key_combo"@ && n != "case"@ && n != "retro_case"@ && n != "attach"@ && n != "carry_capitalize"@ && n != "stitch"@ && n != "command"@ && n != "mode"@,
    ensures
        parse_plover(plover_one(Directive::Meta(n, a))) == seq![Directive::Meta(n, a)],
{
    reveal_strlit("!");
    reveal_strlit("#");
    reveal_strlit("*");
    reveal_strlit("*!");
    reveal_strlit("*(");
    reveal_strlit("*+");
    reveal_strlit("*-|");
    reveal_strlit("*<");
    reveal_strlit("*>");
    reveal_strlit("*?");
    reveal_strlit(",");
    reveal_strlit("-");
    reveal_strlit("--");
    reveal_strlit("-|");
    reveal_strlit(".");
    reveal_strlit("...");
    reveal_strlit(":");
    reveal_strlit(":retro_currency:");
    reveal_strlit(";");
    reveal_strlit("<");
    reveal_strlit(">");
    reveal_strlit("?");
    reveal_strlit("^");
    reveal_strlit("l+");
    reveal_strlit("l-");
    reveal_strlit("mode:");
    reveal_strlit("plover:");
    reveal_strlit("retro_currency");
    reveal_strlit("{#return}{#return}");
    reveal_strlit("{:");
    reveal_strlit("}");
    reveal_strlit("~|");
    let na = crate::plover::name_arg(n, a);
    let b = seq![':'] + na;
    let s = plover_one(Directive::Meta(n, a));
    assert(s =~= seq!['{'] + b + seq!['}']);
    lemma_name_arg_lacks(n, a);
    assert forall|k: int| 0 <= k < b.len() implies #[trigger] b[k] != '}' by {
        if k >= 1 {
            assert(b[k] == na[k - 1]);
        }
    }
    lemma_not_at_nocase(s, 0, "{#return}{#return}"@, 1);
    assert(b[0] == ':');
    assert(b.len() >= 2);
    assert(b != "#"@) by {
        assert(b[0] != "#"@[0]);
    }
    assert(!is_blank(b));
    lemma_not_at_nocase(b, 0, "plover:"@, 0);
    lemma_not_at_nocase(b, 0, "mode:"@, 0);
    lemma_not_at(b, 0, "*("@, 0);
    assert(!at(b, 0, ":retro_currency:"@)) by {
        if at(b, 0, ":retro_currency:"@) {
            let m = n.len() as int;
            let lit = ":retro_currency:"@;
            lemma_no_char(n, ':');
            assert forall|k: int| 0 <= k < 16 implies #[trigger] b[k] == lit[k] by {
                assert(b.subrange(0, 16)[k] == b[k]);
            }
            if m > 14 {
                assert(b[15] == n[14]);
            } else {
                assert forall|k: int| 0 <= k < m implies #[trigger] n[k] == "retro_currency"@[k] by {
                    assert(b[k + 1] == n[k]);
                }
                if m == 14 {
                    assert(n =~= "retro_currency"@);
                } else {
                    match a {
                        Some(t) => {
                            assert(na =~= n + seq![':'] + t);
                            assert(b[m + 1] == ':');
                        },
                        None => {
                            assert(na == n);
                        },
                    }
                }
            }
        }
    }
    assert(b != "..."@) by {
        assert(b[0] != "..."@[0]);
    }
    assert(b != "--"@) by {
        assert(b[0] != "--"@[0]);
    }
    assert(b != "-"@) by {
        assert(b[0] != "-"@[0]);
    }
    assert(b != "."@) by {
        assert(b[0] != "."@[0]);
    }
    assert(b != ","@) by {
        assert(b[0] != ","@[0]);
    }
    assert(b != ":"@);
    assert(b != ";"@) by {
        assert(b[0] != ";"@[0]);
    }
    assert(b != "?"@) by {
        assert(b[0] != "?"@[0]);
    }
    assert(b != "!"@) by {
        assert(b[0] != "!"@[0]);
    }
    assert(b != "^"@) by {
        assert(b[0] != "^"@[0]);
    }
    assert(b != "-|"@) by {
        assert(b[0] != "-|"@[0]);
    }
    assert(b != "l-"@) by {
        assert(b[0] != "l-"@[0]);
    }
    assert(b != "*-|"@) by {
        assert(b[0] != "*-|"@[0]);
    }
    assert(b != "*+"@) by {
        assert(b[0] != "*+"@[0]);
    }
    assert(b != "*?"@) by {
        assert(b[0] != "*?"@[0]);
    }
    assert(b != "*!"@) by {
        assert(b[0] != "*!"@[0]);
    }
    assert(b != "*<"@) by {
        assert(b[0] != "*<"@[0]);
    }
    assert(b != "*>"@) by {
        assert(b[0] != "*>"@[0]);
    }
    assert(b != "*"@) by {
        assert(b[0] != "*"@[0]);
    }
    assert(b != "<"@) by {
        assert(b[0] != "<"@[0]);
    }
    assert(b != ">"@) by {
        assert(b[0] != ">"@[0]);
    }
    assert(b != "l+"@) by {
        assert(b[0] != "l+"@[0]);
    }
    lemma_not_at(b, 0, "~|"@, 0);
    assert(b.skip(1) =~= na);
    lemma_split_name_arg(n, a);
    lemma_plover_braced(s, b);
}

/// A named directive whose Plover spelling reads back as itself: a name
/// already in lower case, without `:` or `}`, that is not one of the
/// keywords its form reserves, and an argument without `}` that is not
/// empty when present.
pub open spec fn plover_named_directive(d: Directive) -> bool {
    match d {
        Directive::Command(n, a) => lower_of(n) == n && lacks(n, ':') && lacks(n, '}') && norm(a)
            == a && (a matches Some(x) ==> lacks(x, '}')),
        Directive::Macro(n, a) => lower_of(n) == n && lacks(n, ':') && norm(a) == a && n != "undo"@ && n != "repeat_last_stroke"@ && n != "retrospective_toggle_asterisk"@ && n != "retrospective_insert_space"@ && n != "retrospective_delete_space"@,
        Directive::Meta(n, a) => n.len() > 0 && lower_of(n) == n && lacks(n, ':') && lacks(n, '}')
            && n != "retro_currency"@ && norm(a) == a && (a matches Some(x) ==> lacks(x, '}'))
            && n != "glue"@ && n != "stop"@ && n != "comma"@ && n != "key_combo"@ && n != "case"@ && n != "retro_case"@ && n != "attach"@ && n != "carry_capitalize"@ && n != "stitch"@ && n != "command"@ && n != "mode"@,
        _ => false,
    }
}

/// Each named directive described by `plover_named_directive` reads back
/// from its Plover rendering as exactly itself.
pub proof fn lemma_plover_round_trip_named(d: Directive)
    requires
        plover_named_directive(d),
    ensures
        parse_plover(plover_one(d)) == seq![d],
{
    match d {
        Directive::Command(n, a) => lemma_plover_command(n, a),
        Directive::Macro(n, a) => lemma_plover_macro(n, a),
        Directive::Meta(n, a) => lemma_plover_meta(n, a),
        _ => {},
    }
}

#[verifier::spinoff_prover]
proof fn lemma_rtf_fing(x: Seq<char>)
    requires
        lacks(x, '}'),
    ensures
        parse_rtf(rtf_one(Directive::Fingerspell(x))) == seq![Directive::Fingerspell(x)],
{
    let s = rtf_one(Directive::Fingerspell(x));
    let n = s.len() as int;
    reveal_strlit("{\\*\\cxplvrcase0\\cxplvrspc0}");
    reveal_strlit("{\\*\\cxplvrcase4\\cxplvrspc}");
    reveal_strlit("{\\*\\cxplvrcase0\\cxplvrspc _}");
    reveal_strlit("{\\*\\cxplvr");
    reveal_strlit("{\\cxp");
    reveal_strlit("{\\cxfing ");
    reveal_strlit("{\\cxstit ");
    reveal_strlit("}");
    reveal_strlit(" }");
    reveal_strlit(" ");
    lemma_not_at(s, 0, "{\\*\\cxplvrcase0\\cxplvrspc0}"@, 2);
    lemma_not_at(s, 0, "{\\*\\cxplvrcase4\\cxplvrspc}"@, 2);
    lemma_not_at(s, 0, "{\\*\\cxplvrcase0\\cxplvrspc _}"@, 2);
    lemma_not_at(s, 0, "{\\*\\cxplvr"@, 2);
    assert(s =~= seq!['{', '\\', 'c', 'x', 'f', 'i', 'n', 'g', ' '] + x + seq!['}']);
    lemma_not_at(s, 0, "{\\cxp"@, 4);
    lemma_no_char(x, '}');
    assert forall|k: int| 9 <= k < n - 1 implies !seq!['}'].contains(#[trigger] s[k]) by {
        lemma_single('}', s[k]);
        assert(s[k] == x[k - 9]);
    }
    lemma_single('}', s[n - 1]);
    lemma_scan_to(s, 9, seq!['}'], n - 1);
    assert(s.subrange(0, 9) =~= "{\\cxfing "@);
    assert(s.subrange(9, n - 1) =~= x);
    assert(crate::rtf::rtf_group(s, 0) == (Some(Directive::Fingerspell(x)), n));
    assert(rtf_items(s, n) =~= Seq::<Directive>::empty());
    assert(parse_rtf(s) =~= seq![Directive::Fingerspell(x)]);
}

#[verifier::spinoff_prover]
proof fn lemma_rtf_stit(x: Seq<char>)
    requires
        lacks(x, '}'),
    ensures
        parse_rtf(rtf_one(Directive::Stitch(x))) == seq![Directive::Stitch(x)],
{
    let s = rtf_one(Directive::Stitch(x));
    let n = s.len() as int;
    reveal_strlit("{\\*\\cxplvrcase0\\cxplvrspc0}");
    reveal_strlit("{\\*\\cxplvrcase4\\cxplvrspc}");
    reveal_strlit("{\\*\\cxplvrcase0\\cxplvrspc _}");
    reveal_strlit("{\\*\\cxplvr");
    reveal_strlit("{\\cxp");
    reveal_strlit("{\\cxfing ");
    reveal_strlit("{\\cxstit ");
    reveal_strlit("}");
    reveal_strlit(" }");
    reveal_strlit(" ");
    lemma_not_at(s, 0, "{\\*\\cxplvrcase0\\cxplvrspc0}"@, 2);
    lemma_not_at(s, 0, "{\\*\\cxplvrcase4\\cxplvrspc}"@, 2);
    lemma_not_at(s, 0, "{\\*\\cxplvrcase0\\cxplvrspc _}"@, 2);
    lemma_not_at(s, 0, "{\\*\\cxplvr"@, 2);
    assert(s =~= seq!['{', '\\', 'c', 'x', 's', 't', 'i', 't', ' '] + x + seq!['}']);
    lemma_not_at(s, 0, "{\\cxp"@, 4);
    lemma_not_at(s, 0, "{\\cxfing "@, 4);
    lemma_no_char(x, '}');
    assert forall|k: int| 9 <= k < n - 1 implies !seq!['}'].contains(#[trigger] s[k]) by {
        lemma_single('}', s[k]);
        assert(s[k] == x[k - 9]);
    }
    lemma_single('}', s[n - 1]);
    lemma_scan_to(s, 9, seq!['}'], n - 1);
    assert(s.subrange(0, 9) =~= "{\\cxstit "@);
    assert(s.subrange(9, n - 1) =~= x);
    assert(crate::rtf::rtf_group(s, 0) == (Some(Directive::Stitch(x)), n));
    assert(rtf_items(s, n) =~= Seq::<Directive>::empty());
    assert(parse_rtf(s) =~= seq![Directive::Stitch(x)]);
}

#[verifier::spinoff_prover]
proof fn lemma_rtf_punct(p: Seq<char>)
    requires
        lacks(p, '}'),
        p.len() > 0 ==> p[0] != ' ',
    ensures
        parse_rtf(rtf_one(Directive::Punctuation(p))) == seq![Directive::Punctuation(p)],
{
    let s = rtf_one(Directive::Punctuation(p));
    let n = s.len() as int;
    reveal_strlit("{\\*\\cxplvrcase0\\cxplvrspc0}");
    reveal_strlit("{\\*\\cxplvrcase4\\cxplvrspc}");
    reveal_strlit("{\\*\\cxplvrcase0\\cxplvrspc _}");
    reveal_strlit("{\\*\\cxplvr");
    reveal_strlit("{\\cxp");
    reveal_strlit("{\\cxfing ");
    reveal_strlit("{\\cxstit ");
    reveal_strlit("}");
    reveal_strlit(" }");
    reveal_strlit(" ");
    lemma_not_at(s, 0, "{\\*\\cxplvrcase0\\cxplvrspc0}"@, 2);
    lemma_not_at(s, 0, "{\\*\\cxplvrcase4\\cxplvrspc}"@, 2);
    lemma_not_at(s, 0, "{\\*\\cxplvrcase0\\cxplvrspc _}"@, 2);
    lemma_not_at(s, 0, "{\\*\\cxplvr"@, 2);
    assert(s =~= seq!['{', '\\', 'c', 'x', 'p'] + p + seq![' ', '}']);
    assert(s.subrange(0, 5) =~= "{\\cxp"@);
    lemma_no_char(p, '}');
    let pst = if p.len() == 0 { 6int } else { 5int };
    if p.len() == 0 {
        assert(s.subrange(5, 6) =~= " "@);
    } else {
        assert(s[5] == p[0]);
        lemma_not_at(s, 5, " "@, 0);
    }
    assert forall|k: int| pst <= k < n - 1 implies !seq!['}'].contains(#[trigger] s[k]) by {
        lemma_single('}', s[k]);
        if k < n - 2 {
            assert(s[k] == p[k - 5]);
        }
    }
    lemma_single('}', s[n - 1]);
    lemma_scan_to(s, pst, seq!['}'], n - 1);
    let body = s.subrange(pst, n - 1);
    if p.len() == 0 {
        assert(body =~= Seq::<char>::empty());
    } else {
        assert(body =~= p + seq![' ']);
        assert(body.drop_last() =~= p);
    }
    assert(crate::rtf::punct_of(body) =~= p);
    assert(crate::rtf::rtf_group(s, 0) == (Some(Directive::Punctuation(p)), n));
    assert(rtf_items(s, n) =~= Seq::<Directive>::empty());
    assert(parse_rtf(s) =~= seq![Directive::Punctuation(p)]);
}

/// A directive written in RTF as one plain group (`\cxfing`, `\cxstit`,
/// `\cxp`) whose text holds no `}` (and, for punctuation, starts with no
/// space).
pub open spec fn rtf_group_directive(d: Directive) -> bool {
    match d {
        Directive::Fingerspell(x) => lacks(x, '}'),
        Directive::Stitch(x) => lacks(x, '}'),
        Directive::Punctuation(p) => lacks(p, '}') && (p.len() > 0 ==> p[0] != ' '),
        _ => false,
    }
}

/// Each directive described by `rtf_group_directive` reads back from its RTF
/// rendering as exactly itself.
pub proof fn lemma_rtf_round_trip_group(d: Directive)
    requires
        rtf_group_directive(d),
    ensures
        parse_rtf(rtf_one(d)) == seq![d],
{
    match d {
        Directive::Fingerspell(x) => lemma_rtf_fing(x),
        Directive::Stitch(x) => lemma_rtf_stit(x),
        Directive::Punctuation(p) => lemma_rtf_punct(p),
        _ => {},
    }
}

} // verus!
