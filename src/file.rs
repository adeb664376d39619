use vstd::prelude::*;

use crate::dict::{added, Dictionary, EntryView};
use crate::plover::nonempty;
use crate::rtf::{past_space, rtf_to_plover};
use crate::text::{
    alpha_end, alpha_end_exec, at, char_from, char_of, chars_of, digit_end, digit_end_exec,
    digits_capped, digits_val, has_at, is_alpha, is_digit, is_scalar, scan, scan_exec,
    slice_of, trim, trimmed, whole, DIGITS_CAP,
};
use crate::rtf::format_rtf_to_plover;

verus! {

// ---------------------------------------------------------------------------
// The grammar of an RTF dictionary file, as spec functions.
// ---------------------------------------------------------------------------

pub open spec fn is_ws(c: char) -> bool {
    c == ' ' || c == '\t' || c == '\r' || c == '\n'
}

/// Past the white space that starts at `i`.
pub open spec fn skip_ws(s: Seq<char>, i: int) -> int
    decreases s.len() - i,
{
    if 0 <= i < s.len() && is_ws(s[i]) {
        skip_ws(s, i + 1)
    } else {
        i
    }
}

/// The end of the negative number that may follow a control word at `k`.
pub open spec fn neg_end(s: Seq<char>, k: int) -> int {
    if 0 <= k && k + 1 < s.len() && s[k] == '-' && is_digit(s[k + 1]) {
        digit_end(s, k + 1)
    } else {
        k
    }
}

pub open spec fn is_symbol(c: char) -> bool {
    c == '\\' || c == '{' || c == '}' || c == '*' || c == '_' || c == '~'
}

/// One item at `i`, other than a group: a `\uN` escape (as the character
/// it names when `decode` holds, else as written), a control word, a control
/// symbol, or a run of text; its text and where it ends.
pub open spec fn flat_item(s: Seq<char>, i: int, decode: bool) -> Option<(Seq<char>, int)> {
    let de = digit_end(s, i + 2);
    let v = digits_val(s.subrange(i + 2, de));
    if i < 0 || i >= s.len() || s[i] == '{' || s[i] == '}' {
        None
    } else if s[i] == '\\' {
        if i + 2 < s.len() && s[i + 1] == 'u' && is_digit(s[i + 2]) && is_scalar(v as int) {
            if decode {
                Some((seq![char_of(v as int)], past_space(s, de)))
            } else {
                Some((s.subrange(i, past_space(s, de)), past_space(s, de)))
            }
        } else if i + 1 < s.len() && is_alpha(s[i + 1]) {
            let e = past_space(s, neg_end(s, alpha_end(s, i + 1)));
            Some((s.subrange(i, e), e))
        } else if i + 1 < s.len() && is_symbol(s[i + 1]) {
            Some((s.subrange(i, i + 2), i + 2))
        } else {
            None
        }
    } else {
        let j = scan(s, i + 1, seq!['\\', '{', '}']);
        Some((s.subrange(i, j), j))
    }
}

/// One item at `i`: a group `{...}` holding at least one item, or a flat
/// item; its text and where it ends.
pub open spec fn item(s: Seq<char>, i: int) -> Option<(Seq<char>, int)>
    decreases s.len() - i, 0int,
{
    if 0 <= i < s.len() && s[i] == '{' {
        let r = items(s, i + 1);
        if r.1 > i + 1 && r.1 < s.len() && s[r.1] == '}' {
            Some((seq!['{'] + r.0 + seq!['}'], r.1 + 1))
        } else {
            None
        }
    } else {
        flat_item(s, i, false)
    }
}

/// As many items as follow from `j`: their texts, one after another, and
/// where they end.
pub open spec fn items(s: Seq<char>, j: int) -> (Seq<char>, int)
    decreases s.len() - j, 1int,
{
    if j < 0 || j >= s.len() {
        (Seq::empty(), j)
    } else {
        match item(s, j) {
            Some(p) => if p.1 <= j || p.1 > s.len() {
                (Seq::empty(), j)
            } else {
                let r = items(s, p.1);
                (p.0 + r.0, r.1)
            },
            None => (Seq::empty(), j),
        }
    }
}

/// As many flat items as follow from `j`.
pub open spec fn flat_items(s: Seq<char>, j: int) -> (Seq<char>, int)
    decreases s.len() - j,
{
    match flat_item(s, j, true) {
        Some(p) => if p.1 <= j || p.1 > s.len() {
            (Seq::empty(), j)
        } else {
            let r = flat_items(s, p.1);
            (p.0 + r.0, r.1)
        },
        None => (Seq::empty(), j),
    }
}

/// What follows an outline up to `term`: the translation text, the text of
/// its `\cxcomment` groups, and the position after `term`.
pub open spec fn content(s: Seq<char>, j: int, term: Seq<char>) -> Option<
    (Seq<char>, Seq<char>, int),
>
    decreases s.len() - j,
{
    let r = items(s, j + 14);
    if j < 0 || j >= s.len() {
        None
    } else if at(s, j, term) {
        Some((Seq::empty(), Seq::empty(), j + term.len()))
    } else if at(s, j, "{\\*\\cxcomment "@) && j < r.1 < s.len() && s[r.1] == '}' {
        match content(s, r.1 + 1, term) {
            Some(c) => Some((c.0, r.0 + c.1, c.2)),
            None => None,
        }
    } else {
        match item(s, j) {
            Some(p) => if p.1 <= j || p.1 > s.len() {
                None
            } else {
                match content(s, p.1, term) {
                    Some(c) => Some((p.0 + c.0, c.1, c.2)),
                    None => None,
                }
            },
            None => None,
        }
    }
}

/// An entry whose outline starts at `i` and whose text ends at `term`: the
/// outline, the translation and comment texts, and where it ends.
pub open spec fn entry_at(s: Seq<char>, i: int, term: Seq<char>) -> Option<
    (Seq<char>, Seq<char>, Seq<char>, int),
> {
    let g = flat_items(s, i);
    if g.1 > i && g.1 < s.len() && s[g.1] == '}' {
        match content(s, g.1 + 1, term) {
            Some(c) => Some((g.0, c.0, c.1, c.2)),
            None => None,
        }
    } else {
        None
    }
}

/// The entries from `i` on (just after a `{\*\cxs `): entries that end where
/// the next one starts, as long as there are such, then one that ends at
/// the closing brace of the dictionary; and the position after that brace.
pub open spec fn entry_list(s: Seq<char>, i: int) -> Option<
    (Seq<(Seq<char>, Seq<char>, Seq<char>)>, int),
>
    decreases s.len() - i,
{
    match entry_at(s, i, "{\\*\\cxs "@) {
        Some(e) => if e.3 <= i || e.3 > s.len() {
            None
        } else {
            match entry_list(s, e.3) {
                Some(rest) => Some((seq![(e.0, e.1, e.2)] + rest.0, rest.1)),
                None => None,
            }
        },
        None => match entry_at(s, i, "}"@) {
            Some(e) => Some((seq![(e.0, e.1, e.2)], e.3)),
            None => None,
        },
    }
}

/// Past the items from `j` up to `term`, and past `term`.
pub open spec fn skip_to(s: Seq<char>, j: int, term: Seq<char>) -> Option<int>
    decreases s.len() - j,
{
    if j < 0 || j >= s.len() {
        None
    } else if at(s, j, term) {
        Some(j + term.len())
    } else {
        match item(s, j) {
            Some(p) => if p.1 <= j || p.1 > s.len() {
                None
            } else {
                skip_to(s, p.1, term)
            },
            None => None,
        }
    }
}

/// Where the header `{\rtf1\ansi{\*\cxrev100}\cxdict` ends, white space
/// allowed between its tokens.
pub open spec fn header_end(s: Seq<char>) -> Option<int> {
    let at_open = skip_ws(s, 0);
    let at_rtf = skip_ws(s, at_open + 1);
    let at_ansi = skip_ws(s, at_rtf + 5);
    let at_rev = skip_ws(s, at_ansi + 5);
    let at_dict = skip_ws(s, at_rev + 13);
    if at(s, at_open, "{"@) && at(s, at_rtf, "\\rtf1"@) && at(s, at_ansi, "\\ansi"@) && at(
        s,
        at_rev,
        "{\\*\\cxrev100}"@,
    ) && at(s, at_dict, "\\cxdict"@) {
        Some(skip_ws(s, at_dict + 7))
    } else {
        None
    }
}

/// Past the optional `{\stylesheet ...}` group at `i`.
pub open spec fn past_stylesheet(s: Seq<char>, i: int) -> int {
    let r = items(s, i + 12);
    if at(s, i, "{\\stylesheet"@) && r.1 > i + 12 && r.1 < s.len() && s[r.1] == '}' {
        r.1 + 1
    } else {
        i
    }
}

/// A dictionary file: its system name (the text of its `\cxsystem` group)
/// and the raw texts of its entries, or `None` where the file does not
/// follow the format, or holds more than white space after the brace that
/// closes the dictionary.
pub open spec fn parse_dictionary(s: Seq<char>) -> Option<
    (Seq<char>, Seq<(Seq<char>, Seq<char>, Seq<char>)>),
> {
    match header_end(s) {
        None => None,
        Some(h) => {
            let sys = items(s, h + 12);
            if at(s, h, "{\\*\\cxsystem"@) && sys.1 < s.len() && s[sys.1] == '}' {
                let b = past_stylesheet(s, skip_ws(s, sys.1 + 1));
                match skip_to(s, b, "{\\*\\cxs "@) {
                    Some(e) => match entry_list(s, e) {
                        Some(es) => if skip_ws(s, es.1) == s.len() {
                            Some((sys.0, es.0))
                        } else {
                            None
                        },
                        None => None,
                    },
                    None => match skip_to(s, b, "}"@) {
                        Some(e) => if skip_ws(s, e) == s.len() {
                            Some((sys.0, Seq::empty()))
                        } else {
                            None
                        },
                        None => None,
                    },
                }
            } else {
                None
            }
        },
    }
}

} // verus!

verus! {

// ---------------------------------------------------------------------------
// The parser.
// ---------------------------------------------------------------------------

proof fn lemma_digit_run(s: Seq<char>, i: int)
    requires
        0 <= i <= s.len(),
    ensures
        i <= digit_end(s, i) <= s.len(),
        forall|k: int| i <= k < digit_end(s, i) ==> is_digit(#[trigger] s[k]),
    decreases s.len() - i,
{
    if i < s.len() && is_digit(s[i]) {
        lemma_digit_run(s, i + 1);
    }
}

fn skip_ws_exec(s: &Vec<char>, i: usize) -> (r: usize)
    requires
        i <= s@.len(),
    ensures
        r == skip_ws(s@, i as int),
        i <= r <= s@.len(),
{
    let mut j = i;
    while j < s.len() && (s[j] == ' ' || s[j] == '\t' || s[j] == '\r' || s[j] == '\n')
        invariant
            i <= j <= s@.len(),
            skip_ws(s@, i as int) == skip_ws(s@, j as int),
        decreases s@.len() - j,
    {
        j = j + 1;
    }
    j
}

fn past_space_exec(s: &Vec<char>, k: usize) -> (r: usize)
    requires
        k <= s@.len(),
    ensures
        r == past_space(s@, k as int),
        k <= r <= s@.len(),
{
    if k < s.len() && s[k] == ' ' { k + 1 } else { k }
}

fn flat_item_exec(s: &Vec<char>, i: usize, decode: bool) -> (r: Option<(Vec<char>, usize)>)
    requires
        i <= s@.len(),
    ensures
        match r {
            Some(p) => flat_item(s@, i as int, decode) == Some((p.0@, p.1 as int)) && i < p.1
                <= s@.len(),
            None => flat_item(s@, i as int, decode) is None,
        },
{
    let n = s.len();
    if i >= n || s[i] == '{' || s[i] == '}' {
        return None;
    }
    if s[i] == '\\' {
        if i < n && n - i > 2 && s[i + 1] == 'u' && '0' <= s[i + 2] && s[i + 2] <= '9' {
            let de = digit_end_exec(s, i + 2);
            proof {
                lemma_digit_run(s@, i + 2);
            }
            let v = digits_capped(s, i + 2, de);
            let ghost dv = digits_val(s@.subrange(i + 2, de as int));
            if v < DIGITS_CAP {
                assert(v as int == dv);
                match char_from(v) {
                    Some(_) if !decode => {
                        let e = past_space_exec(s, de);
                        return Some((slice_of(s, i, e), e));
                    },
                    Some(c) => {
                        proof {
                            vstd::utf8::char_u32_cast(c, v);
                            assert((dv as int) as u32 == v);
                        }
                        let mut t: Vec<char> = Vec::new();
                        t.push(c);
                        assert(t@ =~= seq![char_of(dv as int)]);
                        return Some((t, past_space_exec(s, de)));
                    },
                    None => {},
                }
            }
        }
        if i + 1 < n && (('a' <= s[i + 1] && s[i + 1] <= 'z') || ('A' <= s[i + 1] && s[i + 1]
            <= 'Z')) {
            let ae = alpha_end_exec(s, i + 1);
            let ne = if ae < n && n - ae > 1 && s[ae] == '-' && '0' <= s[ae + 1] && s[ae + 1] <= '9' {
                digit_end_exec(s, ae + 1)
            } else {
                ae
            };
            let e = past_space_exec(s, ne);
            return Some((slice_of(s, i, e), e));
        }
        if i + 1 < n {
            let c = s[i + 1];
            if c == '\\' || c == '{' || c == '}' || c == '*' || c == '_' || c == '~' {
                return Some((slice_of(s, i, i + 2), i + 2));
            }
        }
        return None;
    }
    let j = scan_exec(s, i + 1, "\\{}");
    proof {
        reveal_strlit("\\{}");
        assert("\\{}"@ =~= seq!['\\', '{', '}']);
    }
    Some((slice_of(s, i, j), j))
}

fn item_exec(s: &Vec<char>, i: usize) -> (r: Option<(Vec<char>, usize)>)
    requires
        i <= s@.len(),
    ensures
        match r {
            Some(p) => item(s@, i as int) == Some((p.0@, p.1 as int)) && i < p.1 <= s@.len(),
            None => item(s@, i as int) is None,
        },
    decreases s@.len() - i, 0int,
{
    if i < s.len() && s[i] == '{' {
        let (inner, e) = items_exec(s, i + 1);
        if e > i + 1 && e < s.len() && s[e] == '}' {
            let mut t: Vec<char> = Vec::new();
            t.push('{');
            let mut inner = inner;
            t.append(&mut inner);
            t.push('}');
            assert(t@ =~= seq!['{'] + items(s@, i + 1).0 + seq!['}']);
            return Some((t, e + 1));
        }
        return None;
    }
    flat_item_exec(s, i, false)
}

fn items_exec(s: &Vec<char>, j: usize) -> (r: (Vec<char>, usize))
    requires
        j <= s@.len(),
    ensures
        items(s@, j as int) == (r.0@, r.1 as int),
        j <= r.1 <= s@.len(),
    decreases s@.len() - j, 1int,
{
    let mut acc: Vec<char> = Vec::new();
    let mut k = j;
    while k < s.len()
        invariant
            j <= k <= s@.len(),
            items(s@, j as int) == (acc@ + items(s@, k as int).0, items(s@, k as int).1),
        decreases s@.len() - k,
    {
        match item_exec(s, k) {
            Some((t, e)) => {
                let ghost r = items(s@, e as int);
                assert(items(s@, k as int) == (t@ + r.0, r.1));
                let mut t = t;
                let ghost before = acc@;
                acc.append(&mut t);
                assert(acc@ + r.0 =~= before + (items(s@, k as int).0));
                k = e;
            },
            None => {
                assert(items(s@, k as int) == (Seq::<char>::empty(), k as int));
                assert(acc@ + Seq::<char>::empty() =~= acc@);
                return (acc, k);
            },
        }
    }
    assert(items(s@, k as int) == (Seq::<char>::empty(), k as int));
    assert(acc@ + Seq::<char>::empty() =~= acc@);
    (acc, k)
}

proof fn lemma_flat_items_len(s: Seq<char>, j: int)
    requires
        0 <= j <= s.len(),
    ensures
        j <= flat_items(s, j).1 <= s.len(),
        flat_items(s, j).0.len() <= flat_items(s, j).1 - j,
    decreases s.len() - j,
{
    match flat_item(s, j, true) {
        Some(p) => {
            if p.1 > j && p.1 <= s.len() {
                lemma_flat_items_len(s, p.1);
                if s[j] == '\\' {
                    lemma_digit_run(s, j + 2);
                }
            }
        },
        None => {},
    }
}

fn flat_items_exec(s: &Vec<char>, j: usize) -> (r: (Vec<char>, usize))
    requires
        j <= s@.len(),
    ensures
        flat_items(s@, j as int) == (r.0@, r.1 as int),
        j <= r.1 <= s@.len(),
{
    let mut acc: Vec<char> = Vec::new();
    let mut k = j;
    loop
        invariant
            j <= k <= s@.len(),
            flat_items(s@, j as int) == (acc@ + flat_items(s@, k as int).0, flat_items(
                s@,
                k as int,
            ).1),
        decreases s@.len() - k,
    {
        match flat_item_exec(s, k, true) {
            Some((t, e)) => {
                let ghost r = flat_items(s@, e as int);
                assert(flat_items(s@, k as int) == (t@ + r.0, r.1));
                let mut t = t;
                let ghost before = acc@;
                acc.append(&mut t);
                assert(acc@ + r.0 =~= before + (flat_items(s@, k as int).0));
                k = e;
            },
            None => {
                assert(flat_items(s@, k as int) == (Seq::<char>::empty(), k as int));
                assert(acc@ + Seq::<char>::empty() =~= acc@);
                return (acc, k);
            },
        }
    }
}

/// What follows an outline at `j` up to `term`.
fn content_exec(s: &Vec<char>, j: usize, term: &str) -> (r: Option<(Vec<char>, Vec<char>, usize)>)
    requires
        j <= s@.len(),
    ensures
        match r {
            Some(c) => content(s@, j as int, term@) == Some((c.0@, c.1@, c.2 as int)) && c.2
                <= s@.len(),
            None => content(s@, j as int, term@) is None,
        },
{
    let mut tr: Vec<char> = Vec::new();
    let mut cm: Vec<char> = Vec::new();
    let mut k = j;
    let tl = term.unicode_len();
    proof {
        reveal_strlit("{\\*\\cxcomment ");
    }
    loop
        invariant
            j <= k <= s@.len(),
            tl == term@.len(),
            content(s@, j as int, term@) == match content(s@, k as int, term@) {
                Some(c) => Some((tr@ + c.0, cm@ + c.1, c.2)),
                None => None,
            },
        decreases s@.len() - k,
    {
        if k >= s.len() {
            return None;
        }
        if has_at(s, k, term) {
            assert(tr@ + Seq::<char>::empty() =~= tr@);
            assert(cm@ + Seq::<char>::empty() =~= cm@);
            return Some((tr, cm, k + tl));
        }
        let n = s.len();
        proof {
            reveal_strlit("{\\*\\cxcomment ");
        }
        let mut took_comment = false;
        if has_at(s, k, "{\\*\\cxcomment ") {
            let (mut c, e) = items_exec(s, k + 14);
            if k < e && e < s.len() && s[e] == '}' {
                let ghost before = cm@;
                proof {
                    let rest = content(s@, e + 1, term@);
                    assert(content(s@, k as int, term@) == match rest {
                        Some(x) => Some((x.0, c@ + x.1, x.2)),
                        None => None,
                    });
                    match rest {
                        Some(x) => {
                            assert(cm@ + (c@ + x.1) =~= (cm@ + c@) + x.1);
                        },
                        None => {},
                    }
                }
                cm.append(&mut c);
                k = e + 1;
                took_comment = true;
            }
        }
        if !took_comment {
            match item_exec(s, k) {
                Some((t, e)) => {
                    proof {
                        let rest = content(s@, e as int, term@);
                        match rest {
                            Some(x) => {
                                assert(tr@ + (t@ + x.0) =~= (tr@ + t@) + x.0);
                            },
                            None => {},
                        }
                    }
                    let mut t = t;
                    tr.append(&mut t);
                    k = e;
                },
                None => {
                    return None;
                },
            }
        }
    }
}

/// An entry whose outline starts at `i`, ending at `term`.
fn entry_exec(s: &Vec<char>, i: usize, term: &str) -> (r: Option<
    (Vec<char>, Vec<char>, Vec<char>, usize),
>)
    requires
        i <= s@.len(),
    ensures
        match r {
            Some(e) => entry_at(s@, i as int, term@) == Some((e.0@, e.1@, e.2@, e.3 as int))
                && e.3 <= s@.len() && e.0@.len() <= s@.len() - i,
            None => entry_at(s@, i as int, term@) is None,
        },
{
    let (st, g) = flat_items_exec(s, i);
    proof {
        lemma_flat_items_len(s@, i as int);
    }
    if g > i && g < s.len() && s[g] == '}' {
        match content_exec(s, g + 1, term) {
            Some((t, c, e)) => Some((st, t, c, e)),
            None => None,
        }
    } else {
        None
    }
}

/// The raw entries of a dictionary, from `i` (just after a `{\*\cxs `) on.
fn entry_list_exec(s: &Vec<char>, i: usize) -> (r: Option<(Vec<(Vec<char>, Vec<char>, Vec<char>)>, usize)>)
    requires
        0 < i <= s@.len(),
    ensures
        match r {
            Some(v) => entry_list(s@, i as int) == Some((raw_views(v.0@), v.1 as int)) && v.1
                <= s@.len() && forall|k: int|
                0 <= k < v.0@.len() ==> (#[trigger] v.0@[k]).0@.len() < s@.len(),
            None => entry_list(s@, i as int) is None,
        },
{
    let mut out: Vec<(Vec<char>, Vec<char>, Vec<char>)> = Vec::new();
    let mut k = i;
    loop
        invariant
            0 < i <= k <= s@.len(),
            entry_list(s@, i as int) == match entry_list(s@, k as int) {
                Some(rest) => Some((raw_views(out@) + rest.0, rest.1)),
                None => None,
            },
            forall|m: int| 0 <= m < out@.len() ==> (#[trigger] out@[m]).0@.len() < s@.len(),
        decreases s@.len() - k,
    {
        match entry_exec(s, k, "{\\*\\cxs ") {
            Some((st, t, c, e)) => {
                if e <= k {
                    return None;
                }
                let ghost prev = out@;
                proof {
                    match entry_list(s@, e as int) {
                        Some(rest) => {
                            assert(raw_views(prev.push((st, t, c))) =~= raw_views(prev).push(
                                (st@, t@, c@),
                            ));
                            assert(raw_views(prev) + (seq![(st@, t@, c@)] + rest.0) =~= raw_views(
                                prev.push((st, t, c)),
                            ) + rest.0);
                        },
                        None => {},
                    }
                }
                out.push((st, t, c));
                k = e;
            },
            None => {
                match entry_exec(s, k, "}") {
                    Some((st, t, c, e)) => {
                        let ghost prev = out@;
                        out.push((st, t, c));
                        assert(raw_views(out@) =~= raw_views(prev) + seq![(st@, t@, c@)]);
                        return Some((out, e));
                    },
                    None => {
                        return None;
                    },
                }
            },
        }
    }
}

/// Past the items from `j` up to `term`, and past `term`.
fn skip_to_exec(s: &Vec<char>, j: usize, term: &str) -> (r: Option<usize>)
    requires
        j <= s@.len(),
    ensures
        match r {
            Some(e) => skip_to(s@, j as int, term@) == Some(e as int) && j + term@.len() <= e
                <= s@.len(),
            None => skip_to(s@, j as int, term@) is None,
        },
{
    let mut k = j;
    let tl = term.unicode_len();
    loop
        invariant
            j <= k <= s@.len(),
            tl == term@.len(),
            skip_to(s@, j as int, term@) == skip_to(s@, k as int, term@),
        decreases s@.len() - k,
    {
        if k >= s.len() {
            return None;
        }
        if has_at(s, k, term) {
            return Some(k + tl);
        }
        match item_exec(s, k) {
            Some((_, e)) => {
                k = e;
            },
            None => {
                return None;
            },
        }
    }
}

fn header_end_exec(s: &Vec<char>) -> (r: Option<usize>)
    ensures
        match r {
            Some(h) => header_end(s@) == Some(h as int) && h <= s@.len(),
            None => header_end(s@) is None,
        },
{
    proof {
        reveal_strlit("{");
        reveal_strlit("\\rtf1");
        reveal_strlit("\\ansi");
        reveal_strlit("{\\*\\cxrev100}");
        reveal_strlit("\\cxdict");
    }
    let n = s.len();
    let at_open = skip_ws_exec(s, 0);
    if !has_at(s, at_open, "{") {
        return None;
    }
    let at_rtf = skip_ws_exec(s, at_open + 1);
    if !has_at(s, at_rtf, "\\rtf1") {
        return None;
    }
    let at_ansi = skip_ws_exec(s, at_rtf + 5);
    if !has_at(s, at_ansi, "\\ansi") {
        return None;
    }
    let at_rev = skip_ws_exec(s, at_ansi + 5);
    if !has_at(s, at_rev, "{\\*\\cxrev100}") {
        return None;
    }
    let at_dict = skip_ws_exec(s, at_rev + 13);
    if !has_at(s, at_dict, "\\cxdict") {
        return None;
    }
    Some(skip_ws_exec(s, at_dict + 7))
}

/// The raw entries as sequences.
pub open spec fn raw_views(v: Seq<(Vec<char>, Vec<char>, Vec<char>)>) -> Seq<
    (Seq<char>, Seq<char>, Seq<char>),
> {
    v.map_values(|e: (Vec<char>, Vec<char>, Vec<char>)| (e.0@, e.1@, e.2@))
}

/// The system name and raw entries of a dictionary file.
fn parse_raw(s: &Vec<char>) -> (r: Option<(Vec<char>, Vec<(Vec<char>, Vec<char>, Vec<char>)>)>)
    ensures
        match r {
            Some(p) => parse_dictionary(s@) == Some((p.0@, raw_views(p.1@))) && forall|k: int|
                0 <= k < p.1@.len() ==> (#[trigger] p.1@[k]).0@.len() < s@.len(),
            None => parse_dictionary(s@) is None,
        },
{
    proof {
        reveal_strlit("{\\*\\cxsystem");
        reveal_strlit("{\\stylesheet");
        reveal_strlit("{\\*\\cxs ");
    }
    let n = s.len();
    let h = match header_end_exec(s) {
        Some(h) => h,
        None => {
            return None;
        },
    };
    if !has_at(s, h, "{\\*\\cxsystem") {
        return None;
    }
    let (sys, e) = items_exec(s, h + 12);
    if e >= s.len() || s[e] != '}' {
        return None;
    }
    let p = skip_ws_exec(s, e + 1);
    let mut b = p;
    if has_at(s, p, "{\\stylesheet") {
        let (_, f) = items_exec(s, p + 12);
        if f > p + 12 && f < s.len() && s[f] == '}' {
            b = f + 1;
        }
    }
    match skip_to_exec(s, b, "{\\*\\cxs ") {
        Some(start) => match entry_list_exec(s, start) {
            Some((es, end)) => {
                if skip_ws_exec(s, end) == s.len() {
                    Some((sys, es))
                } else {
                    None
                }
            },
            None => None,
        },
        None => match skip_to_exec(s, b, "}") {
            Some(end) => {
                if skip_ws_exec(s, end) != s.len() {
                    return None;
                }
                let es: Vec<(Vec<char>, Vec<char>, Vec<char>)> = Vec::new();
                assert(raw_views(es@) =~= Seq::<(Seq<char>, Seq<char>, Seq<char>)>::empty());
                Some((sys, es))
            },
            None => None,
        },
    }
}

} // verus!

verus! {

// ---------------------------------------------------------------------------
// Building the dictionary.
// ---------------------------------------------------------------------------

/// An entry as the dictionary stores it: its translation read from RTF into
/// Plover after trimming, its comment trimmed and dropped when empty.
pub open spec fn stored(e: (Seq<char>, Seq<char>, Seq<char>)) -> EntryView {
    EntryView {
        steno: e.0,
        translation: rtf_to_plover(trimmed(e.1)),
        comment: nonempty(trimmed(e.2)),
    }
}

/// What a dictionary holds after adding the raw entries `es` in order.
pub open spec fn built(es: Seq<(Seq<char>, Seq<char>, Seq<char>)>) -> Seq<(Seq<char>, EntryView)>
    decreases es.len(),
{
    if es.len() == 0 {
        Seq::empty()
    } else {
        let e = es.last();
        added(built(es.drop_last()), e.0, stored(e))
    }
}

/// Reads an RTF dictionary file: its system name and its entries, each
/// translation turned into Plover. `None` where the file does not follow
/// the format.
pub fn parse_file(input: &str) -> (r: Option<Dictionary>)
    ensures
        match r {
            Some(d) => match parse_dictionary(input@) {
                Some(p) => d.wf() && d.cre_system@ == trimmed(p.0) && d.contents() == built(p.1),
                None => false,
            },
            None => parse_dictionary(input@) is None,
        },
{
    let s = chars_of(input);
    let n = s.len();
    let (sys, es) = match parse_raw(&s) {
        Some(p) => p,
        None => {
            return None;
        },
    };
    let name = whole(&sys);
    let mut d = Dictionary::new(trim(name.as_str()));
    let mut k: usize = 0;
    while k < es.len()
        invariant
            k <= es@.len(),
            n == s@.len(),
            forall|m: int| 0 <= m < es@.len() ==> (#[trigger] es@[m]).0@.len() < s@.len(),
            d.wf(),
            d.cre_system@ == trimmed(sys@),
            d.contents() == built(raw_views(es@).take(k as int)),
        decreases es@.len() - k,
    {
        let steno = whole(&es[k].0);
        let text = whole(&es[k].1);
        let note = whole(&es[k].2);
        let translation = format_rtf_to_plover(trim(text.as_str()));
        let c = trim(note.as_str());
        let comment = if c.is_empty() {
            None
        } else {
            Some(c.to_owned())
        };
        assert(es@[k as int].0@.len() < s@.len());
        d.add_entry(steno, translation, comment);
        proof {
            let t = raw_views(es@).take(k + 1);
            assert(t.drop_last() =~= raw_views(es@).take(k as int));
            assert(t.last() == raw_views(es@)[k as int]);
        }
        k = k + 1;
    }
    assert(raw_views(es@).take(k as int) =~= raw_views(es@));
    Some(d)
}

/// Reads an RTF dictionary file after trimming the white space around it.
pub fn parse_rtf(input: &str) -> (r: Option<Dictionary>)
    ensures
        match r {
            Some(d) => match parse_dictionary(trimmed(input@)) {
                Some(p) => d.wf() && d.cre_system@ == trimmed(p.0) && d.contents() == built(p.1),
                None => false,
            },
            None => parse_dictionary(trimmed(input@)) is None,
        },
{
    parse_file(trim(input))
}

} // verus!
