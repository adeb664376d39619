use vstd::prelude::*;
use vstd::std_specs::iter::IteratorSpec;

verus! {

/// Relies on `String::push`: the character is appended at the end.
pub assume_specification[ String::push ](s: &mut String, ch: char)
    ensures
        final(s)@ == old(s)@.push(ch),
;

/// What `str::to_lowercase` makes of a string.
pub uninterp spec fn lower_of(s: Seq<char>) -> Seq<char>;

/// Relies on `str::to_lowercase`: the lower-case form of `s`, a function of
/// its characters alone.
#[verifier::external_body]
pub(crate) fn lowercase(s: &str) -> (r: String)
    ensures
        r@ == lower_of(s@),
{
    s.to_lowercase()
}

/// A character with the Unicode property White_Space.
pub open spec fn is_white(c: char) -> bool {
    let v = c as u32;
    (0x9 <= v <= 0xD) || v == 0x20 || v == 0x85 || v == 0xA0 || v == 0x1680 || (0x2000 <= v
        <= 0x200A) || v == 0x2028 || v == 0x2029 || v == 0x202F || v == 0x205F || v == 0x3000
}

/// `s` without its leading white space.
pub open spec fn trim_start(s: Seq<char>) -> Seq<char>
    decreases s.len(),
{
    if s.len() > 0 && is_white(s[0]) {
        trim_start(s.drop_first())
    } else {
        s
    }
}

/// `s` without its trailing white space.
pub open spec fn trim_end(s: Seq<char>) -> Seq<char>
    decreases s.len(),
{
    if s.len() > 0 && is_white(s.last()) {
        trim_end(s.drop_last())
    } else {
        s
    }
}

/// `s` without its leading and trailing white space.
pub open spec fn trimmed(s: Seq<char>) -> Seq<char> {
    trim_end(trim_start(s))
}

/// Relies on `str::trim`: `s` without its leading and trailing white space,
/// white space being the characters of the Unicode property White_Space.
#[verifier::external_body]
pub(crate) fn trim(s: &str) -> (r: &str)
    ensures
        r@ == trimmed(s@),
{
    s.trim()
}

/// Relies on `char::from_u32`: the character with code `v`, when `v` is a
/// Unicode scalar value.
#[verifier::external_body]
pub(crate) fn char_from(v: u32) -> (r: Option<char>)
    ensures
        r is Some <==> is_scalar(v as int),
        r matches Some(c) ==> c as u32 == v,
{
    char::from_u32(v)
}

/// `v` is the code of a character: not above 0x10FFFF and not a surrogate.
pub open spec fn is_scalar(v: int) -> bool {
    (0 <= v < 0xD800) || (0xE000 <= v <= 0x10FFFF)
}

/// The character whose code is `v`.
pub open spec fn char_of(v: int) -> char {
    (v as u32) as char
}

/// `lit` stands in `s` at position `i`.
pub open spec fn at(s: Seq<char>, i: int, lit: Seq<char>) -> bool {
    0 <= i && i + lit.len() <= s.len() && s.subrange(i, i + lit.len()) == lit
}

/// The code of `c`, with ASCII capitals taken to lower case.
pub open spec fn fold(c: char) -> u32 {
    if 65 <= c as u32 <= 90 {
        (c as u32 + 32) as u32
    } else {
        c as u32
    }
}

/// `lit`, written in lower case, stands in `s` at position `i`, ignoring the
/// case of ASCII letters.
pub open spec fn at_nocase(s: Seq<char>, i: int, lit: Seq<char>) -> bool {
    0 <= i && i + lit.len() <= s.len() && forall|k: int|
        0 <= k < lit.len() ==> #[trigger] fold(s[i + k]) == lit[k] as u32
}

/// `x` is the lower-case `lit`, ignoring the case of ASCII letters.
pub open spec fn eq_nocase(x: Seq<char>, lit: Seq<char>) -> bool {
    x.len() == lit.len() && at_nocase(x, 0, lit)
}

/// The first position from `i` on that holds one of `stops`, or the length.
pub open spec fn scan(s: Seq<char>, i: int, stops: Seq<char>) -> int
    decreases s.len() - i,
{
    if i >= s.len() {
        s.len() as int
    } else if stops.contains(s[i]) {
        i
    } else {
        scan(s, i + 1, stops)
    }
}

pub open spec fn is_alpha(c: char) -> bool {
    ('a' <= c && c <= 'z') || ('A' <= c && c <= 'Z')
}

pub open spec fn is_digit(c: char) -> bool {
    '0' <= c && c <= '9'
}

/// The end of the run of ASCII letters that starts at `i`.
pub open spec fn alpha_end(s: Seq<char>, i: int) -> int
    decreases s.len() - i,
{
    if i >= s.len() || !is_alpha(s[i]) {
        if i >= s.len() { s.len() as int } else { i }
    } else {
        alpha_end(s, i + 1)
    }
}

/// The end of the run of decimal digits that starts at `i`.
pub open spec fn digit_end(s: Seq<char>, i: int) -> int
    decreases s.len() - i,
{
    if i >= s.len() || !is_digit(s[i]) {
        if i >= s.len() { s.len() as int } else { i }
    } else {
        digit_end(s, i + 1)
    }
}

/// The number that a run of decimal digits writes.
pub open spec fn digits_val(d: Seq<char>) -> nat
    decreases d.len(),
{
    if d.len() == 0 {
        0
    } else {
        digits_val(d.drop_last()) * 10 + (d.last() as nat - '0' as nat) as nat
    }
}

/// The characters of `s`, in order.
pub fn chars_of(s: &str) -> (r: Vec<char>)
    ensures
        r@ == s@,
{
    let mut out: Vec<char> = Vec::new();
    for c in it: s.chars()
        invariant
            out@ == it.seq().take(it.index() as int),
    {
        out.push(c);
    }
    assert(out@ =~= s@);
    out
}

/// The characters of `s` from `lo` up to `hi`, as a string.
pub fn string_of(s: &Vec<char>, lo: usize, hi: usize) -> (r: String)
    requires
        lo <= hi <= s@.len(),
    ensures
        r@ == s@.subrange(lo as int, hi as int),
{
    let mut out = String::new();
    let mut k = lo;
    while k < hi
        invariant
            lo <= k <= hi <= s@.len(),
            out@ == s@.subrange(lo as int, k as int),
        decreases hi - k,
    {
        out.push(s[k]);
        assert(s@.subrange(lo as int, k + 1) =~= s@.subrange(lo as int, k as int).push(s@[k as int]));
        k = k + 1;
    }
    out
}

/// The characters of `v`, as a string.
pub fn whole(v: &Vec<char>) -> (r: String)
    ensures
        r@ == v@,
{
    let r = string_of(v, 0, v.len());
    assert(v@.subrange(0, v@.len() as int) =~= v@);
    r
}

/// The characters of `s` from `lo` up to `hi`.
pub fn slice_of(s: &Vec<char>, lo: usize, hi: usize) -> (r: Vec<char>)
    requires
        lo <= hi <= s@.len(),
    ensures
        r@ == s@.subrange(lo as int, hi as int),
{
    let mut out: Vec<char> = Vec::new();
    let mut k = lo;
    while k < hi
        invariant
            lo <= k <= hi <= s@.len(),
            out@ == s@.subrange(lo as int, k as int),
        decreases hi - k,
    {
        out.push(s[k]);
        assert(s@.subrange(lo as int, k + 1) =~= s@.subrange(lo as int, k as int).push(s@[k as int]));
        k = k + 1;
    }
    out
}

/// Whether `lit` stands in `s` at position `i`.
pub fn has_at(s: &Vec<char>, i: usize, lit: &str) -> (r: bool)
    ensures
        r == at(s@, i as int, lit@),
{
    let l = chars_of(lit);
    if i > s.len() || l.len() > s.len() - i {
        return false;
    }
    let mut k: usize = 0;
    while k < l.len()
        invariant
            i + l@.len() <= s@.len(),
            i + l.len() <= s.len(),
            l.len() == l@.len(),
            k <= l@.len(),
            l@ == lit@,
            forall|j: int| 0 <= j < k ==> s@[i + j] == l@[j],
        decreases l@.len() - k,
    {
        let j = i + k;
        if s[j] != l[k] {
            assert(s@.subrange(i as int, i + l@.len())[k as int] != lit@[k as int]);
            return false;
        }
        k = k + 1;
    }
    assert(s@.subrange(i as int, i + l@.len()) =~= lit@);
    true
}

/// The string `s` is exactly `lit`.
pub fn is_lit(s: &Vec<char>, lit: &str) -> (r: bool)
    ensures
        r == (s@ == lit@),
{
    let r = has_at(s, 0, lit) && s.len() == lit.unicode_len();
    proof {
        if r {
            assert(s@ =~= s@.subrange(0, lit@.len() as int));
        }
        if s@ == lit@ {
            assert(s@.subrange(0, lit@.len() as int) =~= s@);
        }
    }
    r
}

/// The string `s` is exactly `lit`.
pub fn str_is(s: &str, lit: &str) -> (r: bool)
    ensures
        r == (s@ == lit@),
{
    let v = chars_of(s);
    is_lit(&v, lit)
}

pub fn fold_exec(c: char) -> (r: u32)
    ensures
        r == fold(c),
{
    let v = c as u32;
    if 65 <= v && v <= 90 {
        v + 32
    } else {
        v
    }
}

/// Whether the lower-case `lit` stands in `s` at `i`, ignoring ASCII case.
pub fn has_at_nocase(s: &Vec<char>, i: usize, lit: &str) -> (r: bool)
    ensures
        r == at_nocase(s@, i as int, lit@),
{
    let l = chars_of(lit);
    if i > s.len() || l.len() > s.len() - i {
        return false;
    }
    let mut k: usize = 0;
    while k < l.len()
        invariant
            i + l@.len() <= s@.len(),
            i + l.len() <= s.len(),
            l.len() == l@.len(),
            k <= l@.len(),
            l@ == lit@,
            forall|j: int| 0 <= j < k ==> #[trigger] fold(s@[i + j]) == l@[j] as u32,
        decreases l@.len() - k,
    {
        let j = i + k;
        if fold_exec(s[j]) != l[k] as u32 {
            return false;
        }
        k = k + 1;
    }
    true
}

/// Whether `x` is the lower-case `lit`, ignoring the case of ASCII letters.
pub fn is_lit_nocase(x: &Vec<char>, lit: &str) -> (r: bool)
    ensures
        r == eq_nocase(x@, lit@),
{
    x.len() == lit.unicode_len() && has_at_nocase(x, 0, lit)
}

/// The first position from `i` on that holds one of `stops`, or the length.
pub fn scan_exec(s: &Vec<char>, i: usize, stops: &str) -> (r: usize)
    requires
        i <= s@.len(),
    ensures
        r == scan(s@, i as int, stops@),
        i <= r <= s@.len(),
{
    let st = chars_of(stops);
    let mut j = i;
    while j < s.len()
        invariant
            i <= j <= s@.len(),
            st@ == stops@,
            scan(s@, i as int, stops@) == scan(s@, j as int, stops@),
        decreases s@.len() - j,
    {
        let c = s[j];
        let mut k: usize = 0;
        while k < st.len()
            invariant
                k <= st@.len(),
                st@ == stops@,
                i <= j < s@.len(),
                c == s@[j as int],
                scan(s@, i as int, stops@) == scan(s@, j as int, stops@),
                forall|m: int| 0 <= m < k ==> st@[m] != c,
            decreases st@.len() - k,
        {
            if st[k] == c {
                assert(stops@[k as int] == c);
                assert(stops@.contains(c));
                return j;
            }
            k = k + 1;
        }
        assert(!stops@.contains(c));
        j = j + 1;
    }
    j
}

/// The first position from `i` on that holds `c`, or the length.
pub fn find_char(s: &Vec<char>, i: usize, c: char) -> (r: usize)
    requires
        i <= s@.len(),
    ensures
        r == scan(s@, i as int, seq![c]),
        i <= r <= s@.len(),
{
    let mut j = i;
    while j < s.len() && s[j] != c
        invariant
            i <= j <= s@.len(),
            scan(s@, i as int, seq![c]) == scan(s@, j as int, seq![c]),
        decreases s@.len() - j,
    {
        assert(!seq![c].contains(s@[j as int])) by {
            if seq![c].contains(s@[j as int]) {
                let k = choose|k: int| 0 <= k < 1 && seq![c][k] == s@[j as int];
                assert(k == 0);
            }
        }
        j = j + 1;
    }
    if j < s.len() {
        assert(seq![c][0] == s@[j as int]);
    }
    j
}

/// The end of the run of ASCII letters that starts at `i`.
pub fn alpha_end_exec(s: &Vec<char>, i: usize) -> (r: usize)
    requires
        i <= s@.len(),
    ensures
        r == alpha_end(s@, i as int),
        i <= r <= s@.len(),
{
    let mut j = i;
    while j < s.len() && (('a' <= s[j] && s[j] <= 'z') || ('A' <= s[j] && s[j] <= 'Z'))
        invariant
            i <= j <= s@.len(),
            alpha_end(s@, i as int) == alpha_end(s@, j as int),
        decreases s@.len() - j,
    {
        j = j + 1;
    }
    j
}

/// The end of the run of decimal digits that starts at `i`.
pub fn digit_end_exec(s: &Vec<char>, i: usize) -> (r: usize)
    requires
        i <= s@.len(),
    ensures
        r == digit_end(s@, i as int),
        i <= r <= s@.len(),
{
    let mut j = i;
    while j < s.len() && '0' <= s[j] && s[j] <= '9'
        invariant
            i <= j <= s@.len(),
            digit_end(s@, i as int) == digit_end(s@, j as int),
        decreases s@.len() - j,
    {
        j = j + 1;
    }
    j
}

/// The largest number that `digits_capped` tells apart.
pub const DIGITS_CAP: u32 = 0x110000;

/// The number written by the digits of `s` from `lo` up to `hi`, or
/// `DIGITS_CAP` where it is larger.
pub fn digits_capped(s: &Vec<char>, lo: usize, hi: usize) -> (r: u32)
    requires
        lo <= hi <= s@.len(),
        forall|k: int| lo <= k < hi ==> is_digit(#[trigger] s@[k]),
    ensures
        r as int == if digits_val(s@.subrange(lo as int, hi as int)) < DIGITS_CAP {
            digits_val(s@.subrange(lo as int, hi as int)) as int
        } else {
            DIGITS_CAP as int
        },
{
    let mut acc: u32 = 0;
    let mut k = lo;
    while k < hi
        invariant
            lo <= k <= hi <= s@.len(),
            forall|m: int| lo <= m < hi ==> is_digit(#[trigger] s@[m]),
            acc <= DIGITS_CAP,
            acc as int == if digits_val(s@.subrange(lo as int, k as int)) < DIGITS_CAP {
                digits_val(s@.subrange(lo as int, k as int)) as int
            } else {
                DIGITS_CAP as int
            },
        decreases hi - k,
    {
        let d = (s[k] as u32) - ('0' as u32);
        let ghost prev = digits_val(s@.subrange(lo as int, k as int));
        assert(s@.subrange(lo as int, k + 1).drop_last() =~= s@.subrange(lo as int, k as int));
        assert(digits_val(s@.subrange(lo as int, k + 1)) == prev * 10 + d);
        if acc >= DIGITS_CAP {
            assert(prev >= DIGITS_CAP);
            assert(prev * 10 + d >= DIGITS_CAP) by (nonlinear_arith)
                requires prev >= DIGITS_CAP;
            acc = DIGITS_CAP;
        } else {
            assert(acc == prev);
            let next = acc * 10 + d;
            if next >= DIGITS_CAP {
                acc = DIGITS_CAP;
            } else {
                acc = next;
            }
        }
        k = k + 1;
    }
    acc
}

/// The decimal digit with value `d`.
pub open spec fn digit(d: nat) -> char {
    if d == 0 {
        '0'
    } else if d == 1 {
        '1'
    } else if d == 2 {
        '2'
    } else if d == 3 {
        '3'
    } else if d == 4 {
        '4'
    } else if d == 5 {
        '5'
    } else if d == 6 {
        '6'
    } else if d == 7 {
        '7'
    } else if d == 8 {
        '8'
    } else {
        '9'
    }
}

/// The decimal writing of `n`, without leading zeros.
pub open spec fn decimal(n: nat) -> Seq<char>
    decreases n,
{
    if n < 10 {
        seq![digit(n)]
    } else {
        decimal(n / 10).push(digit(n % 10))
    }
}

/// Appends the decimal writing of `n` to `out`.
pub fn push_decimal(out: &mut String, n: u32)
    ensures
        final(out)@ == old(out)@ + decimal(n as nat),
    decreases n,
{
    if n >= 10 {
        push_decimal(out, n / 10);
    }
    let d = n % 10;
    let c = if d == 0 {
        '0'
    } else if d == 1 {
        '1'
    } else if d == 2 {
        '2'
    } else if d == 3 {
        '3'
    } else if d == 4 {
        '4'
    } else if d == 5 {
        '5'
    } else if d == 6 {
        '6'
    } else if d == 7 {
        '7'
    } else if d == 8 {
        '8'
    } else {
        '9'
    };
    out.push(c);
    assert(out@ =~= old(out)@ + decimal(n as nat));
}

} // verus!
