//! Character-level helpers shared by the editor modules: conversions between
//! `str`/`String` and `Vec<char>`, the Unicode character classes the editor
//! asks about, decimal numbers, and ASCII case folding.

use vstd::prelude::*;

verus! {

/// The characters of `s`, in order.
pub fn chars_of(s: &str) -> (v: Vec<char>)
    ensures
        v@ == s@,
{
    let mut v: Vec<char> = Vec::new();
    for c in it: s.chars()
        invariant
            v@ == it.seq().take(it.index() as int),
            it.seq() == s@,
    {
        v.push(c);
    }
    v
}

/// Appends one character to a string (`String::push`).
#[verifier::external_body]
pub(crate) fn push_char(s: &mut String, c: char)
    ensures
        final(s)@ == old(s)@.push(c),
{
    s.push(c)
}

/// Appends a string slice.
pub(crate) fn push_str(s: &mut String, t: &str)
    ensures
        final(s)@ == old(s)@ + t@,
{
    s.append(t)
}

/// The string made of `v`'s characters.
pub fn string_of(v: &[char]) -> (s: String)
    ensures
        s@ == v@,
{
    let mut s = String::new();
    let mut i: usize = 0;
    while i < v.len()
        invariant
            i <= v.len(),
            s@ == v@.take(i as int),
        decreases v.len() - i,
    {
        push_char(&mut s, v[i]);
        assert(v@.take(i as int).push(v@[i as int]) =~= v@.take(i + 1));
        i += 1;
    }
    assert(v@.take(v.len() as int) =~= v@);
    s
}

/// A copy of `s` as an owned string.
pub fn own(s: &str) -> (r: String)
    ensures
        r@ == s@,
{
    let v = chars_of(s);
    string_of(v.as_slice())
}

/// `char::is_whitespace`: the Unicode `White_Space` property, which holds
/// of U+0009 to U+000D, U+0020, U+0085, U+00A0, U+1680, U+2000 to U+200A,
/// U+2028, U+2029, U+202F, U+205F and U+3000.
pub open spec fn is_space(c: char) -> bool {
    let u = c as u32;
    ||| 0x9 <= u <= 0xD
    ||| u == 0x20
    ||| u == 0x85
    ||| u == 0xA0
    ||| u == 0x1680
    ||| 0x2000 <= u <= 0x200A
    ||| u == 0x2028
    ||| u == 0x2029
    ||| u == 0x202F
    ||| u == 0x205F
    ||| u == 0x3000
}

/// `char::is_alphanumeric`: alphabetic or numeric in Unicode.
pub uninterp spec fn is_alnum(c: char) -> bool;

/// `char::is_uppercase`: the Unicode `Uppercase` property.
pub uninterp spec fn is_upper(c: char) -> bool;

/// `char::is_lowercase`: the Unicode `Lowercase` property.
pub uninterp spec fn is_lower(c: char) -> bool;

/// The first character of `char::to_lowercase`.
pub uninterp spec fn lower_char(c: char) -> char;

/// `str::to_lowercase`.
pub uninterp spec fn lowercase(s: Seq<char>) -> Seq<char>;

/// `str::to_uppercase`.
pub uninterp spec fn uppercase(s: Seq<char>) -> Seq<char>;

/// Whether `c` has the Unicode `White_Space` property, as
/// `char::is_whitespace` tells it.
pub(crate) fn char_is_space(c: char) -> (b: bool)
    ensures
        b == is_space(c),
{
    let u = c as u32;
    (0x9 <= u && u <= 0xD) || u == 0x20 || u == 0x85 || u == 0xA0 || u == 0x1680 || (0x2000 <= u && u <= 0x200A)
        || u == 0x2028 || u == 0x2029 || u == 0x202F || u == 0x205F || u == 0x3000
}

/// Whether `c` is alphabetic or numeric (`char::is_alphanumeric`).
#[verifier::external_body]
pub(crate) fn char_is_alnum(c: char) -> (b: bool)
    ensures
        b == is_alnum(c),
{
    c.is_alphanumeric()
}

/// Whether `c` is an uppercase letter (`char::is_uppercase`).
#[verifier::external_body]
pub(crate) fn char_is_upper(c: char) -> (b: bool)
    ensures
        b == is_upper(c),
{
    c.is_uppercase()
}

/// Whether `c` is a lowercase letter (`char::is_lowercase`).
#[verifier::external_body]
pub(crate) fn char_is_lower(c: char) -> (b: bool)
    ensures
        b == is_lower(c),
{
    c.is_lowercase()
}

/// The first character `char::to_lowercase` yields for `c`, or `c` itself.
#[verifier::external_body]
pub(crate) fn char_lower(c: char) -> (r: char)
    ensures
        r == lower_char(c),
{
    c.to_lowercase().next().unwrap_or(c)
}

/// `str::to_lowercase`.
#[verifier::external_body]
pub(crate) fn to_lower(s: &str) -> (r: String)
    ensures
        r@ == lowercase(s@),
{
    s.to_lowercase()
}

/// `str::to_uppercase`.
#[verifier::external_body]
pub(crate) fn to_upper(s: &str) -> (r: String)
    ensures
        r@ == uppercase(s@),
{
    s.to_uppercase()
}

// ── Sequences of characters ────────────────────────────────────────────────

/// Does `s` start with `p`?
pub open spec fn has_prefix(s: Seq<char>, p: Seq<char>) -> bool {
    p.len() <= s.len() && s.take(p.len() as int) == p
}

pub fn starts_with(s: &[char], p: &[char]) -> (b: bool)
    ensures
        b == has_prefix(s@, p@),
{
    if p.len() > s.len() {
        return false;
    }
    let mut i: usize = 0;
    while i < p.len()
        invariant
            i <= p.len() <= s.len(),
            forall|j: int| 0 <= j < i ==> s@[j] == p@[j],
        decreases p.len() - i,
    {
        if s[i] != p[i] {
            assert(s@.take(p.len() as int)[i as int] != p@[i as int]);
            return false;
        }
        i += 1;
    }
    assert(s@.take(p.len() as int) =~= p@);
    true
}

/// The characters of `s` from `from` to `to`.
pub fn slice_vec(s: &[char], from: usize, to: usize) -> (r: Vec<char>)
    requires
        from <= to <= s.len(),
    ensures
        r@ == s@.subrange(from as int, to as int),
{
    let mut r: Vec<char> = Vec::new();
    let mut i = from;
    while i < to
        invariant
            from <= i <= to <= s.len(),
            r@ == s@.subrange(from as int, i as int),
        decreases to - i,
    {
        r.push(s[i]);
        assert(s@.subrange(from as int, i as int).push(s@[i as int]) =~= s@.subrange(
            from as int,
            i + 1,
        ));
        i += 1;
    }
    r
}

/// `s` without its leading and trailing `White_Space` characters
/// (`str::trim`).
pub open spec fn trimmed(s: Seq<char>) -> Seq<char> {
    s.subrange(lead_spaces(s) as int, s.len() - trail_spaces(s))
}

/// How many `White_Space` characters `s` starts with.
pub open spec fn lead_spaces(s: Seq<char>) -> nat
    decreases s.len(),
{
    if s.len() > 0 && is_space(s[0]) {
        1 + lead_spaces(s.drop_first())
    } else {
        0
    }
}

/// How many `White_Space` characters `s` ends with, not counting ones that
/// are also leading (an all-space string trims to nothing once).
pub open spec fn trail_spaces(s: Seq<char>) -> nat {
    trail_run(s.subrange(lead_spaces(s) as int, s.len() as int))
}

pub open spec fn trail_run(s: Seq<char>) -> nat
    decreases s.len(),
{
    if s.len() > 0 && is_space(s.last()) {
        1 + trail_run(s.drop_last())
    } else {
        0
    }
}

proof fn lemma_lead_bound(s: Seq<char>)
    ensures
        lead_spaces(s) <= s.len(),
        forall|j: int| 0 <= j < lead_spaces(s) ==> is_space(#[trigger] s[j]),
        lead_spaces(s) < s.len() ==> !is_space(s[lead_spaces(s) as int]),
    decreases s.len(),
{
    if s.len() > 0 && is_space(s[0]) {
        lemma_lead_bound(s.drop_first());
        assert forall|j: int| 0 <= j < lead_spaces(s) implies is_space(#[trigger] s[j]) by {
            if j > 0 {
                assert(s[j] == s.drop_first()[j - 1]);
            }
        }
        if lead_spaces(s) < s.len() {
            assert(s[lead_spaces(s) as int] == s.drop_first()[lead_spaces(s.drop_first()) as int]);
        }
    }
}

proof fn lemma_trail_bound(s: Seq<char>)
    ensures
        trail_run(s) <= s.len(),
        forall|j: int| s.len() - trail_run(s) <= j < s.len() ==> is_space(#[trigger] s[j]),
        trail_run(s) < s.len() ==> !is_space(s[s.len() - trail_run(s) - 1]),
    decreases s.len(),
{
    if s.len() > 0 && is_space(s.last()) {
        lemma_trail_bound(s.drop_last());
        assert forall|j: int| s.len() - trail_run(s) <= j < s.len() implies is_space(
            #[trigger] s[j],
        ) by {
            if j < s.len() - 1 {
                assert(s[j] == s.drop_last()[j]);
            }
        }
        if trail_run(s) < s.len() {
            assert(s[s.len() - trail_run(s) - 1] == s.drop_last()[s.drop_last().len()
                - trail_run(s.drop_last()) - 1]);
        }
    }
}

/// The leading white space of `x + y`, where `x` is white space
/// throughout, is `x` and that of `y`.
pub proof fn lemma_lead_concat(x: Seq<char>, y: Seq<char>)
    requires
        forall|i: int| 0 <= i < x.len() ==> is_space(#[trigger] x[i]),
    ensures
        lead_spaces(x + y) == x.len() + lead_spaces(y),
    decreases x.len(),
{
    if x.len() > 0 {
        assert((x + y)[0] == x[0]);
        assert((x + y).drop_first() =~= x.drop_first() + y);
        lemma_lead_concat(x.drop_first(), y);
    } else {
        assert(x + y =~= y);
    }
}

/// A string trims to nothing exactly when it is white space throughout.
pub proof fn lemma_blank_iff(s: Seq<char>)
    ensures
        (trimmed(s).len() == 0) == (lead_spaces(s) == s.len()),
        lead_spaces(s) <= s.len(),
        forall|j: int| 0 <= j < lead_spaces(s) ==> is_space(#[trigger] s[j]),
        lead_spaces(s) < s.len() ==> !is_space(s[lead_spaces(s) as int]),
{
    lemma_lead_bound(s);
    let k = lead_spaces(s);
    let rest = s.subrange(k as int, s.len() as int);
    lemma_trail_bound(rest);
    if k < s.len() {
        assert(rest[0] == s[k as int]);
    }
}

/// `str::trim` over characters.
pub fn trim_chars(s: &[char]) -> (r: Vec<char>)
    ensures
        r@ == trimmed(s@),
{
    proof {
        lemma_lead_bound(s@);
    }
    let mut a: usize = 0;
    while a < s.len() && char_is_space(s[a])
        invariant
            a <= s.len(),
            a <= lead_spaces(s@),
            forall|j: int| 0 <= j < a ==> is_space(#[trigger] s@[j]),
            lead_spaces(s@) <= s.len(),
            forall|j: int| 0 <= j < lead_spaces(s@) ==> is_space(#[trigger] s@[j]),
            lead_spaces(s@) < s.len() ==> !is_space(s@[lead_spaces(s@) as int]),
        decreases s.len() - a,
    {
        a += 1;
    }
    assert(a == lead_spaces(s@));
    let ghost mid = s@.subrange(a as int, s.len() as int);
    proof {
        lemma_trail_bound(mid);
    }
    let mut b: usize = s.len();
    while b > a && char_is_space(s[b - 1])
        invariant
            a <= b <= s.len(),
            mid == s@.subrange(a as int, s.len() as int),
            s.len() - b <= trail_run(mid),
            trail_run(mid) <= mid.len(),
            forall|j: int| mid.len() - trail_run(mid) <= j < mid.len() ==> is_space(#[trigger] mid[j]),
            trail_run(mid) < mid.len() ==> !is_space(mid[mid.len() - trail_run(mid) - 1]),
        decreases b,
    {
        b -= 1;
    }
    assert(s.len() - b == trail_run(mid)) by {
        if s.len() - b < trail_run(mid) {
            assert(mid[b - 1 - a] == s@[b - 1]);
        } 
    }
    slice_vec(s, a, b)
}

/// `str::trim` on a string slice.
pub fn trim_str(s: &str) -> (r: Vec<char>)
    ensures
        r@ == trimmed(s@),
{
    let v = chars_of(s);
    trim_chars(v.as_slice())
}

// ── Decimal numbers ────────────────────────────────────────────────────────

pub open spec fn is_digit(c: char) -> bool {
    '0' <= c && c <= '9'
}

pub open spec fn digit_val(c: char) -> nat {
    (c as nat - '0' as nat) as nat
}

/// The number a run of decimal digits spells.
pub open spec fn digits_value(s: Seq<char>) -> nat
    decreases s.len(),
{
    if s.len() == 0 {
        0
    } else {
        digits_value(s.drop_last()) * 10 + digit_val(s.last())
    }
}

pub open spec fn all_digits(s: Seq<char>) -> bool {
    forall|i: int| 0 <= i < s.len() ==> is_digit(#[trigger] s[i])
}

/// What `str::parse::<usize>` accepts: an optional `+`, then at least one
/// decimal digit, and a value that fits.
pub open spec fn parse_usize_spec(s: Seq<char>) -> Option<usize> {
    let d = if s.len() > 0 && s[0] == '+' { s.drop_first() } else { s };
    if d.len() > 0 && all_digits(d) && digits_value(d) <= usize::MAX {
        Some(digits_value(d) as usize)
    } else {
        None
    }
}

/// `str::parse::<usize>` over characters.
pub fn parse_usize(s: &[char]) -> (r: Option<usize>)
    ensures
        r == parse_usize_spec(s@),
{
    let start: usize = if s.len() > 0 && s[0] == '+' { 1 } else { 0 };
    let ghost d = if s@.len() > 0 && s@[0] == '+' { s@.drop_first() } else { s@ };
    assert(d =~= s@.subrange(start as int, s.len() as int));
    if start >= s.len() {
        return None;
    }
    let mut acc: usize = 0;
    let mut i = start;
    while i < s.len()
        invariant
            start <= i <= s.len(),
            d =~= s@.subrange(start as int, s.len() as int),
            d == (if s@.len() > 0 && s@[0] == '+' { s@.drop_first() } else { s@ }),
            all_digits(s@.subrange(start as int, i as int)),
            acc as nat == digits_value(s@.subrange(start as int, i as int)),
        decreases s.len() - i,
    {
        let c = s[i];
        let ghost pre = s@.subrange(start as int, i as int);
        let ghost nxt = s@.subrange(start as int, i + 1);
        assert(nxt.drop_last() =~= pre);
        if !('0' <= c && c <= '9') {
            assert(d[i - start] == s@[i as int]);
            assert(!is_digit(d[i - start]));
            return None;
        }
        let dv = (c as u32 - '0' as u32) as usize;
        assert(dv == digit_val(c));
        if acc > (usize::MAX - dv) / 10 {
            // The value no longer fits; the rest cannot bring it back.
            proof {
                assert(digits_value(nxt) == acc * 10 + dv);
                assert(acc * 10 + dv > usize::MAX) by (nonlinear_arith)
                    requires acc > (usize::MAX - dv) / 10, dv <= 9;
                if all_digits(d) {
                    lemma_digits_grow(d, (i + 1 - start) as nat);
                    assert(d.take((i + 1 - start) as int) =~= nxt);
                }
            }
            return None;
        }
        assert(acc * 10 + dv <= usize::MAX) by (nonlinear_arith)
            requires acc <= (usize::MAX - dv) / 10, dv <= 9;
        acc = acc * 10 + dv;
        assert(all_digits(nxt)) by {
            assert forall|j: int| 0 <= j < nxt.len() implies is_digit(#[trigger] nxt[j]) by {
                if j < pre.len() {
                    assert(nxt[j] == pre[j]);
                }
            }
        }
        i += 1;
    }
    Some(acc)
}

/// A longer run of digits never spells a smaller number.
proof fn lemma_digits_grow(s: Seq<char>, k: nat)
    requires
        k <= s.len(),
        all_digits(s),
    ensures
        digits_value(s.take(k as int)) <= digits_value(s),
    decreases s.len() - k,
{
    if k < s.len() {
        lemma_digits_grow(s, k + 1);
        assert(s.take(k as int + 1).drop_last() =~= s.take(k as int));
        assert(digits_value(s.take(k as int)) <= digits_value(s.take(k as int + 1))) by (nonlinear_arith)
            requires
                digits_value(s.take(k as int + 1)) == digits_value(s.take(k as int)) * 10 + digit_val(
                    s.take(k as int + 1).last(),
                ),
        ;
    } else {
        assert(s.take(k as int) =~= s);
    }
}

proof fn lemma_digit_char(k: nat)
    requires
        k < 10,
    ensures
        is_digit(digit_char(k)),
        digit_val(digit_char(k)) == k,
{
}

/// The digits of `n` spell `n`.
pub proof fn lemma_decimal_value(n: nat)
    ensures
        decimal(n).len() > 0,
        all_digits(decimal(n)),
        digits_value(decimal(n)) == n,
    decreases n,
{
    lemma_digit_char(n % 10);
    if n < 10 {
        let d = decimal(n);
        assert(d.drop_last() =~= Seq::<char>::empty());
        assert(d.last() == digit_char(n));
        assert(digits_value(d) == digits_value(d.drop_last()) * 10 + digit_val(d.last()));
    } else {
        lemma_decimal_value(n / 10);
        let d = decimal(n);
        assert(d.last() == digit_char(n % 10));
        assert(digits_value(d) == digits_value(d.drop_last()) * 10 + digit_val(d.last()));
        assert(d.drop_last() =~= decimal(n / 10));
        assert forall|i: int| 0 <= i < d.len() implies is_digit(#[trigger] d[i]) by {
            if i < d.len() - 1 {
                assert(d[i] == decimal(n / 10)[i]);
            }
        }
    }
}

/// Reading the digits of `n` back gives `n`.
pub proof fn lemma_parse_decimal(n: usize)
    ensures
        parse_usize_spec(decimal(n as nat)) == Some(n),
        forall|i: int| 0 <= i < decimal(n as nat).len() ==> is_digit(#[trigger] decimal(n as nat)[i]),
{
    lemma_decimal_value(n as nat);
    assert(is_digit(decimal(n as nat)[0]));
}

/// `str::parse::<usize>` on a string slice.
pub fn parse_usize_str(s: &str) -> (r: Option<usize>)
    ensures
        r == parse_usize_spec(s@),
{
    let v = chars_of(s);
    parse_usize(v.as_slice())
}

/// The decimal digits of `n`, most significant first (what `{}` prints).
pub open spec fn decimal(n: nat) -> Seq<char>
    decreases n,
{
    if n < 10 {
        seq![digit_char(n)]
    } else {
        decimal(n / 10).push(digit_char(n % 10))
    }
}

pub open spec fn digit_char(d: nat) -> char {
    if d == 0 { '0' }
    else if d == 1 { '1' }
    else if d == 2 { '2' }
    else if d == 3 { '3' }
    else if d == 4 { '4' }
    else if d == 5 { '5' }
    else if d == 6 { '6' }
    else if d == 7 { '7' }
    else if d == 8 { '8' }
    else { '9' }
}

fn digit_to_char(d: usize) -> (c: char)
    requires
        d < 10,
    ensures
        c == digit_char(d as nat),
{
    if d == 0 { '0' }
    else if d == 1 { '1' }
    else if d == 2 { '2' }
    else if d == 3 { '3' }
    else if d == 4 { '4' }
    else if d == 5 { '5' }
    else if d == 6 { '6' }
    else if d == 7 { '7' }
    else if d == 8 { '8' }
    else { '9' }
}

/// Appends the decimal form of `n` to `out`.
pub fn push_decimal(out: &mut Vec<char>, n: usize)
    ensures
        final(out)@ == old(out)@ + decimal(n as nat),
    decreases n,
{
    if n < 10 {
        out.push(digit_to_char(n));
        assert(decimal(n as nat) =~= seq![digit_char(n as nat)]);
    } else {
        push_decimal(out, n / 10);
        out.push(digit_to_char(n % 10));
    }
}

/// The decimal form of `n` as a string.
pub fn decimal_string(n: usize) -> (s: String)
    ensures
        s@ == decimal(n as nat),
{
    let mut v: Vec<char> = Vec::new();
    push_decimal(&mut v, n);
    assert(v@ =~= decimal(n as nat));
    string_of(v.as_slice())
}

// ── ASCII case ─────────────────────────────────────────────────────────────

pub open spec fn ascii_lower(c: char) -> char {
    if 'A' <= c && c <= 'Z' {
        ((c as u32) + 32) as char
    } else {
        c
    }
}

pub open spec fn ascii_upper(c: char) -> char {
    if 'a' <= c && c <= 'z' {
        ((c as u32) - 32) as char
    } else {
        c
    }
}

pub fn lower_ascii(c: char) -> (r: char)
    ensures
        r == ascii_lower(c),
{
    if 'A' <= c && c <= 'Z' {
        ((c as u8) + 32) as char
    } else {
        c
    }
}

pub fn upper_ascii(c: char) -> (r: char)
    ensures
        r == ascii_upper(c),
{
    if 'a' <= c && c <= 'z' {
        ((c as u8) - 32) as char
    } else {
        c
    }
}

/// `str::eq_ignore_ascii_case` over characters.
pub open spec fn eq_ignore_case(a: Seq<char>, b: Seq<char>) -> bool {
    a.len() == b.len() && forall|i: int| 0 <= i < a.len() ==> ascii_lower(#[trigger] a[i])
        == ascii_lower(b[i])
}

pub fn eq_ignore_ascii_case(a: &[char], b: &[char]) -> (r: bool)
    ensures
        r == eq_ignore_case(a@, b@),
{
    if a.len() != b.len() {
        return false;
    }
    let mut i: usize = 0;
    while i < a.len()
        invariant
            i <= a.len() == b.len(),
            forall|j: int| 0 <= j < i ==> ascii_lower(#[trigger] a@[j]) == ascii_lower(b@[j]),
        decreases a.len() - i,
    {
        if lower_ascii(a[i]) != lower_ascii(b[i]) {
            return false;
        }
        i += 1;
    }
    true
}

/// `str::to_ascii_lowercase` over characters.
pub open spec fn lower_ascii_seq(s: Seq<char>) -> Seq<char> {
    Seq::new(s.len(), |i: int| ascii_lower(s[i]))
}

pub open spec fn upper_ascii_seq(s: Seq<char>) -> Seq<char> {
    Seq::new(s.len(), |i: int| ascii_upper(s[i]))
}

pub fn to_ascii_lower(s: &[char]) -> (r: Vec<char>)
    ensures
        r@ == lower_ascii_seq(s@),
{
    let mut r: Vec<char> = Vec::new();
    let mut i: usize = 0;
    while i < s.len()
        invariant
            i <= s.len(),
            r@ =~= lower_ascii_seq(s@).take(i as int),
        decreases s.len() - i,
    {
        r.push(lower_ascii(s[i]));
        i += 1;
    }
    r
}

pub fn to_ascii_upper(s: &[char]) -> (r: Vec<char>)
    ensures
        r@ == upper_ascii_seq(s@),
{
    let mut r: Vec<char> = Vec::new();
    let mut i: usize = 0;
    while i < s.len()
        invariant
            i <= s.len(),
            r@ =~= upper_ascii_seq(s@).take(i as int),
        decreases s.len() - i,
    {
        r.push(upper_ascii(s[i]));
        i += 1;
    }
    r
}

pub open spec fn is_hex_digit(c: char) -> bool {
    ('0' <= c && c <= '9') || ('a' <= c && c <= 'f') || ('A' <= c && c <= 'F')
}

pub fn all_hex(s: &[char]) -> (r: bool)
    ensures
        r == (forall|i: int| 0 <= i < s@.len() ==> is_hex_digit(#[trigger] s@[i])),
{
    let mut i: usize = 0;
    while i < s.len()
        invariant
            i <= s.len(),
            forall|j: int| 0 <= j < i ==> is_hex_digit(#[trigger] s@[j]),
        decreases s.len() - i,
    {
        let c = s[i];
        if !(('0' <= c && c <= '9') || ('a' <= c && c <= 'f') || ('A' <= c && c <= 'F')) {
            return false;
        }
        i += 1;
    }
    true
}

/// Exact character-sequence equality.
pub fn chars_eq(a: &[char], b: &[char]) -> (r: bool)
    ensures
        r == (a@ == b@),
{
    if a.len() != b.len() {
        return false;
    }
    let mut i: usize = 0;
    while i < a.len()
        invariant
            i <= a.len() == b.len(),
            forall|j: int| 0 <= j < i ==> a@[j] == b@[j],
        decreases a.len() - i,
    {
        if a[i] != b[i] {
            return false;
        }
        i += 1;
    }
    assert(a@ =~= b@);
    true
}

/// Does `p` occur in `s` at index `i`?
pub fn matches_at(s: &[char], i: usize, p: &[char]) -> (b: bool)
    requires
        i + p@.len() <= s@.len(),
    ensures
        b == (s@.subrange(i as int, i + p@.len()) == p@),
{
    let n = s.len();
    let mut k: usize = 0;
    while k < p.len()
        invariant
            k <= p@.len(),
            n == s@.len(),
            i + p@.len() <= s@.len(),
            forall|j: int| 0 <= j < k ==> s@[i + j] == p@[j],
        decreases p@.len() - k,
    {
        if s[i + k] != p[k] {
            assert(s@.subrange(i as int, i + p@.len())[k as int] != p@[k as int]);
            return false;
        }
        k += 1;
    }
    assert(s@.subrange(i as int, i + p@.len()) =~= p@);
    true
}

/// Do two string slices hold the same characters?
pub fn str_eq(a: &str, b: &str) -> (r: bool)
    ensures
        r == (a@ == b@),
{
    let x = chars_of(a);
    let y = chars_of(b);
    chars_eq(x.as_slice(), y.as_slice())
}

/// Does `v` hold exactly the characters of `s`?
pub fn chars_are(v: &[char], s: &str) -> (r: bool)
    ensures
        r == (v@ == s@),
{
    let y = chars_of(s);
    chars_eq(v, y.as_slice())
}

// ── Lines and words ────────────────────────────────────────────────────────

/// `cur` without one trailing carriage return.
pub open spec fn strip_cr(cur: Seq<char>) -> Seq<char> {
    if cur.len() > 0 && cur.last() == '\r' {
        cur.drop_last()
    } else {
        cur
    }
}

/// The lines of `s` from index `i`, `cur` holding the current line's
/// characters so far (`str::lines`): split at `\n`, a `\r` before the `\n`
/// dropped, and no empty line after a final `\n`.
pub open spec fn lines_acc(s: Seq<char>, i: int, cur: Seq<char>) -> Seq<Seq<char>>
    decreases s.len() - i,
{
    if i >= s.len() || i < 0 {
        if cur.len() > 0 {
            seq![cur]
        } else {
            seq![]
        }
    } else if s[i] == '\n' {
        seq![strip_cr(cur)] + lines_acc(s, i + 1, seq![])
    } else {
        lines_acc(s, i + 1, cur.push(s[i]))
    }
}

pub open spec fn lines_of(s: Seq<char>) -> Seq<Seq<char>> {
    lines_acc(s, 0, seq![])
}

/// Reading lines past a prefix `a` is reading them in what follows it.
proof fn lemma_lines_acc_shift(a: Seq<char>, b: Seq<char>, j: int, cur: Seq<char>)
    requires
        0 <= j,
    ensures
        lines_acc(a + b, a.len() + j, cur) == lines_acc(b, j, cur),
    decreases b.len() - j,
{
    if j < b.len() {
        assert((a + b)[a.len() + j] == b[j]);
        lemma_lines_acc_shift(a, b, j + 1, seq![]);
        lemma_lines_acc_shift(a, b, j + 1, cur.push(b[j]));
    }
}

proof fn lemma_lines_acc_concat(a: Seq<char>, b: Seq<char>, i: int, cur: Seq<char>)
    requires
        a.len() == 0 || a.last() == '\n',
        0 <= i <= a.len(),
        i == a.len() ==> cur.len() == 0,
    ensures
        lines_acc(a + b, i, cur) == lines_acc(a, i, cur) + lines_acc(b, 0, seq![]),
    decreases a.len() - i,
{
    if i == a.len() {
        lemma_lines_acc_shift(a, b, 0, cur);
        assert(a.len() + 0 == i);
        assert(cur =~= Seq::<char>::empty());
        assert(lines_acc(a, i, cur) =~= Seq::<Seq<char>>::empty());
        assert(lines_acc(a, i, cur) + lines_acc(b, 0, seq![]) =~= lines_acc(b, 0, cur));
    } else {
        assert((a + b)[i] == a[i]);
        if a[i] == '\n' {
            lemma_lines_acc_concat(a, b, i + 1, seq![]);
            assert(lines_acc(a + b, i, cur) =~= lines_acc(a, i, cur) + lines_acc(b, 0, seq![]));
        } else {
            lemma_lines_acc_concat(a, b, i + 1, cur.push(a[i]));
        }
    }
}

/// The lines of a text that ends a line, then more, are its lines, then
/// those of the rest.
pub proof fn lemma_lines_concat(a: Seq<char>, b: Seq<char>)
    requires
        a.len() == 0 || a.last() == '\n',
    ensures
        lines_of(a + b) == lines_of(a) + lines_of(b),
{
    lemma_lines_acc_concat(a, b, 0, seq![]);
}

proof fn lemma_one_line_from(l: Seq<char>, i: int)
    requires
        0 <= i <= l.len(),
        forall|k: int| 0 <= k < l.len() ==> l[k] != '\n',
        l.len() == 0 || l.last() != '\r',
    ensures
        lines_acc(l.push('\n'), i, l.take(i)) == seq![l],
    decreases l.len() - i,
{
    if i < l.len() {
        assert(l.push('\n')[i] == l[i]);
        assert(l.take(i).push(l[i]) =~= l.take(i + 1));
        lemma_one_line_from(l, i + 1);
    } else {
        assert(l.take(i) =~= l);
        assert(lines_acc(l.push('\n'), i + 1, seq![]) =~= Seq::<Seq<char>>::empty());
    }
}

/// A line without a newline, and not ending in a carriage return, followed
/// by a newline reads as that one line.
pub proof fn lemma_one_line(l: Seq<char>)
    requires
        forall|k: int| 0 <= k < l.len() ==> l[k] != '\n',
        l.len() == 0 || l.last() != '\r',
    ensures
        lines_of(l.push('\n')) == seq![l],
{
    assert(l.take(0) =~= Seq::<char>::empty());
    lemma_one_line_from(l, 0);
}

/// A string starting and ending with something other than white space is
/// its own trim.
pub proof fn lemma_trimmed_self(l: Seq<char>)
    requires
        l.len() > 0,
        !is_space(l[0]),
        !is_space(l.last()),
    ensures
        trimmed(l) == l,
{
    assert(lead_spaces(l) == 0);
    assert(l.subrange(0, l.len() as int) =~= l);
    assert(trail_run(l) == 0);
    assert(trimmed(l) =~= l);
}


/// The whitespace-separated words of `s` from index `i`, `cur` holding the
/// current word so far (`str::split_whitespace`).
pub open spec fn words_acc(s: Seq<char>, i: int, cur: Seq<char>) -> Seq<Seq<char>>
    decreases s.len() - i,
{
    if i >= s.len() || i < 0 {
        if cur.len() > 0 {
            seq![cur]
        } else {
            seq![]
        }
    } else if is_space(s[i]) {
        (if cur.len() > 0 {
            seq![cur]
        } else {
            seq![]
        }) + words_acc(s, i + 1, seq![])
    } else {
        words_acc(s, i + 1, cur.push(s[i]))
    }
}

pub open spec fn words_of(s: Seq<char>) -> Seq<Seq<char>> {
    words_acc(s, 0, seq![])
}

/// The views of a vector of character vectors.
pub open spec fn views(v: Seq<Vec<char>>) -> Seq<Seq<char>> {
    Seq::new(v.len(), |i: int| v[i]@)
}

/// `str::lines` over characters.
pub fn split_lines(s: &[char]) -> (r: Vec<Vec<char>>)
    ensures
        views(r@) == lines_of(s@),
{
    let mut out: Vec<Vec<char>> = Vec::new();
    let mut cur: Vec<char> = Vec::new();
    let mut i: usize = 0;
    while i < s.len()
        invariant
            i <= s@.len(),
            views(out@) + lines_acc(s@, i as int, cur@) == lines_of(s@),
        decreases s@.len() - i,
    {
        if s[i] == '\n' {
            let ghost before = views(out@);
            let ghost cv = cur@;
            let n = cur.len();
            if n > 0 && cur[n - 1] == '\r' {
                cur.pop();
                assert(cur@ =~= cv.drop_last());
            }
            assert(cur@ == strip_cr(cv));
            out.push(cur);
            cur = Vec::new();
            assert(views(out@) =~= before + seq![strip_cr(cv)]);
            assert(views(out@) + lines_acc(s@, i + 1, cur@) =~= before + lines_acc(s@, i as int, cv));
        } else {
            cur.push(s[i]);
        }
        i += 1;
    }
    if cur.len() > 0 {
        let ghost before = views(out@);
        out.push(cur);
        assert(views(out@) =~= before + seq![views(out@).last()]);
    } else {
        assert(views(out@) =~= views(out@) + Seq::<Seq<char>>::empty());
    }
    out
}

/// `s` without its leading `White_Space` characters (`str::trim_start`).
pub fn trim_start_chars(s: &[char]) -> (r: Vec<char>)
    ensures
        r@ == s@.skip(lead_spaces(s@) as int),
        lead_spaces(s@) <= s@.len(),
{
    proof {
        lemma_lead_bound(s@);
    }
    let mut a: usize = 0;
    while a < s.len() && char_is_space(s[a])
        invariant
            a <= s.len(),
            a <= lead_spaces(s@),
            forall|j: int| 0 <= j < a ==> is_space(#[trigger] s@[j]),
            lead_spaces(s@) <= s.len(),
            forall|j: int| 0 <= j < lead_spaces(s@) ==> is_space(#[trigger] s@[j]),
            lead_spaces(s@) < s.len() ==> !is_space(s@[lead_spaces(s@) as int]),
        decreases s.len() - a,
    {
        a += 1;
    }
    assert(a == lead_spaces(s@));
    let r = slice_vec(s, a, s.len());
    assert(r@ =~= s@.skip(a as int));
    r
}

/// `str::split_whitespace` over characters.
pub fn split_words(s: &[char]) -> (r: Vec<Vec<char>>)
    ensures
        views(r@) == words_of(s@),
{
    let mut out: Vec<Vec<char>> = Vec::new();
    let mut cur: Vec<char> = Vec::new();
    let mut i: usize = 0;
    while i < s.len()
        invariant
            i <= s@.len(),
            views(out@) + words_acc(s@, i as int, cur@) == words_of(s@),
        decreases s@.len() - i,
    {
        if char_is_space(s[i]) {
            let ghost before = views(out@);
            let ghost cv = cur@;
            if cur.len() > 0 {
                out.push(cur);
                cur = Vec::new();
                assert(views(out@) =~= before + seq![cv]);
                assert(views(out@) + words_acc(s@, i + 1, cur@) =~= before + words_acc(s@, i as int, cv));
            } else {
                assert(cv =~= Seq::<char>::empty());
                assert(views(out@) + words_acc(s@, i + 1, cur@) =~= before + words_acc(s@, i as int, cv));
            }
        } else {
            cur.push(s[i]);
        }
        i += 1;
    }
    if cur.len() > 0 {
        let ghost before = views(out@);
        out.push(cur);
        assert(views(out@) =~= before + seq![views(out@).last()]);
    } else {
        assert(views(out@) =~= views(out@) + Seq::<Seq<char>>::empty());
    }
    out
}

// ── Signed numbers ─────────────────────────────────────────────────────────

/// What `str::parse::<i64>` accepts: an optional sign, then at least one
/// decimal digit, and a value in range.
pub open spec fn parse_i64_spec(s: Seq<char>) -> Option<i64> {
    let neg = s.len() > 0 && s[0] == '-';
    let d = if s.len() > 0 && (s[0] == '+' || s[0] == '-') { s.drop_first() } else { s };
    if d.len() > 0 && all_digits(d) {
        if neg {
            if digits_value(d) <= 0x8000_0000_0000_0000 {
                Some((0 - digits_value(d)) as i64)
            } else {
                None
            }
        } else if digits_value(d) <= i64::MAX {
            Some(digits_value(d) as i64)
        } else {
            None
        }
    } else {
        None
    }
}

/// The value of a run of digits, or `None` past `limit`.
fn digits_upto(d: &[char], limit: u64) -> (r: Option<u64>)
    ensures
        match r {
            Some(v) => d@.len() > 0 && all_digits(d@) && v == digits_value(d@) && v <= limit,
            None => !(d@.len() > 0 && all_digits(d@) && digits_value(d@) <= limit),
        },
{
    if d.len() == 0 {
        return None;
    }
    let mut acc: u64 = 0;
    let mut i: usize = 0;
    while i < d.len()
        invariant
            i <= d@.len(),
            all_digits(d@.take(i as int)),
            acc as nat == digits_value(d@.take(i as int)),
            acc <= limit,
        decreases d@.len() - i,
    {
        let c = d[i];
        let ghost pre = d@.take(i as int);
        let ghost nxt = d@.take(i + 1);
        assert(nxt.drop_last() =~= pre);
        if !('0' <= c && c <= '9') {
            assert(!is_digit(d@[i as int]));
            return None;
        }
        let dv = (c as u32 - '0' as u32) as u64;
        assert(dv == digit_val(c));
        if dv > limit || acc > (limit - dv) / 10 {
            proof {
                assert(digits_value(nxt) == acc * 10 + dv);
                assert(acc * 10 + dv > limit) by (nonlinear_arith)
                    requires
                        dv > limit || acc > (limit - dv) / 10,
                        dv <= 9,
                        acc >= 0,
                ;
                if all_digits(d@) {
                    lemma_digits_grow(d@, (i + 1) as nat);
                }
            }
            return None;
        }
        assert(acc * 10 + dv <= limit) by (nonlinear_arith)
            requires
                acc <= (limit - dv) / 10,
                dv <= limit,
                dv <= 9,
        ;
        acc = acc * 10 + dv;
        assert(all_digits(nxt)) by {
            assert forall|j: int| 0 <= j < nxt.len() implies is_digit(#[trigger] nxt[j]) by {
                if j < pre.len() {
                    assert(nxt[j] == pre[j]);
                }
            }
        }
        i += 1;
    }
    assert(d@.take(d@.len() as int) =~= d@);
    Some(acc)
}

/// `str::parse::<i64>` over characters.
pub fn parse_i64(s: &[char]) -> (r: Option<i64>)
    ensures
        r == parse_i64_spec(s@),
{
    let neg = s.len() > 0 && s[0] == '-';
    let signed = s.len() > 0 && (s[0] == '+' || s[0] == '-');
    let start: usize = if signed { 1 } else { 0 };
    let d = slice_vec(s, start, s.len());
    assert(d@ =~= (if s@.len() > 0 && (s@[0] == '+' || s@[0] == '-') { s@.drop_first() } else { s@ }));
    if neg {
        match digits_upto(d.as_slice(), 0x8000_0000_0000_0000) {
            Some(v) => {
                if v == 0x8000_0000_0000_0000 {
                    Some(i64::MIN)
                } else {
                    Some(0 - (v as i64))
                }
            },
            None => None,
        }
    } else {
        match digits_upto(d.as_slice(), 0x7fff_ffff_ffff_ffff) {
            Some(v) => Some(v as i64),
            None => None,
        }
    }
}

/// The decimal form of a signed number, with a leading `-` when negative.
pub open spec fn signed_decimal(n: int) -> Seq<char> {
    if n < 0 {
        seq!['-'] + decimal((0 - n) as nat)
    } else {
        decimal(n as nat)
    }
}

/// `format!("{n}")` for an `i64`.
pub fn i64_string(n: i64) -> (s: String)
    ensures
        s@ == signed_decimal(n as int),
{
    let mut v: Vec<char> = Vec::new();
    if n < 0 {
        v.push('-');
        let m: u64 = if n == i64::MIN { 0x8000_0000_0000_0000 } else { (0 - n) as u64 };
        push_decimal_u64(&mut v, m);
        assert(v@ =~= signed_decimal(n as int));
    } else {
        push_decimal_u64(&mut v, n as u64);
        assert(v@ =~= signed_decimal(n as int));
    }
    string_of(v.as_slice())
}

/// Appends the decimal form of `n` to `out`.
pub fn push_decimal_u64(out: &mut Vec<char>, n: u64)
    ensures
        final(out)@ == old(out)@ + decimal(n as nat),
    decreases n,
{
    if n < 10 {
        out.push(digit_to_char(n as usize));
        assert(decimal(n as nat) =~= seq![digit_char(n as nat)]);
    } else {
        push_decimal_u64(out, n / 10);
        out.push(digit_to_char((n % 10) as usize));
    }
}

/// Append `s` to `out`.
pub fn append(out: &mut Vec<char>, s: &[char])
    ensures
        final(out)@ == old(out)@ + s@,
{
    let mut i: usize = 0;
    while i < s.len()
        invariant
            i <= s@.len(),
            out@ == old(out)@ + s@.take(i as int),
        decreases s@.len() - i,
    {
        out.push(s[i]);
        assert(out@ =~= old(out)@ + s@.take(i + 1));
        i += 1;
    }
    assert(s@.take(s@.len() as int) =~= s@);
}


// ── UTF-8 lengths ────────────────────────────────────────────────────────

/// Bytes a character takes in UTF-8.
pub open spec fn utf8_width(c: char) -> nat {
    if (c as u32) < 0x80 {
        1
    } else if (c as u32) < 0x800 {
        2
    } else if (c as u32) < 0x10000 {
        3
    } else {
        4
    }
}

/// Bytes `s` takes in UTF-8.
pub open spec fn utf8_len(s: Seq<char>) -> nat
    decreases s.len(),
{
    if s.len() == 0 {
        0
    } else {
        utf8_len(s.drop_last()) + utf8_width(s.last())
    }
}

/// Does `s` take at least `limit` bytes in UTF-8?
pub fn utf8_at_least(s: &[char], limit: usize) -> (b: bool)
    ensures
        b == (utf8_len(s@) >= limit),
{
    if limit == 0 {
        return true;
    }
    let mut acc: usize = 0;
    let mut i: usize = 0;
    while i < s.len()
        invariant
            i <= s@.len(),
            acc == utf8_len(s@.take(i as int)),
            acc < limit,
        decreases s@.len() - i,
    {
        let c = s[i] as u32;
        let w: usize = if c < 0x80 { 1 } else if c < 0x800 { 2 } else if c < 0x10000 { 3 } else { 4 };
        assert(s@.take(i + 1).drop_last() =~= s@.take(i as int));
        assert(w == utf8_width(s@[i as int]));
        if w >= limit - acc {
            proof {
                lemma_utf8_grows(s@, (i + 1) as nat);
            }
            return true;
        }
        acc = acc + w;
        i += 1;
    }
    assert(s@.take(i as int) =~= s@);
    acc >= limit
}

pub proof fn lemma_utf8_grows(s: Seq<char>, k: nat)
    requires
        k <= s.len(),
    ensures
        utf8_len(s.take(k as int)) <= utf8_len(s),
    decreases s.len() - k,
{
    if k < s.len() {
        lemma_utf8_grows(s, k + 1);
        assert(s.take(k as int + 1).drop_last() =~= s.take(k as int));
    } else {
        assert(s.take(k as int) =~= s);
    }
}


/// The bytes of `s` from `from` to `to`.
pub fn slice_bytes(s: &[u8], from: usize, to: usize) -> (r: Vec<u8>)
    requires
        from <= to <= s.len(),
    ensures
        r@ == s@.subrange(from as int, to as int),
{
    let mut r: Vec<u8> = Vec::new();
    let mut i = from;
    while i < to
        invariant
            from <= i <= to <= s.len(),
            r@ == s@.subrange(from as int, i as int),
        decreases to - i,
    {
        r.push(s[i]);
        assert(s@.subrange(from as int, i as int).push(s@[i as int]) =~= s@.subrange(from as int, i + 1));
        i += 1;
    }
    r
}


// ── Visual columns of indentation ──────────────────────────────────────────

/// The indentation of `line` from character `i` on, in columns from `col`:
/// a space takes one, a tab runs to the next multiple of `tab` (and adds
/// nothing when `tab` is zero), anything else ends it.
pub open spec fn indent_cols(line: Seq<char>, tab: nat, i: int, col: nat) -> nat
    decreases line.len() - i,
{
    if i < 0 || i >= line.len() {
        col
    } else if line[i] == ' ' {
        indent_cols(line, tab, i + 1, col + 1)
    } else if line[i] == '\t' {
        let step = (tab - col % (if tab == 0 { 1 } else { tab })) as nat;
        indent_cols(line, tab, i + 1, col + step)
    } else {
        col
    }
}

/// The character column from `i` on (at visual column `col`) where the
/// indentation reaches visual column `want`, or where it ends: a line
/// shallower than `want` gives the end of its own indentation.
pub open spec fn char_col_spec(line: Seq<char>, want: nat, tab: nat, i: int, col: nat) -> nat
    decreases line.len() - i,
{
    if i < 0 || i >= line.len() {
        line.len()
    } else if col >= want {
        i as nat
    } else if line[i] == ' ' {
        char_col_spec(line, want, tab, i + 1, col + 1)
    } else if line[i] == '\t' {
        char_col_spec(line, want, tab, i + 1, col + (tab - col % (if tab == 0 { 1 } else { tab })) as nat)
    } else {
        i as nat
    }
}

/// The column where the indentation reaches `want` lies within the line,
/// and only spaces and tabs come before it.
pub proof fn lemma_char_col(line: Seq<char>, want: nat, tab: nat, i: int, col: nat)
    requires
        0 <= i <= line.len(),
        forall|j: int| 0 <= j < i ==> #[trigger] line[j] == ' ' || line[j] == '\t',
    ensures
        i <= char_col_spec(line, want, tab, i, col) <= line.len(),
        forall|j: int| 0 <= j < char_col_spec(line, want, tab, i, col) ==> #[trigger] line[j] == ' ' || line[j] == '\t',
    decreases line.len() - i,
{
    if i < line.len() && col < want {
        if line[i] == ' ' {
            lemma_char_col(line, want, tab, i + 1, col + 1);
        } else if line[i] == '\t' {
            lemma_char_col(line, want, tab, i + 1, col + (tab - col % (if tab == 0 { 1 } else { tab })) as nat);
        }
    }
}

/// How far into `line` its first character that is neither a space nor a
/// tab sits, in visual columns.
pub fn visual_indent(line: &[char], tab: usize) -> (c: usize)
    requires
        line@.len() * (tab + 1) < usize::MAX,
    ensures
        c == indent_cols(line@, tab as nat, 0, 0),
{
    let mut col: usize = 0;
    let mut i: usize = 0;
    let mut stop = false;
    while i < line.len() && !stop
        invariant
            i <= line@.len(),
            line@.len() * (tab + 1) < usize::MAX,
            col <= i * (if tab == 0 { 1 } else { tab }),
            !stop ==> indent_cols(line@, tab as nat, i as int, col as nat) == indent_cols(line@, tab as nat, 0, 0),
            stop ==> col == indent_cols(line@, tab as nat, 0, 0),
        decreases line@.len() - i + (if stop { 0int } else { 1int }),
    {
        let m: usize = if tab == 0 { 1 } else { tab };
        proof {
            assert(i * m + m == (i + 1) * m) by (nonlinear_arith);
            assert((i + 1) * m <= line@.len() * (tab + 1)) by (nonlinear_arith)
                requires
                    i + 1 <= line@.len(),
                    m <= tab + 1,
            ;
        }
        let c = line[i];
        if c == ' ' {
            col = col + 1;
            i += 1;
        } else if c == '\t' {
            col = col + (tab - col % m);
            i += 1;
        } else {
            stop = true;
        }
    }
    col
}

/// The character column where the indentation of `line` reaches visual
/// column `want`, or where it ends.
pub fn char_col_for_visual(line: &[char], want: usize, tab: usize) -> (c: usize)
    requires
        line@.len() * (tab + 1) < usize::MAX,
    ensures
        c == char_col_spec(line@, want as nat, tab as nat, 0, 0),
{
    let mut col: usize = 0;
    let mut i: usize = 0;
    while i < line.len()
        invariant
            i <= line@.len(),
            line@.len() * (tab + 1) < usize::MAX,
            col <= i * (if tab == 0 { 1 } else { tab }),
            char_col_spec(line@, want as nat, tab as nat, i as int, col as nat) == char_col_spec(
                line@,
                want as nat,
                tab as nat,
                0,
                0,
            ),
        decreases line@.len() - i,
    {
        if col >= want {
            return i;
        }
        let m: usize = if tab == 0 { 1 } else { tab };
        proof {
            assert(i * m + m == (i + 1) * m) by (nonlinear_arith);
            assert((i + 1) * m <= line@.len() * (tab + 1)) by (nonlinear_arith)
                requires
                    i + 1 <= line@.len(),
                    m <= tab + 1,
            ;
        }
        let c = line[i];
        if c == ' ' {
            col = col + 1;
        } else if c == '\t' {
            col = col + (tab - col % m);
        } else {
            return i;
        }
        i += 1;
    }
    line.len()
}

} // verus!
