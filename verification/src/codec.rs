//! Decimal primitives of the history-line format.
//!
//! Every number in a history line is written in milli-units as
//! `<integer part>.<three fractional digits>`; dates use fixed-width
//! zero-padded fields. This module defines the digit sequences, their
//! values, the greedy and fixed-width parses, and proves that parsing is
//! the inverse of printing.

use vstd::prelude::*;
use vstd::string::StrSliceExecFns;
use vstd::string::StringExecFns;

verus! {

/// Exclusive upper bound on every numeric field of a history record, in
/// milli-units. Keeps all codec arithmetic inside `u64`.
pub const MILLI_LIMIT: u64 = 1_000_000_000_000_000;

pub open spec fn spec_is_digit(c: char) -> bool {
    '0' <= c && c <= '9'
}

pub fn is_digit(c: char) -> (r: bool)
    ensures
        r == spec_is_digit(c),
{
    c >= '0' && c <= '9'
}

/// The decimal digit character for a value below ten.
pub open spec fn spec_digit_char(d: int) -> char {
    if d == 0 {
        '0'
    } else if d == 1 {
        '1'
    } else if d == 2 {
        '2'
    } else if d == 3 {
        '3'
    } else if d == 4 {
        '4'
    } else if d == 5 {
        '5'
    } else if d == 6 {
        '6'
    } else if d == 7 {
        '7'
    } else if d == 8 {
        '8'
    } else {
        '9'
    }
}

/// The value of a digit character.
pub open spec fn spec_digit_val(c: char) -> nat {
    ((c as u32) - ('0' as u32)) as nat
}

pub proof fn lemma_digit_char_val(d: int)
    requires
        0 <= d < 10,
    ensures
        spec_is_digit(spec_digit_char(d)),
        spec_digit_val(spec_digit_char(d)) == d,
{
}

pub fn digit_val(c: char) -> (d: u64)
    requires
        spec_is_digit(c),
    ensures
        d == spec_digit_val(c),
        d < 10,
{
    ((c as u32) - ('0' as u32)) as u64
}

/// The decimal digits of `n`, most significant first, no leading zero.
pub open spec fn spec_digits(n: nat) -> Seq<char>
    decreases n,
{
    if n < 10 {
        seq![spec_digit_char(n as int)]
    } else {
        spec_digits(n / 10) + seq![spec_digit_char((n % 10) as int)]
    }
}

/// The value of a digit string, most significant first.
pub open spec fn spec_dec_val(s: Seq<char>) -> nat
    decreases s.len(),
{
    if s.len() == 0 {
        0
    } else {
        spec_dec_val(s.drop_last()) * 10 + spec_digit_val(s.last())
    }
}

/// Reading back the digits of `n` yields `n`.
pub proof fn lemma_digits_val(n: nat)
    ensures
        spec_dec_val(spec_digits(n)) == n,
    decreases n,
{
    if n < 10 {
        let s = spec_digits(n);
        lemma_digit_char_val(n as int);
        assert(s.len() == 1);
        assert(s.last() == spec_digit_char(n as int));
        assert(s.drop_last() =~= Seq::<char>::empty());
        assert(spec_dec_val(s) == spec_dec_val(s.drop_last()) * 10 + spec_digit_val(s.last()));
        assert(spec_dec_val(s.drop_last()) == 0);
    } else {
        let s = spec_digits(n);
        lemma_digits_val(n / 10);
        lemma_digit_char_val((n % 10) as int);
        assert(s.len() == spec_digits(n / 10).len() + 1);
        assert(s.drop_last() =~= spec_digits(n / 10));
        assert(s.last() == spec_digit_char((n % 10) as int));
        assert(spec_dec_val(s) == spec_dec_val(s.drop_last()) * 10 + spec_digit_val(s.last()));
        assert(spec_dec_val(s) == (n / 10) * 10 + n % 10);
        assert((n / 10) * 10 + n % 10 == n) by (nonlinear_arith);
    }
}

/// Every character of `spec_digits(n)` is a digit, and there is at least one.
pub proof fn lemma_digits_are_digits(n: nat)
    ensures
        spec_digits(n).len() >= 1,
        forall|i: int|
            0 <= i < spec_digits(n).len() ==> spec_is_digit(#[trigger] spec_digits(n)[i]),
    decreases n,
{
    if n < 10 {
        lemma_digit_char_val(n as int);
    } else {
        lemma_digits_are_digits(n / 10);
        lemma_digit_char_val((n % 10) as int);
    }
}

/// Ten to the power `w`.
pub open spec fn pow10(w: nat) -> nat
    decreases w,
{
    if w == 0 {
        1
    } else {
        10 * pow10((w - 1) as nat)
    }
}

pub proof fn lemma_pow10_le(a: nat, b: nat)
    requires
        a <= b,
    ensures
        pow10(a) <= pow10(b),
    decreases b,
{
    if a < b {
        lemma_pow10_le(a, (b - 1) as nat);
    }
}

/// The value of a digit string stays below ten to its length.
pub proof fn lemma_dec_val_bound(s: Seq<char>)
    requires
        forall|i: int| 0 <= i < s.len() ==> spec_is_digit(#[trigger] s[i]),
    ensures
        spec_dec_val(s) < pow10(s.len()),
    decreases s.len(),
{
    if s.len() > 0 {
        lemma_dec_val_bound(s.drop_last());
        assert(spec_digit_val(s.last()) <= 9);
    }
}

/// Appending characters never lowers the value read so far.
pub proof fn lemma_dec_val_extend_ge(a: Seq<char>, b: Seq<char>)
    ensures
        spec_dec_val(a + b) >= spec_dec_val(a),
    decreases b.len(),
{
    if b.len() == 0 {
        assert(a + b =~= a);
    } else {
        lemma_dec_val_extend_ge(a, b.drop_last());
        assert((a + b).drop_last() =~= a + b.drop_last());
        assert(spec_dec_val(a + b) == spec_dec_val(a + b.drop_last()) * 10 + spec_digit_val(
            (a + b).last(),
        ));
    }
}

/// Within `a + b`, the characters of `b` sit right after those of `a`.
pub proof fn lemma_concat_parts(a: Seq<char>, b: Seq<char>)
    ensures
        (a + b).len() == a.len() + b.len(),
        forall|k: int| 0 <= k < a.len() ==> #[trigger] (a + b)[k] == a[k],
        forall|k: int| a.len() <= k < a.len() + b.len() ==> #[trigger] (a + b)[k] == b[k - a.len()],
{
}

/// The last `w`-digit group of `n`: its decimal digits zero-padded on the
/// left to exactly `w` characters.
pub open spec fn spec_fixed_digits(n: nat, w: nat) -> Seq<char>
    decreases w,
{
    if w == 0 {
        Seq::empty()
    } else {
        spec_fixed_digits(n / 10, (w - 1) as nat) + seq![spec_digit_char((n % 10) as int)]
    }
}

/// For `n` below ten to the `w`, the fixed-width digits read back as `n`.
pub proof fn lemma_fixed_digits(n: nat, w: nat)
    requires
        n < pow10(w),
    ensures
        spec_fixed_digits(n, w).len() == w,
        forall|i: int|
            0 <= i < w ==> spec_is_digit(#[trigger] spec_fixed_digits(n, w)[i]),
        spec_dec_val(spec_fixed_digits(n, w)) == n,
    decreases w,
{
    if w == 0 {
    } else {
        assert(n / 10 < pow10((w - 1) as nat)) by (nonlinear_arith)
            requires
                n < 10 * pow10((w - 1) as nat),
        ;
        lemma_fixed_digits(n / 10, (w - 1) as nat);
        lemma_digit_char_val((n % 10) as int);
        assert(spec_fixed_digits(n, w).drop_last() =~= spec_fixed_digits(n / 10, (w - 1) as nat));
        assert(spec_fixed_digits(n, w).last() == spec_digit_char((n % 10) as int));
    }
}

/// The first position at or after `i` that does not hold a digit, or the end.
pub open spec fn scan_digits_end(s: Seq<char>, i: int) -> int
    decreases s.len() - i,
{
    if i < 0 || i >= s.len() || !spec_is_digit(s[i]) {
        i
    } else {
        scan_digits_end(s, i + 1)
    }
}

pub proof fn lemma_scan_digits_bounds(s: Seq<char>, i: int)
    requires
        0 <= i <= s.len(),
    ensures
        i <= scan_digits_end(s, i) <= s.len(),
    decreases s.len() - i,
{
    if i < s.len() && spec_is_digit(s[i]) {
        lemma_scan_digits_bounds(s, i + 1);
    }
}

/// Where the digits run exactly over `[i, j)`, the scan stops at `j`.
pub proof fn lemma_scan_digits_stops(s: Seq<char>, i: int, j: int)
    requires
        0 <= i <= j <= s.len(),
        forall|k: int| i <= k < j ==> spec_is_digit(#[trigger] s[k]),
        j == s.len() || !spec_is_digit(s[j]),
    ensures
        scan_digits_end(s, i) == j,
    decreases j - i,
{
    if i < j {
        lemma_scan_digits_stops(s, i + 1, j);
    }
}

/// Where `[i, m)` holds only digits, the scan reaches at least `m`.
pub proof fn lemma_scan_digits_ge(s: Seq<char>, i: int, m: int)
    requires
        0 <= i <= m <= s.len(),
        forall|k: int| i <= k < m ==> spec_is_digit(#[trigger] s[k]),
    ensures
        scan_digits_end(s, i) >= m,
    decreases m - i,
{
    if i < m {
        lemma_scan_digits_ge(s, i + 1, m);
    } else {
        lemma_scan_digits_bounds(s, i);
    }
}

/// Greedy decimal parse at `i`: the value of the maximal digit run starting
/// there, if the run is non-empty and the value stays below `MILLI_LIMIT`.
pub open spec fn spec_parse_number(s: Seq<char>, i: int) -> Option<(nat, int)> {
    let j = scan_digits_end(s, i);
    if i < 0 || j <= i || j > s.len() {
        Option::None
    } else {
        let v = spec_dec_val(s.subrange(i, j));
        if v < MILLI_LIMIT {
            Option::Some((v, j))
        } else {
            Option::None
        }
    }
}

/// Fixed-width decimal parse: exactly `w` digits at `i`.
pub open spec fn spec_parse_fixed(s: Seq<char>, i: int, w: int) -> Option<nat> {
    if 0 <= i && 0 <= w && i + w <= s.len() && (forall|k: int|
        i <= k < i + w ==> spec_is_digit(#[trigger] s[k])) {
        Option::Some(spec_dec_val(s.subrange(i, i + w)))
    } else {
        Option::None
    }
}

/// A milli-unit number as written in a history line: the integer part with
/// no leading zero, a point, and exactly three fractional digits.
pub open spec fn spec_milli_chars(m: nat) -> Seq<char> {
    spec_digits(m / 1000) + seq!['.'] + spec_fixed_digits(m % 1000, 3)
}

/// Milli-unit parse at `i`: greedy integer part, a point, three fractional
/// digits, the whole value below `MILLI_LIMIT`.
pub open spec fn spec_parse_milli(s: Seq<char>, i: int) -> Option<(nat, int)> {
    match spec_parse_number(s, i) {
        Option::None => Option::None,
        Option::Some((ip, j)) => {
            if j < s.len() && s[j] == '.' {
                match spec_parse_fixed(s, j + 1, 3) {
                    Option::None => Option::None,
                    Option::Some(f) => {
                        let m = ip * 1000 + f;
                        if m < MILLI_LIMIT {
                            Option::Some((m, j + 4))
                        } else {
                            Option::None
                        }
                    },
                }
            } else {
                Option::None
            }
        },
    }
}

/// Parsing a printed milli-unit number out of its context returns exactly
/// the number, provided the character after it is not a digit.
pub proof fn lemma_parse_milli_encode(s: Seq<char>, i: int, m: nat)
    requires
        0 <= i,
        m < MILLI_LIMIT,
        i + spec_milli_chars(m).len() <= s.len(),
        s.subrange(i, i + spec_milli_chars(m).len() as int) == spec_milli_chars(m),
    ensures
        spec_parse_milli(s, i) == Option::Some((m, i + spec_milli_chars(m).len() as int)),
{
    let d = spec_digits(m / 1000);
    let f = spec_fixed_digits(m % 1000, 3);
    let full = spec_milli_chars(m);
    let dl = d.len() as int;
    lemma_digits_are_digits(m / 1000);
    lemma_digits_val(m / 1000);
    assert(pow10(0) == 1);
    assert(pow10(1) == 10);
    assert(pow10(2) == 100);
    assert(pow10(3) == 1000);
    lemma_fixed_digits(m % 1000, 3);
    assert(full.len() == dl + 4);
    // the integer-part digits sit at [i, i + dl), followed by the point
    assert forall|k: int| i <= k < i + dl implies spec_is_digit(#[trigger] s[k]) by {
        assert(s[k] == full[k - i]);
        assert(full[k - i] == d[k - i]);
    }
    assert(s[i + dl] == full[dl]);
    assert(full[dl] == '.');
    assert(!spec_is_digit('.'));
    lemma_scan_digits_stops(s, i, i + dl);
    assert(s.subrange(i, i + dl) =~= d);
    assert(m / 1000 < MILLI_LIMIT);
    assert(spec_parse_number(s, i) == Option::Some(((m / 1000) as nat, i + dl)));
    // the three fractional digits sit at [i + dl + 1, i + dl + 4)
    assert forall|k: int| i + dl + 1 <= k < i + dl + 4 implies spec_is_digit(
        #[trigger] s[k],
    ) && s[k] == f[k - i - dl - 1] by {
        assert(s[k] == s.subrange(i, i + full.len() as int)[k - i]);
        assert(full[k - i] == f[k - i - dl - 1]);
    }
    assert(s.subrange(i + dl + 1, i + dl + 4) =~= f);
    assert(spec_parse_fixed(s, i + dl + 1, 3) == Option::Some((m % 1000) as nat));
    assert((m / 1000) * 1000 + m % 1000 == m) by (nonlinear_arith);
}

/// No line break anywhere in `s`.
pub open spec fn no_newline(s: Seq<char>) -> bool {
    forall|k: int| 0 <= k < s.len() ==> #[trigger] s[k] != '\n'
}

pub proof fn lemma_concat_no_newline(a: Seq<char>, b: Seq<char>)
    requires
        no_newline(a),
        no_newline(b),
    ensures
        no_newline(a + b),
{
    lemma_concat_parts(a, b);
    assert forall|k: int| 0 <= k < (a + b).len() implies (a + b)[k] != '\n' by {
        if k < a.len() {
            assert((a + b)[k] == a[k]);
        } else {
            assert((a + b)[k] == b[k - a.len()]);
        }
    }
}

/// A digit is never a line break.
pub proof fn lemma_digit_not_newline(s: Seq<char>)
    requires
        forall|k: int| 0 <= k < s.len() ==> spec_is_digit(#[trigger] s[k]),
    ensures
        no_newline(s),
{
    assert forall|k: int| 0 <= k < s.len() implies s[k] != '\n' by {
        assert(spec_is_digit(s[k]));
        assert(!spec_is_digit('\n'));
    }
}

/// Fixed-width digit groups hold only digit characters, whatever `n` is.
pub proof fn lemma_fixed_all_digits(n: nat, w: nat)
    ensures
        spec_fixed_digits(n, w).len() == w,
        forall|i: int|
            0 <= i < spec_fixed_digits(n, w).len() ==> spec_is_digit(
                #[trigger] spec_fixed_digits(n, w)[i],
            ),
    decreases w,
{
    if w > 0 {
        lemma_fixed_all_digits(n / 10, (w - 1) as nat);
        lemma_digit_char_val((n % 10) as int);
        let a = spec_fixed_digits(n / 10, (w - 1) as nat);
        let b = seq![spec_digit_char((n % 10) as int)];
        lemma_concat_parts(a, b);
        assert forall|i: int|
            0 <= i < spec_fixed_digits(n, w).len() implies spec_is_digit(
            #[trigger] spec_fixed_digits(n, w)[i],
        ) by {
            if i < w - 1 {
                assert(spec_fixed_digits(n, w)[i] == a[i]);
            } else {
                assert(spec_fixed_digits(n, w)[i] == b[i - (w - 1)]);
            }
        }
    }
}

/// A printed milli-unit number holds no line break.
pub proof fn lemma_milli_no_newline(m: nat)
    ensures
        no_newline(spec_milli_chars(m)),
{
    lemma_digits_are_digits(m / 1000);
    lemma_digit_not_newline(spec_digits(m / 1000));
    lemma_fixed_all_digits(m % 1000, 3);
    lemma_digit_not_newline(spec_fixed_digits(m % 1000, 3));
    assert(no_newline(seq!['.'])) by {
        assert(seq!['.'][0] == '.');
    }
    lemma_concat_no_newline(spec_digits(m / 1000), seq!['.']);
    lemma_concat_no_newline(spec_digits(m / 1000) + seq!['.'], spec_fixed_digits(m % 1000, 3));
}

/// Appends the decimal digits of `n`.
pub fn push_digits(out: &mut String, n: u64)
    ensures
        final(out)@ == old(out)@ + spec_digits(n as nat),
    decreases n,
{
    if n < 10 {
        push_digit(out, n);
        proof {
            assert(old(out)@ + seq![spec_digit_char(n as int)] =~= old(out)@ + spec_digits(
                n as nat,
            ));
        }
    } else {
        proof {
            assert(n / 10 < n) by (nonlinear_arith)
                requires
                    n >= 10,
            ;
        }
        push_digits(out, n / 10);
        push_digit(out, n % 10);
        proof {
            assert(old(out)@ + spec_digits((n / 10) as nat) + seq![spec_digit_char(
                (n % 10) as int,
            )] =~= old(out)@ + spec_digits(n as nat));
        }
    }
}

/// Appends the last `w`-digit group of `n`, zero-padded.
pub fn push_fixed(out: &mut String, n: u64, w: u64)
    ensures
        final(out)@ == old(out)@ + spec_fixed_digits(n as nat, w as nat),
    decreases w,
{
    if w == 0 {
        proof {
            assert(old(out)@ + spec_fixed_digits(n as nat, 0) =~= old(out)@);
        }
    } else {
        push_fixed(out, n / 10, w - 1);
        push_digit(out, n % 10);
        proof {
            assert(old(out)@ + spec_fixed_digits((n / 10) as nat, (w - 1) as nat) + seq![
                spec_digit_char((n % 10) as int),
            ] =~= old(out)@ + spec_fixed_digits(n as nat, w as nat));
        }
    }
}

/// Appends one digit character.
fn push_digit(out: &mut String, d: u64)
    requires
        d < 10,
    ensures
        final(out)@ == old(out)@ + seq![spec_digit_char(d as int)],
{
    if d == 0 {
        proof {
            reveal_strlit("0");
            assert("0"@ =~= seq![spec_digit_char(0)]);
        }
        out.append("0");
    } else if d == 1 {
        proof {
            reveal_strlit("1");
            assert("1"@ =~= seq![spec_digit_char(1)]);
        }
        out.append("1");
    } else if d == 2 {
        proof {
            reveal_strlit("2");
            assert("2"@ =~= seq![spec_digit_char(2)]);
        }
        out.append("2");
    } else if d == 3 {
        proof {
            reveal_strlit("3");
            assert("3"@ =~= seq![spec_digit_char(3)]);
        }
        out.append("3");
    } else if d == 4 {
        proof {
            reveal_strlit("4");
            assert("4"@ =~= seq![spec_digit_char(4)]);
        }
        out.append("4");
    } else if d == 5 {
        proof {
            reveal_strlit("5");
            assert("5"@ =~= seq![spec_digit_char(5)]);
        }
        out.append("5");
    } else if d == 6 {
        proof {
            reveal_strlit("6");
            assert("6"@ =~= seq![spec_digit_char(6)]);
        }
        out.append("6");
    } else if d == 7 {
        proof {
            reveal_strlit("7");
            assert("7"@ =~= seq![spec_digit_char(7)]);
        }
        out.append("7");
    } else if d == 8 {
        proof {
            reveal_strlit("8");
            assert("8"@ =~= seq![spec_digit_char(8)]);
        }
        out.append("8");
    } else {
        proof {
            reveal_strlit("9");
            assert("9"@ =~= seq![spec_digit_char(9)]);
        }
        out.append("9");
    }
}

/// Appends a milli-unit number in the line format.
pub fn push_milli(out: &mut String, m: u64)
    ensures
        final(out)@ == old(out)@ + spec_milli_chars(m as nat),
{
    push_digits(out, m / 1000);
    proof {
        reveal_strlit(".");
        assert("."@ =~= seq!['.']);
    }
    out.append(".");
    push_fixed(out, m % 1000, 3);
    proof {
        assert(old(out)@ + spec_digits((m / 1000) as nat) + seq!['.'] + spec_fixed_digits(
            (m % 1000) as nat,
            3,
        ) =~= old(out)@ + spec_milli_chars(m as nat));
    }
}

/// `lit` occurs in `s` at position `i`.
pub open spec fn spec_match(s: Seq<char>, i: int, lit: Seq<char>) -> bool {
    &&& 0 <= i
    &&& i + lit.len() <= s.len()
    &&& s.subrange(i, i + lit.len() as int) == lit
}

/// Checks that `lit` occurs in `s` at position `i`; on success returns the
/// position just past it.
pub fn expect_lit(s: &str, i: usize, lit: &str) -> (r: Option<usize>)
    ensures
        match r {
            Option::Some(j) => j == i + lit@.len() && spec_match(s@, i as int, lit@),
            Option::None => !spec_match(s@, i as int, lit@),
        },
{
    let n = s.unicode_len();
    let m = lit.unicode_len();
    if i > n || m > n - i {
        return None;
    }
    let mut k: usize = 0;
    while k < m
        invariant
            0 <= k <= m,
            i + m <= n,
            n == s@.len(),
            m == lit@.len(),
            forall|t: int| 0 <= t < k ==> s@[i + t] == lit@[t],
        decreases m - k,
    {
        if s.get_char(i + k) != lit.get_char(k) {
            proof {
                assert(s@.subrange(i as int, i + m as int)[k as int] == s@[i + k]);
            }
            return None;
        }
        k = k + 1;
    }
    proof {
        assert(s@.subrange(i as int, i + m as int) =~= lit@);
    }
    Some(i + m)
}

/// Greedy decimal parse, the executable side of `spec_parse_number`.
pub fn parse_number(s: &str, i: usize) -> (r: Option<(u64, usize)>)
    ensures
        match r {
            Option::Some((v, j)) => {
                &&& spec_parse_number(s@, i as int) == Option::Some((v as nat, j as int))
                &&& v < MILLI_LIMIT
                &&& i < j <= s@.len()
            },
            Option::None => spec_parse_number(s@, i as int) is None,
        },
{
    let n = s.unicode_len();
    if i >= n || !is_digit(s.get_char(i)) {
        proof {
            if i < n {
                assert(scan_digits_end(s@, i as int) == i);
            }
        }
        return None;
    }
    let mut j: usize = i;
    let mut acc: u64 = 0;
    while j < n && is_digit(s.get_char(j))
        invariant
            i <= j <= n,
            n == s@.len(),
            acc < MILLI_LIMIT,
            acc == spec_dec_val(s@.subrange(i as int, j as int)),
            forall|k: int| i <= k < j ==> spec_is_digit(#[trigger] s@[k]),
        decreases n - j,
    {
        let d = digit_val(s.get_char(j));
        let acc2 = acc * 10 + d;
        proof {
            assert(s@.subrange(i as int, j + 1 as int).drop_last() =~= s@.subrange(
                i as int,
                j as int,
            ));
            assert(s@.subrange(i as int, j + 1 as int).last() == s@[j as int]);
        }
        if acc2 >= MILLI_LIMIT {
            proof {
                let jend = scan_digits_end(s@, i as int);
                lemma_scan_digits_bounds(s@, i as int);
                lemma_scan_digits_ge(s@, i as int, j + 1);
                assert(s@.subrange(i as int, j + 1 as int) + s@.subrange(j + 1, jend)
                    =~= s@.subrange(i as int, jend));
                lemma_dec_val_extend_ge(
                    s@.subrange(i as int, j + 1 as int),
                    s@.subrange(j + 1, jend),
                );
            }
            return None;
        }
        acc = acc2;
        j = j + 1;
    }
    proof {
        lemma_scan_digits_stops(s@, i as int, j as int);
    }
    Some((acc, j))
}

/// Fixed-width decimal parse, the executable side of `spec_parse_fixed`.
pub fn parse_fixed(s: &str, i: usize, w: usize) -> (r: Option<u64>)
    requires
        w <= 4,
    ensures
        match r {
            Option::Some(v) => spec_parse_fixed(s@, i as int, w as int) == Option::Some(v as nat),
            Option::None => spec_parse_fixed(s@, i as int, w as int) is None,
        },
{
    let n = s.unicode_len();
    if i > n || w > n - i {
        return None;
    }
    let mut k: usize = 0;
    let mut acc: u64 = 0;
    while k < w
        invariant
            0 <= k <= w,
            w <= 4,
            i + w <= n,
            n == s@.len(),
            acc == spec_dec_val(s@.subrange(i as int, i + k as int)),
            acc < pow10(k as nat),
            forall|t: int| i <= t < i + k ==> spec_is_digit(#[trigger] s@[t]),
        decreases w - k,
    {
        let c = s.get_char(i + k);
        if !is_digit(c) {
            return None;
        }
        let d = digit_val(c);
        proof {
            assert(s@.subrange(i as int, i + k + 1 as int).drop_last() =~= s@.subrange(
                i as int,
                i + k as int,
            ));
            assert(s@.subrange(i as int, i + k + 1 as int).last() == s@[i + k]);
            lemma_pow10_le(k as nat, 3);
            assert(pow10(0) == 1);
    assert(pow10(1) == 10);
    assert(pow10(2) == 100);
    assert(pow10(3) == 1000);
            lemma_dec_val_bound(s@.subrange(i as int, i + k + 1 as int));
        }
        acc = acc * 10 + d;
        k = k + 1;
    }
    Some(acc)
}

/// Milli-unit parse, the executable side of `spec_parse_milli`.
pub fn parse_milli(s: &str, i: usize) -> (r: Option<(u64, usize)>)
    ensures
        match r {
            Option::Some((m, j)) => {
                &&& spec_parse_milli(s@, i as int) == Option::Some((m as nat, j as int))
                &&& m < MILLI_LIMIT
                &&& i < j <= s@.len()
            },
            Option::None => spec_parse_milli(s@, i as int) is None,
        },
{
    let n = s.unicode_len();
    let (ip, j) = match parse_number(s, i) {
        None => {
            return None;
        },
        Some(p) => p,
    };
    if j >= n {
        return None;
    }
    if s.get_char(j) != '.' {
        return None;
    }
    let f = match parse_fixed(s, j + 1, 3) {
        None => {
            return None;
        },
        Some(f) => f,
    };
    proof {
        lemma_dec_val_bound(s@.subrange(j + 1 as int, j + 4 as int));
        assert(pow10(0) == 1);
    assert(pow10(1) == 10);
    assert(pow10(2) == 100);
    assert(pow10(3) == 1000);
    }
    let m = ip * 1000 + f;
    if m >= MILLI_LIMIT {
        return None;
    }
    Some((m, j + 4))
}

} // verus!
