//! Brightness through the backlight directory of sysfs: `max_brightness`
//! holds the top of the native range, `brightness` the current value, each
//! as decimal text. The caller reads and writes the files; this module finds
//! their paths, parses what was read and decides what is written.
use vstd::prelude::*;

verus! {

/// An I/O error of std, carried through unchanged.
#[verifier::external_type_specification]
#[verifier::external_body]
pub struct ExIoError(std::io::Error);

/// Why a sysfs brightness operation failed.
#[derive(Debug)]
pub enum Error {
    /// A file could not be opened, read or written.
    Io(std::io::Error),
    /// A file did not hold a decimal value.
    Parse,
    /// The value to write lies outside `[0, max]`.
    OutOfRange,
}

/// The backlight files of one sysfs backlight directory.
pub struct FsBrightness {
    max_path: String,
    curr_path: String,
}

/// `dir` joined with the relative file name `name`, as a path.
pub open spec fn joined(dir: Seq<char>, name: Seq<char>) -> Seq<char> {
    if dir.len() == 0 {
        name
    } else if dir.last() == '/' {
        dir + name
    } else {
        dir + seq!['/'] + name
    }
}

/// `dir` joined with `name`.
fn join(dir: &str, name: &str) -> (r: String)
    ensures
        r@ == joined(dir@, name@),
{
    let mut r = String::from_str(dir);
    let n = dir.unicode_len();
    if n == 0 {
        return String::from_str(name);
    }
    let last = dir.get_char(n - 1);
    if last != '/' {
        proof {
            reveal_strlit("/");
        }
        r.append("/");
    }
    r.append(name);
    r
}

pub open spec fn is_space(c: u8) -> bool {
    c == 32 || (9 <= c && c <= 13)
}

pub open spec fn is_digit(c: u8) -> bool {
    48 <= c && c <= 57
}

/// `b` without its leading ASCII whitespace.
pub open spec fn trim_start(b: Seq<u8>) -> Seq<u8>
    decreases b.len(),
{
    if b.len() > 0 && is_space(b[0]) {
        trim_start(b.drop_first())
    } else {
        b
    }
}

/// `b` without its trailing ASCII whitespace.
pub open spec fn trim_end(b: Seq<u8>) -> Seq<u8>
    decreases b.len(),
{
    if b.len() > 0 && is_space(b.last()) {
        trim_end(b.drop_last())
    } else {
        b
    }
}

/// The number that a string of decimal digits spells.
pub open spec fn digits_value(s: Seq<u8>) -> nat
    decreases s.len(),
{
    if s.len() == 0 {
        0
    } else {
        digits_value(s.drop_last()) * 10 + (s.last() - 48) as nat
    }
}

/// The number of decimal digits at the start of `t`.
pub open spec fn lead_digits(t: Seq<u8>) -> int
    decreases t.len(),
{
    if t.len() > 0 && is_digit(t[0]) {
        1 + lead_digits(t.drop_first())
    } else {
        0
    }
}

/// Where a parsed exponent stops growing: beyond it the whole part is
/// either zero or too large, whatever the exact exponent.
pub const CAP: u128 = 0x40_0000_0000_0000_0000;

pub open spec fn is_sign(c: u8) -> bool {
    c == 43 || c == 45
}

/// The number of decimal digits in `t` from position `i` on.
pub open spec fn digits_from(t: Seq<u8>, i: int) -> int {
    lead_digits(t.subrange(i, t.len() as int))
}

pub open spec fn pow10(n: nat) -> nat
    decreases n,
{
    if n == 0 {
        1
    } else {
        10 * pow10((n - 1) as nat)
    }
}

/// The magnitude of the whole part of the digits `d` read with the decimal
/// point after the first `pos` of them (before them where `pos <= 0`, with
/// zeros appended where `pos` passes their end).
pub open spec fn whole_part(d: Seq<u8>, pos: int) -> nat {
    if pos <= 0 {
        0
    } else if pos <= d.len() {
        digits_value(d.take(pos))
    } else {
        digits_value(d) * pow10((pos - d.len()) as nat)
    }
}

// The parts of a number's text `[+-]digits[.digits][(e|E)[+-]digits]`, by
// position in `t`.
pub open spec fn sign_end(t: Seq<u8>) -> int {
    if t.len() > 0 && is_sign(t[0]) {
        1
    } else {
        0
    }
}

pub open spec fn int_end(t: Seq<u8>) -> int {
    sign_end(t) + digits_from(t, sign_end(t))
}

pub open spec fn has_point(t: Seq<u8>) -> bool {
    int_end(t) < t.len() && t[int_end(t)] == 46
}

pub open spec fn frac_end(t: Seq<u8>) -> int {
    if has_point(t) {
        int_end(t) + 1 + digits_from(t, int_end(t) + 1)
    } else {
        int_end(t)
    }
}

/// The digits of the number, before and after its point.
pub open spec fn mantissa(t: Seq<u8>) -> Seq<u8> {
    t.subrange(sign_end(t), int_end(t)) + if has_point(t) {
        t.subrange(int_end(t) + 1, frac_end(t))
    } else {
        Seq::empty()
    }
}

pub open spec fn has_exp(t: Seq<u8>) -> bool {
    frac_end(t) < t.len() && (t[frac_end(t)] == 101 || t[frac_end(t)] == 69)
}

pub open spec fn exp_signed(t: Seq<u8>) -> bool {
    has_exp(t) && frac_end(t) + 1 < t.len() && is_sign(t[frac_end(t) + 1])
}

pub open spec fn exp_start(t: Seq<u8>) -> int {
    if exp_signed(t) {
        frac_end(t) + 2
    } else {
        frac_end(t) + 1
    }
}

/// Whether `t` is a number: at least one mantissa digit, and an exponent
/// with at least one digit where there is one, and nothing after.
pub open spec fn well_formed(t: Seq<u8>) -> bool {
    mantissa(t).len() > 0 && if has_exp(t) {
        digits_from(t, exp_start(t)) > 0 && exp_start(t) + digits_from(t, exp_start(t)) == t.len()
    } else {
        frac_end(t) == t.len()
    }
}

pub open spec fn exponent(t: Seq<u8>) -> int {
    if has_exp(t) {
        let e = digits_value(t.subrange(exp_start(t), t.len() as int)) as int;
        if exp_signed(t) && t[frac_end(t) + 1] == 45 {
            -e
        } else {
            e
        }
    } else {
        0
    }
}

/// The value that the text of a backlight file holds: once surrounding
/// whitespace is trimmed, a decimal number with an optional sign, point and
/// exponent, of which the whole part is kept (the fraction is dropped). The
/// whole part must fit an `i64`.
pub open spec fn text_value(b: Seq<u8>) -> Option<int> {
    number_of(trim_end(trim_start(b)))
}

/// The value of a number's text `t`, as for `text_value`.
pub open spec fn number_of(t: Seq<u8>) -> Option<int> {
    let w = whole_part(mantissa(t), (int_end(t) - sign_end(t)) + exponent(t));
    if well_formed(t) && w <= i64::MAX {
        Some(
            if sign_end(t) == 1 && t[0] == 45 {
                -w
            } else {
                w as int
            },
        )
    } else {
        None
    }
}

proof fn lemma_pow10_mono(a: nat, b: nat)
    requires
        a <= b,
    ensures
        1 <= pow10(a) <= pow10(b),
    decreases b,
{
    if b > 0 {
        if a < b {
            lemma_pow10_mono(a, (b - 1) as nat);
        } else {
            lemma_pow10_mono((a - 1) as nat, (b - 1) as nat);
        }
    }
}

/// The end of the run of decimal digits in `b` that starts at `from`.
fn scan_digits(b: &[u8], from: usize, to: usize) -> (r: usize)
    requires
        from <= to <= b@.len(),
    ensures
        from <= r <= to,
        r - from == lead_digits(b@.subrange(from as int, to as int)),
        forall|k: int| from <= k < r ==> is_digit(#[trigger] b@[k]),
{
    let mut i: usize = from;
    while i < to && b[i] >= 48u8 && b[i] <= 57u8
        invariant
            from <= i <= to,
            to <= b@.len(),
            lead_digits(b@.subrange(from as int, to as int)) == (i - from) + lead_digits(
                b@.subrange(i as int, to as int),
            ),
            forall|k: int| from <= k < i ==> is_digit(#[trigger] b@[k]),
        decreases to - i,
    {
        assert(b@.subrange(i as int, to as int).drop_first() =~= b@.subrange(i as int + 1, to as int));
        i = i + 1;
    }
    if i < to {
        assert(b@.subrange(i as int, to as int)[0] == b@[i as int]);
    }
    i
}

proof fn lemma_lead_digits(t: Seq<u8>)
    ensures
        0 <= lead_digits(t) <= t.len(),
        forall|i: int| 0 <= i < lead_digits(t) ==> is_digit(#[trigger] t[i]),
        lead_digits(t) < t.len() ==> !is_digit(t[lead_digits(t)]),
    decreases t.len(),
{
    if t.len() > 0 && is_digit(t[0]) {
        lemma_lead_digits(t.drop_first());
        assert forall|i: int| 0 <= i < lead_digits(t) implies is_digit(#[trigger] t[i]) by {
            if i > 0 {
                assert(t[i] == t.drop_first()[i - 1]);
            }
        }
        if lead_digits(t) < t.len() {
            assert(t[lead_digits(t)] == t.drop_first()[lead_digits(t.drop_first())]);
        }
    }
}

/// The decimal text of `n`, without leading zeros.
pub open spec fn decimal(n: nat) -> Seq<u8>
    decreases n,
{
    if n < 10 {
        seq![(48 + n) as u8]
    } else {
        decimal(n / 10).push((48 + n % 10) as u8)
    }
}

proof fn lemma_digits_prefix(s: Seq<u8>, j: int)
    requires
        0 <= j <= s.len(),
        forall|i: int| 0 <= i < s.len() ==> is_digit(#[trigger] s[i]),
    ensures
        digits_value(s.take(j)) <= digits_value(s),
    decreases s.len(),
{
    if j < s.len() {
        assert(s.take(j) =~= s.drop_last().take(j));
        assert forall|i: int| 0 <= i < s.drop_last().len() implies is_digit(
            #[trigger] s.drop_last()[i],
        ) by {
            assert(s.drop_last()[i] == s[i]);
        }
        lemma_digits_prefix(s.drop_last(), j);
    } else {
        assert(s.take(j) =~= s);
    }
}

proof fn lemma_decimal(n: nat)
    ensures
        decimal(n).len() > 0,
        forall|i: int| 0 <= i < decimal(n).len() ==> is_digit(#[trigger] decimal(n)[i]),
        digits_value(decimal(n)) == n,
    decreases n,
{
    if n >= 10 {
        lemma_decimal(n / 10);
        let d = decimal(n / 10);
        assert(decimal(n).drop_last() =~= d);
        assert(decimal(n).last() == (48 + n % 10) as u8);
        assert(n == (n / 10) * 10 + n % 10);
        assert((decimal(n).last() - 48) as nat == n % 10);
        assert(digits_value(decimal(n)) == digits_value(d) * 10 + (decimal(n).last() - 48) as nat);
        assert forall|i: int| 0 <= i < decimal(n).len() implies is_digit(
            #[trigger] decimal(n)[i],
        ) by {
            if i < d.len() {
                assert(decimal(n)[i] == d[i]);
            }
        }
    } else {
        assert(decimal(n).drop_last() =~= Seq::<u8>::empty());
        assert(decimal(n).last() == (48 + n) as u8);
        assert(digits_value(decimal(n)) == digits_value(decimal(n).drop_last()) * 10 + (
        decimal(n).last() - 48) as nat);
    }
}

/// Reading back the text written for a value gives that value again.
pub proof fn lemma_decimal_read_back(n: nat)
    requires
        n <= i64::MAX,
    ensures
        text_value(decimal(n)) == Some(n as int),
{
    lemma_decimal(n);
    let b = decimal(n);
    assert(trim_start(b) == b);
    assert(trim_end(b) == b);
    lemma_lead_digits(b);
    assert(b.subrange(0, b.len() as int) =~= b);
    assert(sign_end(b) == 0);
    assert(int_end(b) == b.len());
    assert(mantissa(b) =~= b);
    assert(b.take(b.len() as int) =~= b);
}

/// The digits held in `b` over two runs of positions, in order.
pub open spec fn digit_run(b: Seq<u8>, lo1: int, hi1: int, lo2: int, hi2: int) -> Seq<u8> {
    b.subrange(lo1, hi1) + b.subrange(lo2, hi2)
}

/// The number spelt by the first `lim` digits of two runs of digits in `b`,
/// or `None` where it exceeds `i64::MAX`.
fn run_prefix_value(b: &[u8], lo1: usize, hi1: usize, lo2: usize, hi2: usize, lim: usize) -> (r:
    Option<i64>)
    requires
        lo1 <= hi1 <= b@.len(),
        lo2 <= hi2 <= b@.len(),
        lim <= (hi1 - lo1) + (hi2 - lo2),
        forall|k: int| lo1 <= k < hi1 ==> is_digit(#[trigger] b@[k]),
        forall|k: int| lo2 <= k < hi2 ==> is_digit(#[trigger] b@[k]),
    ensures
        r is Some ==> r->0 == digits_value(
            digit_run(b@, lo1 as int, hi1 as int, lo2 as int, hi2 as int).take(lim as int),
        ),
        r is None ==> digits_value(
            digit_run(b@, lo1 as int, hi1 as int, lo2 as int, hi2 as int).take(lim as int),
        ) > i64::MAX,
{
    let ghost m = digit_run(b@, lo1 as int, hi1 as int, lo2 as int, hi2 as int);
    let n1: usize = hi1 - lo1;
    let mut acc: i64 = 0;
    let mut d: usize = 0;
    while d < lim
        invariant
            0 <= d <= lim <= m.len(),
            n1 == hi1 - lo1,
            m == digit_run(b@, lo1 as int, hi1 as int, lo2 as int, hi2 as int),
            lo1 <= hi1 <= b@.len(),
            lo2 <= hi2 <= b@.len(),
            forall|k: int| lo1 <= k < hi1 ==> is_digit(#[trigger] b@[k]),
            forall|k: int| lo2 <= k < hi2 ==> is_digit(#[trigger] b@[k]),
            acc == digits_value(m.take(d as int)),
        decreases lim - d,
    {
        let c: u8 = if d < n1 {
            b[lo1 + d]
        } else {
            b[lo2 + (d - n1)]
        };
        assert(m[d as int] == c);
        assert(is_digit(c));
        assert(m.take(d + 1).drop_last() =~= m.take(d as int));
        assert(m.take(d + 1).last() == c);
        let dv: i64 = (c - 48u8) as i64;
        assert(digits_value(m.take(d + 1)) == acc * 10 + dv);
        if acc > (i64::MAX - dv) / 10 {
            proof {
                assert(m.take(d + 1).len() == d + 1);
                lemma_run_prefix_grows(m, lim as int, d + 1);
            }
            return None;
        }
        acc = acc * 10 + dv;
        d = d + 1;
    }
    Some(acc)
}

proof fn lemma_run_prefix_grows(m: Seq<u8>, lim: int, j: int)
    requires
        0 <= j <= lim <= m.len(),
        forall|i: int| 0 <= i < lim ==> is_digit(#[trigger] m[i]),
    ensures
        digits_value(m.take(j)) <= digits_value(m.take(lim)),
{
    let mp = m.take(lim);
    assert forall|q: int| 0 <= q < mp.len() implies is_digit(#[trigger] mp[q]) by {
        assert(mp[q] == m[q]);
    }
    assert(mp.take(j) =~= m.take(j));
    lemma_digits_prefix(mp, j);
}

/// `acc * 10^extra`, or `None` where it exceeds `i64::MAX`.
fn times_pow10(acc: i64, extra: i128) -> (r: Option<i64>)
    requires
        acc >= 1,
        extra >= 0,
    ensures
        r is Some ==> r->0 == acc * pow10(extra as nat) && r->0 >= extra + 1,
        r is None ==> acc * pow10(extra as nat) > i64::MAX,
{
    let mut v: i64 = acc;
    let mut k: i128 = 0;
    assert(pow10(0) == 1);
    assert(v as int == acc * pow10(0nat));
    while k < extra
        invariant
            0 <= k <= extra,
            acc >= 1,
            v as int == acc * pow10(k as nat),
            v >= k + 1,
        decreases extra - k,
    {
        assert(pow10((k + 1) as nat) == 10 * pow10(k as nat));
        assert(acc * pow10((k + 1) as nat) == v * 10) by (nonlinear_arith)
            requires
                v as int == acc * pow10(k as nat),
                pow10((k + 1) as nat) == 10 * pow10(k as nat),
        ;
        if v > i64::MAX / 10 {
            proof {
                lemma_pow10_mono((k + 1) as nat, extra as nat);
                assert(acc * pow10((k + 1) as nat) <= acc * pow10(extra as nat)) by (nonlinear_arith)
                    requires
                        acc >= 1,
                        pow10((k + 1) as nat) <= pow10(extra as nat),
                ;
            }
            return None;
        }
        v = v * 10;
        k = k + 1;
    }
    Some(v)
}

/// The exponent spelt by the digits of `b` in `[from, to)`, held to `CAP`.
fn exponent_capped(b: &[u8], from: usize, to: usize) -> (r: u128)
    requires
        from <= to <= b@.len(),
        forall|q: int| from <= q < to ==> is_digit(#[trigger] b@[q]),
    ensures
        r == if digits_value(b@.subrange(from as int, to as int)) < CAP {
            digits_value(b@.subrange(from as int, to as int)) as int
        } else {
            CAP as int
        },
{
    let ghost es = b@.subrange(from as int, to as int);
    let mut ev: u128 = 0;
    let mut k: usize = from;
    while k < to
        invariant
            from <= k <= to <= b@.len(),
            es == b@.subrange(from as int, to as int),
            forall|q: int| from <= q < to ==> is_digit(#[trigger] b@[q]),
            ev == if digits_value(es.take(k - from)) < CAP {
                digits_value(es.take(k - from)) as int
            } else {
                CAP as int
            },
        decreases to - k,
    {
        let c = b[k];
        assert(es.take(k - from + 1).drop_last() =~= es.take(k - from));
        assert(es.take(k - from + 1).last() == c);
        assert(is_digit(b@[k as int]));
        let d: u128 = (c - 48u8) as u128;
        if ev < CAP {
            ev = ev * 10 + d;
            if ev > CAP {
                ev = CAP;
            }
        }
        k = k + 1;
    }
    assert(es.take(to - from) =~= es);
    ev
}

/// The whole part of the digits over two runs of `b`, read with the point
/// after `pos` of them, or `None` where it exceeds `i64::MAX`. `pos` is the
/// true position `pos_true`, or stands for it where that is too far out to
/// matter: at or before the digits, or far past them.
fn magnitude(
    b: &[u8],
    lo1: usize,
    hi1: usize,
    lo2: usize,
    hi2: usize,
    pos: i128,
    pos_true: Ghost<int>,
) -> (r: Option<i64>)
    requires
        lo1 <= hi1 <= b@.len(),
        lo2 <= hi2 <= b@.len(),
        forall|k: int| lo1 <= k < hi1 ==> is_digit(#[trigger] b@[k]),
        forall|k: int| lo2 <= k < hi2 ==> is_digit(#[trigger] b@[k]),
        (hi1 - lo1) + (hi2 - lo2) <= usize::MAX,
        pos == pos_true@ || (pos_true@ <= pos && pos <= 0) || (pos_true@ >= pos && pos > (hi1
            - lo1) + (hi2 - lo2) + 0x1_0000_0000_0000_0000),
    ensures
        r is Some ==> r->0 == whole_part(
            digit_run(b@, lo1 as int, hi1 as int, lo2 as int, hi2 as int),
            pos_true@,
        ),
        r is None ==> whole_part(
            digit_run(b@, lo1 as int, hi1 as int, lo2 as int, hi2 as int),
            pos_true@,
        ) > i64::MAX,
{
    let ghost pos_true = pos_true@;
    let ghost m = digit_run(b@, lo1 as int, hi1 as int, lo2 as int, hi2 as int);
    let nd: usize = (hi1 - lo1) + (hi2 - lo2);
    let mut mag: i64 = 0;
    if pos > 0 {
        let lim: usize = if pos < nd as i128 {
            pos as usize
        } else {
            nd
        };
        match run_prefix_value(b, lo1, hi1, lo2, hi2, lim) {
            None => {
                proof {
                    if pos_true > nd {
                        assert(m.take(nd as int) =~= m);
                        lemma_pow10_mono(0, (pos_true - nd) as nat);
                        assert(digits_value(m) <= digits_value(m) * pow10((pos_true - nd) as nat))
                            by (nonlinear_arith)
                            requires
                                pow10((pos_true - nd) as nat) >= 1,
                        ;
                    }
                }
                return None;
            },
            Some(v) => {
                if pos > nd as i128 {
                    assert(m.take(nd as int) =~= m);
                    if v == 0 {
                        assert(digits_value(m) == 0);
                        assert(whole_part(m, pos_true) == 0) by (nonlinear_arith)
                            requires
                                pos_true > nd,
                                nd == m.len(),
                                digits_value(m) == 0,
                                whole_part(m, pos_true) == digits_value(m) * pow10(
                                    (pos_true - m.len()) as nat,
                                ),
                        ;
                    } else {
                        match times_pow10(v, pos - nd as i128) {
                            None => {
                                proof {
                                    lemma_pow10_mono((pos - nd) as nat, (pos_true - nd) as nat);
                                    assert(v * pow10((pos - nd) as nat) <= v * pow10(
                                        (pos_true - nd) as nat,
                                    )) by (nonlinear_arith)
                                        requires
                                            v >= 1,
                                            pow10((pos - nd) as nat) <= pow10(
                                                (pos_true - nd) as nat,
                                            ),
                                    ;
                                }
                                return None;
                            },
                            Some(w) => {
                                assert(pos == pos_true);
                                mag = w;
                            },
                        }
                    }
                } else {
                    assert(pos == pos_true);
                    mag = v;
                }
            },
        }
    }
    Some(mag)
}

/// Parses the text of a backlight file.
pub fn parse_level(b: &[u8]) -> (r: Result<i64, Error>)
    ensures
        text_value(b@) is Some ==> r == Ok::<i64, Error>(text_value(b@)->0 as i64),
        text_value(b@) is None ==> r == Err::<i64, Error>(Error::Parse),
{
    let len = b.len();
    let mut start: usize = 0;
    assert(b@.subrange(0, len as int) =~= b@);
    while start < len && (b[start] == 32u8 || (9u8 <= b[start] && b[start] <= 13u8))
        invariant
            0 <= start <= len,
            len == b@.len(),
            trim_start(b@) == trim_start(b@.subrange(start as int, len as int)),
        decreases len - start,
    {
        assert(b@.subrange(start as int, len as int).drop_first() =~= b@.subrange(
            start as int + 1,
            len as int,
        ));
        start = start + 1;
    }
    let mut end: usize = len;
    while end > start && (b[end - 1] == 32u8 || (9u8 <= b[end - 1] && b[end - 1] <= 13u8))
        invariant
            0 <= start <= end <= len,
            len == b@.len(),
            trim_end(b@.subrange(start as int, len as int)) == trim_end(
                b@.subrange(start as int, end as int),
            ),
        decreases end - start,
    {
        assert(b@.subrange(start as int, end as int).drop_last() =~= b@.subrange(
            start as int,
            end as int - 1,
        ));
        end = end - 1;
    }
    let ghost t = b@.subrange(start as int, end as int);
    assert(trim_start(b@) == b@.subrange(start as int, len as int));
    assert(trim_end(t) == t);
    assert(trim_end(trim_start(b@)) == t);
    parse_number(b, start, end)
}

/// Where the sign, the whole digits, the point and the fraction digits of a
/// number's text end, for the text held in `b` over `[start, end)`.
fn mantissa_layout(b: &[u8], start: usize, end: usize) -> (r: (usize, usize, bool, usize))
    requires
        start <= end <= b@.len(),
    ensures
        ({
            let t = b@.subrange(start as int, end as int);
            &&& r.0 == sign_end(t)
            &&& r.1 == int_end(t)
            &&& r.2 == has_point(t)
            &&& r.3 == frac_end(t)
            &&& r.0 <= r.1 <= r.3 <= end - start
            &&& r.2 ==> r.1 < r.3
            &&& forall|k: int| start + r.0 <= k < start + r.1 ==> is_digit(#[trigger] b@[k])
            &&& r.2 ==> forall|k: int| start + r.1 + 1 <= k < start + r.3 ==> is_digit(
                #[trigger] b@[k],
            )
        }),
{
    let ghost t = b@.subrange(start as int, end as int);
    let n: usize = end - start;
    let i0: usize = if n > 0 && (b[start] == 43u8 || b[start] == 45u8) {
        1
    } else {
        0
    };
    assert(i0 == sign_end(t));
    assert(t.subrange(i0 as int, n as int) =~= b@.subrange(start + i0, end as int));
    let i1: usize = scan_digits(b, start + i0, end) - start;
    let point: bool = i1 < n && b[start + i1] == 46u8;
    assert(point == has_point(t));
    let i2: usize = if point {
        assert(t.subrange(i1 + 1, n as int) =~= b@.subrange(start + i1 + 1, end as int));
        scan_digits(b, start + i1 + 1, end) - start
    } else {
        i1
    };
    (i0, i1, point, i2)
}

/// The exponent of a number's text held in `b` over `[start, end)`, whose
/// mantissa ends at `i2`: its magnitude held to `CAP` and whether it is
/// negative; `None` where what follows the mantissa is not an exponent.
fn exponent_part(b: &[u8], start: usize, end: usize, i2: usize) -> (r: Option<(u128, bool)>)
    requires
        start <= end <= b@.len(),
        i2 == frac_end(b@.subrange(start as int, end as int)),
        i2 <= end - start,
    ensures
        ({
            let t = b@.subrange(start as int, end as int);
            let ok = if has_exp(t) {
                digits_from(t, exp_start(t)) > 0 && exp_start(t) + digits_from(t, exp_start(t))
                    == t.len()
            } else {
                frac_end(t) == t.len()
            };
            let e = if has_exp(t) {
                digits_value(t.subrange(exp_start(t), t.len() as int)) as int
            } else {
                0
            };
            &&& r is Some <==> ok
            &&& r matches Some((ev, neg)) ==> ev == if e < CAP {
                e
            } else {
                CAP as int
            }
            &&& r matches Some((ev, neg)) ==> exponent(t) == if neg {
                -e
            } else {
                e
            }
        }),
{
    let ghost t = b@.subrange(start as int, end as int);
    let n: usize = end - start;
    let exp: bool = i2 < n && (b[start + i2] == 101u8 || b[start + i2] == 69u8);
    assert(exp == has_exp(t));
    if !exp {
        if i2 != n {
            return None;
        }
        return Some((0, false));
    }
    let mut e_neg: bool = false;
    let mut j: usize = i2 + 1;
    if j < n && (b[start + j] == 43u8 || b[start + j] == 45u8) {
        e_neg = b[start + j] == 45u8;
        j = j + 1;
    }
    assert(j == exp_start(t));
    assert(t.subrange(j as int, n as int) =~= b@.subrange(start + j, end as int));
    let j2: usize = scan_digits(b, start + j, end) - start;
    if j2 == j || j2 != n {
        return None;
    }
    let ev = exponent_capped(b, start + j, end);
    Some((ev, e_neg))
}

/// Parses the trimmed text of a backlight file, held in `b` over
/// `[start, end)`.
#[verifier::rlimit(100)]
fn parse_number(b: &[u8], start: usize, end: usize) -> (r: Result<i64, Error>)
    requires
        start <= end <= b@.len(),
    ensures
        number_of(b@.subrange(start as int, end as int)) is Some ==> r == Ok::<i64, Error>(
            number_of(b@.subrange(start as int, end as int))->0 as i64,
        ),
        number_of(b@.subrange(start as int, end as int)) is None ==> r == Err::<i64, Error>(
            Error::Parse,
        ),
{
    let ghost t = b@.subrange(start as int, end as int);
    let (i0, i1, point, i2) = mantissa_layout(b, start, end);
    let n_int: usize = i1 - i0;
    let nd: usize = if point {
        n_int + (i2 - i1 - 1)
    } else {
        n_int
    };
    let ghost m = mantissa(t);
    assert(m.len() == nd);
    if nd == 0 {
        return Err(Error::Parse);
    }
    let (ev, e_neg) = match exponent_part(b, start, end, i2) {
        Some(p) => p,
        None => return Err(Error::Parse),
    };
    assert(well_formed(t));
    let ghost pos_true = (int_end(t) - sign_end(t)) + exponent(t);
    let pos: i128 = if e_neg {
        n_int as i128 - ev as i128
    } else {
        n_int as i128 + ev as i128
    };
    assert(nd <= n_int + (end - start));
    let (lo2, hi2): (usize, usize) = if point {
        (start + i1 + 1, start + i2)
    } else {
        (start + i1, start + i1)
    };
    assert(m =~= digit_run(b@, start + i0, start + i1, lo2 as int, hi2 as int));
    let mag: i64 = match magnitude(b, start + i0, start + i1, lo2, hi2, pos, Ghost(pos_true)) {
        Some(v) => v,
        None => return Err(Error::Parse),
    };
    if i0 == 1 && b[start] == 45u8 {
        assert(t[0] == b@[start as int]);
        Ok(-mag)
    } else {
        Ok(mag)
    }
}

/// The decimal text of `n`.
pub fn decimal_text(n: u64) -> (r: Vec<u8>)
    ensures
        r@ == decimal(n as nat),
    decreases n,
{
    if n < 10 {
        vec![(48 + n) as u8]
    } else {
        let mut r = decimal_text(n / 10);
        r.push((48 + n % 10) as u8);
        r
    }
}

impl FsBrightness {
    /// The path of the file holding the top of the native range.
    pub closed spec fn spec_max_path(&self) -> Seq<char> {
        self.max_path@
    }

    /// The path of the file holding the current value.
    pub closed spec fn spec_curr_path(&self) -> Seq<char> {
        self.curr_path@
    }

    /// The backend for the backlight directory `backlight_dir`.
    pub fn new(backlight_dir: &str) -> (r: FsBrightness)
        ensures
            r.spec_max_path() == joined(backlight_dir@, "max_brightness"@),
            r.spec_curr_path() == joined(backlight_dir@, "brightness"@),
    {
        FsBrightness {
            max_path: join(backlight_dir, "max_brightness"),
            curr_path: join(backlight_dir, "brightness"),
        }
    }

    /// The path of `max_brightness`.
    pub fn max_path(&self) -> (r: &String)
        ensures
            r@ == self.spec_max_path(),
    {
        &self.max_path
    }

    /// The path of `brightness`.
    pub fn curr_path(&self) -> (r: &String)
        ensures
            r@ == self.spec_curr_path(),
    {
        &self.curr_path
    }

    /// The bottom of the native range.
    pub fn min(&self) -> (r: i64)
        ensures
            r == 0,
    {
        0
    }

    /// The value of a backlight file, from the outcome of reading it.
    pub fn read_level(contents: Result<Vec<u8>, std::io::Error>) -> (r: Result<i64, Error>)
        ensures
            contents is Err ==> r == Err::<i64, Error>(Error::Io(contents->Err_0)),
            contents is Ok && text_value(contents->Ok_0@) is Some ==> r == Ok::<i64, Error>(
                text_value(contents->Ok_0@)->0 as i64,
            ),
            contents is Ok && text_value(contents->Ok_0@) is None ==> r == Err::<i64, Error>(
                Error::Parse,
            ),
    {
        match contents {
            Ok(b) => parse_level(b.as_slice()),
            Err(e) => Err(Error::Io(e)),
        }
    }

    /// The text to write to `brightness` to set `value`, given the outcome of
    /// reading the top of the range. Nothing is to be written where that read
    /// failed or `value` lies outside `[0, max]`.
    pub fn set(&self, value: i64, max: Result<i64, Error>) -> (r: Result<Vec<u8>, Error>)
        ensures
            max is Err ==> r == Err::<Vec<u8>, Error>(max->Err_0),
            max is Ok && (value < 0 || value > max->Ok_0) ==> r == Err::<Vec<u8>, Error>(
                Error::OutOfRange,
            ),
            max is Ok && 0 <= value <= max->Ok_0 ==> r is Ok && r->Ok_0@ == decimal(value as nat),
    {
        let max = match max {
            Ok(m) => m,
            Err(e) => return Err(e),
        };
        if value < 0 || value > max {
            return Err(Error::OutOfRange);
        }
        Ok(decimal_text(value as u64))
    }
}

/// Setting a value in `[0, max]` and reading the file back gives that value:
/// the text `FsBrightness::set` returns for it, `decimal(value)`, is text that
/// `FsBrightness::read_level` reads as `value`.
pub proof fn lemma_set_then_read(value: int, max: int)
    requires
        0 <= value <= max <= i64::MAX,
    ensures
        text_value(decimal(value as nat)) == Some(value),
{
    lemma_decimal_read_back(value as nat);
}

} // verus!
