use vstd::prelude::*;

verus! {

/// A non-negative decimal quantity (a donation or a bit count), held in
/// thousandths.
#[derive(Debug, Clone, Copy, PartialEq, Eq, Structural)]
pub struct Amount {
    pub milli: u64,
}

pub open spec fn is_digit(c: char) -> bool {
    '0' <= c <= '9'
}

pub open spec fn digit_val(c: char) -> int {
    c as int - '0' as int
}

pub open spec fn all_digits(s: Seq<char>) -> bool {
    forall|i: int| 0 <= i < s.len() ==> is_digit(#[trigger] s[i])
}

/// The number a string of decimal digits spells, most significant first.
pub open spec fn digits_value(s: Seq<char>) -> int
    decreases s.len(),
{
    if s.len() == 0 {
        0
    } else {
        digits_value(s.drop_last()) * 10 + digit_val(s.last())
    }
}

/// How many decimal digits the string starts with.
pub open spec fn lead_digits(s: Seq<char>) -> int
    decreases s.len(),
{
    if s.len() > 0 && is_digit(s[0]) {
        1 + lead_digits(s.skip(1))
    } else {
        0
    }
}

/// The length of an optional leading `+`.
pub open spec fn sign_len(s: Seq<char>) -> int {
    if s.len() > 0 && s[0] == '+' {
        1
    } else {
        0
    }
}

/// Where the digits before any decimal point end.
pub open spec fn int_end(s: Seq<char>) -> int {
    sign_len(s) + lead_digits(s.skip(sign_len(s)))
}

pub open spec fn has_point(s: Seq<char>) -> bool {
    int_end(s) < s.len() && s[int_end(s)] == '.'
}

/// Where the digits, the point and the fraction digits end.
pub open spec fn mantissa_end(s: Seq<char>) -> int {
    if has_point(s) {
        int_end(s) + 1 + lead_digits(s.skip(int_end(s) + 1))
    } else {
        int_end(s)
    }
}

pub open spec fn frac_part(s: Seq<char>) -> Seq<char> {
    if has_point(s) {
        s.subrange(int_end(s) + 1, mantissa_end(s))
    } else {
        Seq::empty()
    }
}

/// The digits before and after the point, in order.
pub open spec fn mantissa(s: Seq<char>) -> Seq<char> {
    s.subrange(sign_len(s), int_end(s)) + frac_part(s)
}

/// The length of the sign of an exponent part `r` (which starts with its `e`).
pub open spec fn exp_sign_len(r: Seq<char>) -> int {
    if r.len() > 1 && (r[1] == '+' || r[1] == '-') {
        1
    } else {
        0
    }
}

pub open spec fn exp_digits(r: Seq<char>) -> Seq<char> {
    r.skip(1 + exp_sign_len(r))
}

/// No exponent, or `e` or `E`, an optional sign and one or more digits.
pub open spec fn is_exponent(r: Seq<char>) -> bool {
    r.len() == 0 || ((r[0] == 'e' || r[0] == 'E') && exp_digits(r).len() >= 1 && all_digits(
        exp_digits(r),
    ))
}

pub open spec fn exponent_value(r: Seq<char>) -> int {
    if r.len() == 0 {
        0
    } else if exp_sign_len(r) == 1 && r[1] == '-' {
        -digits_value(exp_digits(r))
    } else {
        digits_value(exp_digits(r))
    }
}

/// Non-negative decimal amount text: an optional `+`, digits with an
/// optional decimal point and at least one digit in all, then an optional
/// exponent.
pub open spec fn is_amount_text(s: Seq<char>) -> bool {
    &&& mantissa(s).len() >= 1
    &&& is_exponent(s.skip(mantissa_end(s)))
}

pub open spec fn pow10(k: nat) -> int
    decreases k,
{
    if k == 0 {
        1
    } else {
        10 * pow10((k - 1) as nat)
    }
}

/// The digits of `d` times `10^k`, rounded down: `k` zeros appended, or the
/// last `-k` digits dropped.
pub open spec fn shifted(d: Seq<char>, k: int) -> Seq<char> {
    if k >= 0 {
        d + Seq::new(k as nat, |i: int| '0')
    } else if d.len() + k <= 0 {
        Seq::empty()
    } else {
        d.take(d.len() + k)
    }
}

/// The power of ten that turns the mantissa's digits into thousandths.
pub open spec fn milli_shift(s: Seq<char>) -> int {
    exponent_value(s.skip(mantissa_end(s))) - frac_part(s).len() + 3
}

/// The value of amount text in thousandths, rounded down.
pub open spec fn amount_milli(s: Seq<char>) -> int {
    digits_value(shifted(mantissa(s), milli_shift(s)))
}

proof fn lemma_digits_step(s: Seq<char>, i: int)
    requires
        0 <= i < s.len(),
    ensures
        digits_value(s.take(i + 1)) == digits_value(s.take(i)) * 10 + digit_val(s[i]),
{
    assert(s.take(i + 1).drop_last() =~= s.take(i));
}

proof fn lemma_lead_digits(s: Seq<char>, i: int)
    requires
        0 <= i <= s.len(),
        forall|j: int| 0 <= j < i ==> is_digit(#[trigger] s[j]),
        i == s.len() || !is_digit(s[i]),
    ensures
        lead_digits(s) == i,
    decreases i,
{
    if i > 0 {
        let t = s.skip(1);
        assert forall|j: int| 0 <= j < i - 1 implies is_digit(#[trigger] t[j]) by {
            assert(t[j] == s[j + 1]);
        }
        lemma_lead_digits(t, i - 1);
    }
}

proof fn lemma_digits_nonneg(s: Seq<char>)
    requires
        all_digits(s),
    ensures
        digits_value(s) >= 0,
    decreases s.len(),
{
    if s.len() > 0 {
        let t = s.drop_last();
        assert forall|i: int| 0 <= i < t.len() implies is_digit(#[trigger] t[i]) by {
            assert(t[i] == s[i]);
        }
        lemma_digits_nonneg(t);
    }
}

fn is_digit_char(c: char) -> (r: bool)
    ensures
        r == is_digit(c),
{
    '0' <= c && c <= '9'
}

fn digit_of(c: char) -> (d: u64)
    requires
        is_digit(c),
    ensures
        d == digit_val(c),
        d <= 9,
{
    (c as u32 - '0' as u32) as u64
}

proof fn lemma_pow10_large(k: nat)
    requires
        k >= 20,
    ensures
        pow10(k) > u64::MAX,
    decreases k,
{
    if k > 20 {
        lemma_pow10_large((k - 1) as nat);
    } else {
        reveal_with_fuel(pow10, 21);
        assert(pow10(20) == 100000000000000000000int);
    }
}

proof fn lemma_zeros_value(d: Seq<char>, k: nat)
    ensures
        digits_value(d + Seq::new(k, |i: int| '0')) == digits_value(d) * pow10(k),
    decreases k,
{
    let z = d + Seq::new(k, |i: int| '0');
    if k > 0 {
        lemma_zeros_value(d, (k - 1) as nat);
        assert(z.drop_last() =~= d + Seq::new((k - 1) as nat, |i: int| '0'));
        assert(z.last() == '0');
        assert(digits_value(d) * pow10((k - 1) as nat) * 10 == digits_value(d) * pow10(k))
            by (nonlinear_arith)
            requires
                pow10(k) == 10 * pow10((k - 1) as nat),
        ;
    } else {
        assert(z =~= d);
    }
}

/// The end of the run of digits that starts at `start`.
fn scan_digits(text: &str, start: usize, n: usize) -> (end: usize)
    requires
        start <= n,
        n == text@.len(),
    ensures
        start <= end <= n,
        end - start == lead_digits(text@.skip(start as int)),
        forall|j: int| start <= j < end ==> is_digit(#[trigger] text@[j]),
        end == n || !is_digit(text@[end as int]),
{
    let mut p: usize = start;
    while p < n && is_digit_char(text.get_char(p))
        invariant
            start <= p <= n,
            n == text@.len(),
            forall|j: int| start <= j < p ==> is_digit(#[trigger] text@[j]),
        decreases n - p,
    {
        p += 1;
    }
    proof {
        let t = text@.skip(start as int);
        assert forall|j: int| 0 <= j < p - start implies is_digit(#[trigger] t[j]) by {
            assert(t[j] == text@[start + j]);
        }
        if p < n {
            assert(t[p - start] == text@[p as int]);
        }
        lemma_lead_digits(t, p - start);
    }
    p
}

/// Appends the characters of `text` in `from..to`.
fn push_range(d: &mut Vec<char>, text: &str, from: usize, to: usize)
    requires
        from <= to <= text@.len(),
    ensures
        final(d)@ == old(d)@ + text@.subrange(from as int, to as int),
{
    let mut i: usize = from;
    while i < to
        invariant
            from <= i <= to,
            to <= text@.len(),
            d@ == old(d)@ + text@.subrange(from as int, i as int),
        decreases to - i,
    {
        d.push(text.get_char(i));
        i += 1;
        assert(d@ =~= old(d)@ + text@.subrange(from as int, i as int));
    }
}

/// The number the first `upto` digits spell, where it fits in a `u64`.
fn prefix_value(d: &Vec<char>, upto: usize) -> (r: Option<u64>)
    requires
        upto <= d@.len(),
        all_digits(d@),
    ensures
        r is Some <==> digits_value(d@.take(upto as int)) <= u64::MAX,
        r matches Some(v) ==> v == digits_value(d@.take(upto as int)),
{
    let ghost s = d@;
    let mut i: usize = 0;
    let mut acc: u64 = 0;
    let mut big = false;
    while i < upto
        invariant
            i <= upto,
            upto <= s.len(),
            s == d@,
            all_digits(s),
            big ==> digits_value(s.take(i as int)) > u64::MAX,
            !big ==> acc == digits_value(s.take(i as int)),
        decreases upto - i,
    {
        let dv = digit_of(d[i]);
        let ghost before = digits_value(s.take(i as int));
        proof {
            lemma_digits_step(s, i as int);
            assert(all_digits(s.take(i as int)));
            lemma_digits_nonneg(s.take(i as int));
        }
        if !big {
            if acc > (u64::MAX - dv) / 10 {
                assert(acc * 10 + dv > u64::MAX) by (nonlinear_arith)
                    requires
                        acc > (u64::MAX - dv) / 10,
                        dv <= 9,
                ;
                big = true;
            } else {
                assert(acc * 10 + dv <= u64::MAX) by (nonlinear_arith)
                    requires
                        acc <= (u64::MAX - dv) / 10,
                        dv <= 9,
                ;
                acc = acc * 10 + dv;
            }
        } else {
            assert(before * 10 + dv > u64::MAX) by (nonlinear_arith)
                requires
                    before > u64::MAX,
                    dv <= 9,
            ;
        }
        i += 1;
    }
    if big {
        None
    } else {
        Some(acc)
    }
}

/// The number the digits in `from..to` spell, or `None` once it passes `cap`.
fn capped_value(text: &str, from: usize, to: usize, cap: u128) -> (r: Option<u128>)
    requires
        from <= to <= text@.len(),
        cap < 0x1_0000_0000_0000_0000_0000_0000u128,
        forall|j: int| from <= j < to ==> is_digit(#[trigger] text@[j]),
    ensures
        r is None <==> digits_value(text@.subrange(from as int, to as int)) > cap,
        r matches Some(v) ==> v == digits_value(text@.subrange(from as int, to as int)),
{
    let ghost s = text@.subrange(from as int, to as int);
    let mut i: usize = from;
    let mut acc: u128 = 0;
    let mut big = false;
    while i < to
        invariant
            from <= i <= to,
            to <= text@.len(),
            s == text@.subrange(from as int, to as int),
            cap < 0x1_0000_0000_0000_0000_0000_0000u128,
            forall|j: int| from <= j < to ==> is_digit(#[trigger] text@[j]),
            big ==> digits_value(s.take(i - from)) > cap,
            !big ==> acc == digits_value(s.take(i - from)) && acc <= cap,
        decreases to - i,
    {
        assert(s[i - from] == text@[i as int]);
        let dv = digit_of(text.get_char(i));
        let ghost before = digits_value(s.take(i - from));
        proof {
            lemma_digits_step(s, i - from);
            assert(all_digits(s.take(i - from)));
            lemma_digits_nonneg(s.take(i - from));
        }
        if !big {
            let next = acc * 10 + dv as u128;
            if next > cap {
                big = true;
            } else {
                acc = next;
            }
        } else {
            assert(before * 10 + dv > cap) by (nonlinear_arith)
                requires
                    before > cap,
                    dv <= 9,
            ;
        }
        i += 1;
    }
    assert(s.take(to - from) =~= s);
    if big {
        None
    } else {
        Some(acc)
    }
}

/// The mantissa's digits, where the mantissa ends, and how many digits
/// follow the point.
fn scan_mantissa(text: &str, n: usize) -> (res: (Vec<char>, usize, usize))
    requires
        n == text@.len(),
    ensures
        res.0@ == mantissa(text@),
        res.1 == mantissa_end(text@),
        res.2 == frac_part(text@).len(),
        all_digits(res.0@),
        res.0@.len() <= n,
        res.1 <= n,
{
    let ghost s = text@;
    let sg: usize = if n > 0 && text.get_char(0) == '+' {
        1
    } else {
        0
    };
    let ie = scan_digits(text, sg, n);
    let mut mant: Vec<char> = Vec::new();
    push_range(&mut mant, text, sg, ie);
    let mut me: usize = ie;
    let mut fcount: usize = 0;
    if ie < n && text.get_char(ie) == '.' {
        let fe = scan_digits(text, ie + 1, n);
        push_range(&mut mant, text, ie + 1, fe);
        fcount = fe - (ie + 1);
        me = fe;
    }
    proof {
        assert(sg == sign_len(s));
        assert(ie == int_end(s));
        assert(me == mantissa_end(s));
        assert(mant@ =~= mantissa(s));
    }
    (mant, me, fcount)
}

/// Reads the exponent part that starts at `me`: `None` where it is no
/// exponent, else its sign and its magnitude, or `None` for a magnitude
/// above `cap`.
fn scan_exponent(text: &str, me: usize, n: usize, cap: u128) -> (res: Option<(bool, Option<u128>)>)
    requires
        me <= n,
        n == text@.len(),
        cap < 0x1_0000_0000_0000_0000_0000_0000u128,
    ensures
        res is None <==> !is_exponent(text@.skip(me as int)),
        res matches Some((neg, ev)) ==> {
            let e = exponent_value(text@.skip(me as int));
            &&& ev matches Some(v) ==> e == (if neg { -v } else { v as int }) && v <= cap
            &&& ev is None && neg ==> e < -cap
            &&& ev is None && !neg ==> e > cap
        },
{
    let ghost s = text@;
    let ghost r = s.skip(me as int);
    if me == n {
        assert(r.len() == 0);
        return Some((false, Some(0)));
    }
    let c = text.get_char(me);
    if c != 'e' && c != 'E' {
        return None;
    }
    let mut neg = false;
    let mut ds: usize = me + 1;
    if ds < n {
        let c2 = text.get_char(ds);
        if c2 == '+' || c2 == '-' {
            neg = c2 == '-';
            ds = ds + 1;
        }
    }
    assert(exp_digits(r) =~= s.subrange(ds as int, n as int));
    let de = scan_digits(text, ds, n);
    if de == ds || de < n {
        proof {
            if ds < n {
                assert(exp_digits(r)[de - ds] == s[de as int]);
            }
        }
        return None;
    }
    assert(all_digits(exp_digits(r)));
    let ev = capped_value(text, ds, de, cap);
    Some((neg, ev))
}

/// The digits of `mant` scaled to thousandths, for the exponent that
/// `(neg, ev)` stands for and `fcount` fraction digits.
fn scaled_value(mant: Vec<char>, fcount: usize, neg: bool, ev: Option<u128>, cap: u128, e: Ghost<int>)
    -> (r: Option<u64>)
    requires
        all_digits(mant@),
        mant@.len() + 27 <= cap,
        fcount <= mant@.len(),
        cap < 0x1_0000_0000_0000_0000_0000_0000u128,
        ev matches Some(v) ==> e@ == (if neg { -v } else { v as int }) && v <= cap,
        ev is None && neg ==> e@ < -cap,
        ev is None && !neg ==> e@ > cap,
    ensures
        r is Some <==> digits_value(shifted(mant@, e@ - fcount + 3)) <= u64::MAX,
        r matches Some(m) ==> m == digits_value(shifted(mant@, e@ - fcount + 3)),
{
    let ghost d = mant@;
    let ghost sh = e@ - fcount + 3;
    let nd = mant.len();
    proof {
        lemma_digits_nonneg(d);
    }
    let big_shift: bool;
    let mut small: i128 = 0;
    match ev {
        None => {
            if neg {
                assert(shifted(d, sh) =~= Seq::<char>::empty());
                return Some(0);
            }
            big_shift = true;
        },
        Some(v) => {
            let e_exec: i128 = if neg {
                -(v as i128)
            } else {
                v as i128
            };
            small = e_exec - fcount as i128 + 3;
            big_shift = small >= 20;
        },
    }
    if big_shift {
        proof {
            lemma_zeros_value(d, sh as nat);
            lemma_pow10_large(sh as nat);
            assert(d.take(nd as int) =~= d);
            assert(shifted(d, sh) =~= d + Seq::new(sh as nat, |i: int| '0'));
        }
        match prefix_value(&mant, nd) {
            Some(0) => {
                assert(sh >= 0);
                assert(digits_value(d) == 0);
                assert(digits_value(d) * pow10(sh as nat) == 0) by (nonlinear_arith)
                    requires
                        digits_value(d) == 0,
                ;
                assert(digits_value(shifted(d, sh)) == 0);
                return Some(0);
            },
            _ => {},
        }
        let ghost v = digits_value(d);
        assert(v * pow10(sh as nat) > u64::MAX) by (nonlinear_arith)
            requires
                v >= 1,
                pow10(sh as nat) > u64::MAX,
        ;
        return None;
    }
    if small >= 0 {
        let mut digits = mant;
        let mut i: i128 = 0;
        while i < small
            invariant
                0 <= i <= small,
                small < 20,
                digits@ == d + Seq::new(i as nat, |j: int| '0'),
            decreases small - i,
        {
            digits.push('0');
            i += 1;
            assert(digits@ =~= d + Seq::new(i as nat, |j: int| '0'));
        }
        let len = digits.len();
        assert(digits@ == shifted(d, sh));
        assert(digits@.take(len as int) =~= digits@);
        assert(all_digits(digits@));
        prefix_value(&digits, len)
    } else {
        let k: i128 = -small;
        if k >= nd as i128 {
            assert(shifted(d, sh) =~= Seq::<char>::empty());
            Some(0)
        } else {
            let upto: usize = (nd as i128 - k) as usize;
            prefix_value(&mant, upto)
        }
    }
}

/// Reads decimal amount text into thousandths, rounded down. `None` where
/// the text is no non-negative decimal amount or the value does not fit.
pub fn parse_amount(text: &str) -> (r: Option<Amount>)
    ensures
        r is Some <==> is_amount_text(text@) && amount_milli(text@) <= u64::MAX,
        r matches Some(a) ==> a.milli == amount_milli(text@),
{
    let n = text.unicode_len();
    let (mant, me, fcount) = scan_mantissa(text, n);
    if mant.len() == 0 {
        return None;
    }
    let cap: u128 = n as u128 + 30;
    match scan_exponent(text, me, n, cap) {
        None => None,
        Some((neg, ev)) => {
            let ghost e = exponent_value(text@.skip(me as int));
            match scaled_value(mant, fcount, neg, ev, cap, Ghost(e)) {
                Some(m) => Some(Amount { milli: m }),
                None => None,
            }
        },
    }
}

} // verus!
