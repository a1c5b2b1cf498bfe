use vstd::prelude::*;

verus! {

/// The most digits that a number held by `Fixed` has: in all, before its
/// point, and after it.
pub const HELD_DIGITS: u32 = 36;

/// Exponents beyond this size are all treated alike: no number with one is
/// held unless it is zero.
pub const EXPONENT_CAP: i128 = 1000000000000000000000;

/// A decimal number, worth `mantissa * 10^-scale`.
#[derive(Clone, Copy, Debug, PartialEq, Eq, Structural)]
pub struct Fixed {
    pub mantissa: i128,
    pub scale: u32,
}

pub open spec fn pow10(n: nat) -> nat
    decreases n,
{
    if n == 0 {
        1
    } else {
        10 * pow10((n - 1) as nat)
    }
}

pub proof fn lemma_pow10_positive(n: nat)
    ensures
        pow10(n) >= 1,
    decreases n,
{
    if n > 0 {
        lemma_pow10_positive((n - 1) as nat);
    }
}

pub proof fn lemma_pow10_add(a: nat, b: nat)
    ensures
        pow10(a + b) == pow10(a) * pow10(b),
    decreases b,
{
    if b == 0 {
        assert(pow10(0) == 1);
    } else {
        let c = (b - 1) as nat;
        lemma_pow10_add(a, c);
        let x = pow10(a);
        let y = pow10(c);
        assert(pow10(a + b) == 10 * pow10(a + c));
        assert(pow10(b) == 10 * y);
        assert(x * (10 * y) == 10 * (x * y)) by (nonlinear_arith);
        assert(pow10(a + b) == x * pow10(b));
    }
}

pub proof fn lemma_pow10_monotonic(a: nat, b: nat)
    requires
        a <= b,
    ensures
        pow10(a) <= pow10(b),
    decreases b,
{
    if a < b {
        lemma_pow10_monotonic(a, (b - 1) as nat);
        lemma_pow10_positive((b - 1) as nat);
    }
}

proof fn lemma_pow10_17()
    ensures
        pow10(17) == 100000000000000000nat,
{
    reveal_with_fuel(pow10, 18);
}

pub proof fn lemma_pow10_18()
    ensures
        pow10(18) == 1000000000000000000nat,
{
    reveal_with_fuel(pow10, 19);
}

proof fn lemma_pow10_38()
    ensures
        pow10(38) == 100000000000000000000000000000000000000nat,
{
    lemma_pow10_17();
    lemma_pow10_add(17, 21);
    reveal_with_fuel(pow10, 22);
}

/// `10^n` for an `n` that fits.
pub fn pow10_exec(n: u32) -> (r: u128)
    requires
        n <= 38,
    ensures
        r == pow10(n as nat),
{
    let mut r: u128 = 1;
    let mut i: u32 = 0;
    while i < n
        invariant
            i <= n <= 38,
            r == pow10(i as nat),
        decreases n - i,
    {
        proof {
            lemma_pow10_monotonic((i + 1) as nat, 38);
            lemma_pow10_38();
        }
        r = r * 10;
        i += 1;
    }
    r
}

impl Fixed {
    /// Whether `self` and `o` are the same number.
    pub open spec fn same_value(self, o: Fixed) -> bool {
        self.mantissa * pow10(o.scale as nat) == o.mantissa * pow10(self.scale as nat)
    }

    /// Whether `self` is at most `o` as a number.
    pub open spec fn le_value(self, o: Fixed) -> bool {
        self.mantissa * pow10(o.scale as nat) <= o.mantissa * pow10(self.scale as nat)
    }

    /// `self` with the trailing zeros of its fraction taken off.
    pub open spec fn normal(self) -> Fixed
        decreases self.scale,
    {
        if self.scale > 0 && self.mantissa % 10 == 0 {
            Fixed { mantissa: (self.mantissa / 10) as i128, scale: (self.scale - 1) as u32 }.normal()
        } else {
            self
        }
    }

    /// The number with the trailing zeros of its fraction taken off
    /// (`150.00` becomes `150`).
    pub fn normalize(self) -> (r: Fixed)
        ensures
            r == self.normal(),
    {
        let mut m = self.mantissa;
        let mut s = self.scale;
        while s > 0 && m % 10 == 0
            invariant
                (Fixed { mantissa: m, scale: s }).normal() == self.normal(),
            decreases s,
        {
            m = m / 10;
            s = s - 1;
        }
        Fixed { mantissa: m, scale: s }
    }
}

/// Taking trailing zeros off keeps the number.
pub proof fn lemma_normal_same_value(f: Fixed)
    ensures
        f.normal().same_value(f),
    decreases f.scale,
{
    if f.scale > 0 && f.mantissa % 10 == 0 {
        let g = Fixed { mantissa: (f.mantissa / 10) as i128, scale: (f.scale - 1) as u32 };
        lemma_normal_same_value(g);
        let n = f.normal();
        assert(n == g.normal());
        let pg = pow10(g.scale as nat);
        let pn = pow10(n.scale as nat);
        assert(pow10(f.scale as nat) == 10 * pg);
        let nm = n.mantissa as int;
        let gm = g.mantissa as int;
        let fm = f.mantissa as int;
        assert(fm == 10 * gm);
        assert(nm * pg == gm * pn);
        assert(nm * (10 * pg) == (10 * gm) * pn) by (nonlinear_arith)
            requires
                nm * pg == gm * pn,
        ;
    }
}

/// Comparing is the same for two texts of one number.
pub proof fn lemma_le_same_value(x: Fixed, x2: Fixed, y: Fixed, y2: Fixed)
    requires
        x.same_value(x2),
        y.same_value(y2),
    ensures
        x.le_value(y) == x2.le_value(y2),
{
    let a = x.mantissa as int;
    let b = x2.mantissa as int;
    let c = y.mantissa as int;
    let d = y2.mantissa as int;
    let p = pow10(x.scale as nat) as int;
    let p2 = pow10(x2.scale as nat) as int;
    let q = pow10(y.scale as nat) as int;
    let q2 = pow10(y2.scale as nat) as int;
    lemma_pow10_positive(x.scale as nat);
    lemma_pow10_positive(x2.scale as nat);
    lemma_pow10_positive(y.scale as nat);
    lemma_pow10_positive(y2.scale as nat);
    assert((a * q <= c * p) == (b * q <= c * p2)) by (nonlinear_arith)
        requires
            a * p2 == b * p,
            p > 0,
            p2 > 0,
            q > 0,
    ;
    assert((b * q <= c * p2) == (b * q2 <= d * p2)) by (nonlinear_arith)
        requires
            c * q2 == d * q,
            p2 > 0,
            q > 0,
            q2 > 0,
    ;
}

pub open spec fn is_digit(c: char) -> bool {
    '0' <= c <= '9'
}

pub open spec fn digit_value(c: char) -> int {
    (c as u32) as int - ('0' as u32) as int
}

/// The number that a string of decimal digits spells.
pub open spec fn digits_value(s: Seq<char>) -> int
    decreases s.len(),
{
    if s.len() == 0 {
        0
    } else {
        digits_value(s.drop_last()) * 10 + digit_value(s.last())
    }
}

pub open spec fn all_digits(s: Seq<char>) -> bool {
    forall|i: int| 0 <= i < s.len() ==> is_digit(#[trigger] s[i])
}

/// The index of the first `'.'` of `s` at or after `i`, or `s.len()`.
pub open spec fn point_from(s: Seq<char>, i: int) -> int
    decreases s.len() - i,
{
    if i < 0 || i >= s.len() || s[i] == '.' {
        i
    } else {
        point_from(s, i + 1)
    }
}

/// The index of the first `'e'` or `'E'` of `s` at or after `i`, or `s.len()`.
pub open spec fn exp_mark_from(s: Seq<char>, i: int) -> int
    decreases s.len() - i,
{
    if i < 0 || i >= s.len() || s[i] == 'e' || s[i] == 'E' {
        i
    } else {
        exp_mark_from(s, i + 1)
    }
}

/// The length of the sign that `s` starts with: one for `-` or `+`.
pub open spec fn sign_len(s: Seq<char>) -> int {
    if s.len() > 0 && (s[0] == '-' || s[0] == '+') {
        1
    } else {
        0
    }
}

/// Whether `s` starts with a minus sign.
pub open spec fn minus(s: Seq<char>) -> bool {
    s.len() > 0 && s[0] == '-'
}

/// `s` without its sign.
pub open spec fn unsigned(s: Seq<char>) -> Seq<char> {
    s.subrange(sign_len(s), s.len() as int)
}

/// The part of `s` before its exponent mark.
pub open spec fn mantissa_text(s: Seq<char>) -> Seq<char> {
    let body = unsigned(s);
    body.subrange(0, exp_mark_from(body, 0))
}

/// The part of `s` after its exponent mark, if it has one.
pub open spec fn exponent_text(s: Seq<char>) -> Option<Seq<char>> {
    let body = unsigned(s);
    let q = exp_mark_from(body, 0);
    if q < body.len() {
        Some(body.subrange(q + 1, body.len() as int))
    } else {
        None
    }
}

/// The digits of `s` before its decimal point.
pub open spec fn whole_digits(s: Seq<char>) -> Seq<char> {
    let m = mantissa_text(s);
    m.subrange(0, point_from(m, 0))
}

/// The digits of `s` after its decimal point, if it has one.
pub open spec fn fraction_digits(s: Seq<char>) -> Seq<char> {
    let m = mantissa_text(s);
    let p = point_from(m, 0);
    if p < m.len() {
        m.subrange(p + 1, m.len() as int)
    } else {
        Seq::empty()
    }
}

/// An exponent text: an optional sign, then at least one digit.
pub open spec fn exponent_ok(t: Seq<char>) -> bool {
    unsigned(t).len() >= 1 && all_digits(unsigned(t))
}

pub open spec fn exponent_value(t: Seq<char>) -> int {
    if minus(t) {
        -digits_value(unsigned(t))
    } else {
        digits_value(unsigned(t))
    }
}

/// The index of the first digit of `d` at or after `i` that is not `'0'`,
/// or `d.len()`.
pub open spec fn zeros_from(d: Seq<char>, i: int) -> int
    decreases d.len() - i,
{
    if i < 0 || i >= d.len() || d[i] != '0' {
        i
    } else {
        zeros_from(d, i + 1)
    }
}

/// The end of `d[lo..j]` once its trailing `'0'`s are taken off.
pub open spec fn digits_end(d: Seq<char>, lo: int, j: int) -> int
    decreases j - lo,
{
    if j <= lo || d[j - 1] != '0' {
        j
    } else {
        digits_end(d, lo, j - 1)
    }
}

/// The number `d * 10^x`, negated when `negative`, where `d` is a string of
/// digits: written with its significant digits as mantissa and without
/// trailing zeros in its fraction; or none when it is not held (more than
/// `HELD_DIGITS` significant digits, or more than `HELD_DIGITS` digits before
/// or after its point).
pub open spec fn scaled_digits(d: Seq<char>, x: int, negative: bool) -> Option<Fixed> {
    let lo = zeros_from(d, 0);
    if lo >= d.len() {
        Some(Fixed { mantissa: 0, scale: 0 })
    } else {
        let hi = digits_end(d, lo, d.len() as int);
        let k = hi - lo;
        let e = x + (d.len() - hi);
        let v = digits_value(d.subrange(lo, hi));
        if k > HELD_DIGITS || (e >= 0 && k + e > HELD_DIGITS) || (e < 0 && -e > HELD_DIGITS) {
            None
        } else {
            let m = if e >= 0 {
                v * pow10(e as nat)
            } else {
                v
            };
            Some(
                Fixed {
                    mantissa: (if negative {
                        -m
                    } else {
                        m
                    }) as i128,
                    scale: (if e >= 0 {
                        0
                    } else {
                        -e
                    }) as u32,
                },
            )
        }
    }
}

/// What a number text stands for: an optional sign; digits with at most one
/// decimal point among or around them, at least one digit in all; then
/// optionally `e` or `E` and an exponent, an optional sign and at least one
/// digit. The number must be held (see `scaled_digits`). Nothing else is a
/// number.
pub open spec fn decimal_of(s: Seq<char>) -> Option<Fixed> {
    let w = whole_digits(s);
    let f = fraction_digits(s);
    let t = exponent_text(s);
    if all_digits(w) && all_digits(f) && w.len() + f.len() >= 1 && (t matches Some(t)
        ==> exponent_ok(t)) {
        let e = match t {
            Some(t) => exponent_value(t),
            None => 0,
        };
        scaled_digits(w + f, e - f.len(), minus(s))
    } else {
        None
    }
}

pub proof fn lemma_digits_value_bound(s: Seq<char>)
    requires
        all_digits(s),
    ensures
        0 <= digits_value(s) < pow10(s.len()),
    decreases s.len(),
{
    if s.len() > 0 {
        let t = s.drop_last();
        assert(all_digits(t)) by {
            assert forall|i: int| 0 <= i < t.len() implies is_digit(#[trigger] t[i]) by {
                assert(t[i] == s[i]);
            }
        }
        lemma_digits_value_bound(t);
        assert(is_digit(s[s.len() - 1]));
    }
}

pub open spec fn clamp_exponent(e: int) -> int {
    if e > EXPONENT_CAP {
        EXPONENT_CAP as int
    } else if e < -EXPONENT_CAP {
        -EXPONENT_CAP
    } else {
        e
    }
}

proof fn lemma_zeros_from_bounds(d: Seq<char>, i: int)
    requires
        0 <= i <= d.len(),
    ensures
        i <= zeros_from(d, i) <= d.len(),
        zeros_from(d, i) < d.len() ==> d[zeros_from(d, i)] != '0',
    decreases d.len() - i,
{
    if i < d.len() && d[i] == '0' {
        lemma_zeros_from_bounds(d, i + 1);
    }
}

proof fn lemma_digits_end_bounds(d: Seq<char>, lo: int, j: int)
    requires
        0 <= lo < j <= d.len(),
        d[lo] != '0',
    ensures
        lo < digits_end(d, lo, j) <= j,
    decreases j - lo,
{
    if d[j - 1] == '0' {
        assert(j - 1 != lo);
        lemma_digits_end_bounds(d, lo, j - 1);
    }
}

/// An exponent so large either way that no number but zero is held.
proof fn lemma_far_exponent(d: Seq<char>, x: int, negative: bool)
    requires
        x > HELD_DIGITS || x + d.len() < -(HELD_DIGITS as int),
    ensures
        scaled_digits(d, x, negative) == (if zeros_from(d, 0) >= d.len() {
            Some(Fixed { mantissa: 0, scale: 0 })
        } else {
            None::<Fixed>
        }),
{
    lemma_zeros_from_bounds(d, 0);
    let lo = zeros_from(d, 0);
    if lo < d.len() {
        lemma_digits_end_bounds(d, lo, d.len() as int);
    }
}

pub proof fn lemma_pow10_36()
    ensures
        pow10(36) == 1000000000000000000000000000000000000nat,
{
    lemma_pow10_18();
    lemma_pow10_add(18, 18);
}

/// A number that is read is held: at most `HELD_DIGITS` digits after its
/// point and a mantissa of at most `HELD_DIGITS` digits.
pub proof fn lemma_decimal_bounds(s: Seq<char>)
    ensures
        decimal_of(s) matches Some(f) ==> f.scale <= HELD_DIGITS
            && -1000000000000000000000000000000000000 < f.mantissa
            < 1000000000000000000000000000000000000,
{
    if let Some(f) = decimal_of(s) {
        let d = whole_digits(s) + fraction_digits(s);
        let lo = zeros_from(d, 0);
        lemma_zeros_from_bounds(d, 0);
        lemma_pow10_36();
        if lo < d.len() {
            lemma_digits_end_bounds(d, lo, d.len() as int);
            let hi = digits_end(d, lo, d.len() as int);
            let core = d.subrange(lo, hi);
            assert(all_digits(core)) by {
                assert forall|i: int| 0 <= i < core.len() implies is_digit(#[trigger] core[i]) by {
                    assert(core[i] == d[lo + i]);
                    assert(is_digit(d[lo + i]));
                }
            }
            lemma_digits_value_bound(core);
            let k = (hi - lo) as nat;
            let e = (whole_digits(s) + fraction_digits(s)).len() - hi + match exponent_text(s) {
                Some(t) => exponent_value(t),
                None => 0,
            } - fraction_digits(s).len();
            let v = digits_value(core);
            if e >= 0 {
                lemma_pow10_add(k, e as nat);
                lemma_pow10_monotonic(k + e as nat, 36);
                lemma_pow10_positive(e as nat);
                let p = pow10(e as nat) as int;
                let q = pow10(k) as int;
                assert(0 <= v * p < q * p) by (nonlinear_arith)
                    requires
                        0 <= v < q,
                        p >= 1,
                ;
                lemma_pow10_positive(e as nat);
            } else {
                lemma_pow10_monotonic(k, 36);
            }
        }
    }
}

fn find_exp_mark(s: &Vec<char>) -> (r: usize)
    ensures
        r == exp_mark_from(s@, 0),
        r <= s@.len(),
{
    let mut i: usize = 0;
    while i < s.len() && s[i] != 'e' && s[i] != 'E'
        invariant
            i <= s@.len(),
            exp_mark_from(s@, 0) == exp_mark_from(s@, i as int),
        decreases s@.len() - i,
    {
        i += 1;
    }
    i
}

fn find_point(s: &Vec<char>) -> (r: usize)
    ensures
        r == point_from(s@, 0),
        r <= s@.len(),
{
    let mut i: usize = 0;
    while i < s.len() && s[i] != '.'
        invariant
            i <= s@.len(),
            point_from(s@, 0) == point_from(s@, i as int),
        decreases s@.len() - i,
    {
        i += 1;
    }
    i
}

/// Whether every character of `v` is a decimal digit.
fn all_digit_chars(v: &Vec<char>) -> (r: bool)
    ensures
        r == all_digits(v@),
{
    let mut i: usize = 0;
    while i < v.len()
        invariant
            i <= v@.len(),
            forall|j: int| 0 <= j < i ==> is_digit(#[trigger] v@[j]),
        decreases v@.len() - i,
    {
        if !('0' <= v[i] && v[i] <= '9') {
            return false;
        }
        i += 1;
    }
    true
}

/// `a` followed by `b`.
fn joined(a: &Vec<char>, b: &Vec<char>) -> (r: Vec<char>)
    ensures
        r@ == a@ + b@,
{
    let mut r = a.clone();
    let mut i: usize = 0;
    while i < b.len()
        invariant
            i <= b@.len(),
            r@ == a@ + b@.subrange(0, i as int),
        decreases b@.len() - i,
    {
        r.push(b[i]);
        i += 1;
        assert(r@ =~= a@ + b@.subrange(0, i as int));
    }
    assert(b@.subrange(0, i as int) =~= b@);
    r
}

/// The value of an exponent text (see `exponent_ok`), clamped to
/// `EXPONENT_CAP` either way.
fn exponent_of(t: &Vec<char>) -> (r: Option<i128>)
    ensures
        r is Some <==> exponent_ok(t@),
        r matches Some(v) ==> v == clamp_exponent(exponent_value(t@)),
{
    let n = t.len();
    let start: usize = if n > 0 && (t[0] == '-' || t[0] == '+') {
        1
    } else {
        0
    };
    let ghost u = unsigned(t@);
    assert(u == t@.subrange(start as int, n as int));
    if start >= n {
        return None;
    }
    let mut acc: i128 = 0;
    let mut i: usize = start;
    while i < n
        invariant
            start <= i <= n,
            n == t@.len(),
            u == t@.subrange(start as int, n as int),
            u == unsigned(t@),
            forall|j: int| 0 <= j < i - start ==> is_digit(#[trigger] u[j]),
            0 <= acc <= EXPONENT_CAP,
            acc == (if digits_value(u.subrange(0, i - start)) > EXPONENT_CAP {
                EXPONENT_CAP as int
            } else {
                digits_value(u.subrange(0, i - start))
            }),
            digits_value(u.subrange(0, i - start)) >= 0,
        decreases n - i,
    {
        let c = t[i];
        if !('0' <= c && c <= '9') {
            assert(!all_digits(u)) by {
                assert(u[i - start] == c);
            }
            return None;
        }
        let ghost pre = u.subrange(0, i - start);
        assert(u.subrange(0, i - start + 1).drop_last() =~= pre);
        assert(u.subrange(0, i - start + 1).last() == c);
        let d = (c as u32 - '0' as u32) as i128;
        acc = if acc >= EXPONENT_CAP {
            EXPONENT_CAP
        } else if acc * 10 + d > EXPONENT_CAP {
            EXPONENT_CAP
        } else {
            acc * 10 + d
        };
        i += 1;
    }
    assert(u.subrange(0, i - start) =~= u);
    assert(all_digits(u));
    if start == 1 && t[0] == '-' {
        Some(-acc)
    } else {
        Some(acc)
    }
}

/// The number `d * 10^x` (see `scaled_digits`).
fn from_digits(d: &Vec<char>, x: i128, negative: bool) -> (r: Option<Fixed>)
    requires
        all_digits(d@),
        -EXPONENT_CAP * 4 <= x <= EXPONENT_CAP * 4,
    ensures
        r == scaled_digits(d@, x as int, negative),
{
    let n = d.len();
    proof {
        lemma_zeros_from_bounds(d@, 0);
    }
    let mut lo: usize = 0;
    while lo < n && d[lo] == '0'
        invariant
            lo <= n == d@.len(),
            zeros_from(d@, 0) == zeros_from(d@, lo as int),
        decreases n - lo,
    {
        lo += 1;
    }
    if lo >= n {
        return Some(Fixed { mantissa: 0, scale: 0 });
    }
    proof {
        lemma_digits_end_bounds(d@, lo as int, n as int);
    }
    let mut hi: usize = n;
    while hi > lo && d[hi - 1] == '0'
        invariant
            lo < n == d@.len(),
            lo <= hi <= n,
            lo == zeros_from(d@, 0),
            digits_end(d@, lo as int, n as int) == digits_end(d@, lo as int, hi as int),
        decreases hi - lo,
    {
        hi -= 1;
    }
    let k: usize = hi - lo;
    let e: i128 = x + (n - hi) as i128;
    if k > HELD_DIGITS as usize || (e >= 0 && k as i128 + e > HELD_DIGITS as i128) || (e < 0 && -e
        > HELD_DIGITS as i128) {
        return None;
    }
    let ghost core = d@.subrange(lo as int, hi as int);
    let mut v: i128 = 0;
    let mut i: usize = lo;
    while i < hi
        invariant
            lo <= i <= hi <= n == d@.len(),
            hi - lo <= HELD_DIGITS,
            all_digits(d@),
            core == d@.subrange(lo as int, hi as int),
            v == digits_value(core.subrange(0, i - lo)),
        decreases hi - i,
    {
        proof {
            let pre = core.subrange(0, i - lo);
            assert(all_digits(pre)) by {
                assert forall|j: int| 0 <= j < pre.len() implies is_digit(#[trigger] pre[j]) by {
                    assert(pre[j] == d@[lo + j]);
                }
            }
            lemma_digits_value_bound(pre);
            lemma_pow10_monotonic((i - lo) as nat, 35);
            lemma_pow10_36();
            assert(pow10(36) == 10 * pow10(35));
            assert(core.subrange(0, i - lo + 1).drop_last() =~= pre);
            assert(core.subrange(0, i - lo + 1).last() == d@[i as int]);
            assert(is_digit(d@[i as int]));
        }
        v = v * 10 + (d[i] as u32 - '0' as u32) as i128;
        i += 1;
    }
    assert(core.subrange(0, i - lo) =~= core);
    proof {
        assert(all_digits(core)) by {
            assert forall|j: int| 0 <= j < core.len() implies is_digit(#[trigger] core[j]) by {
                assert(core[j] == d@[lo + j]);
            }
        }
        lemma_digits_value_bound(core);
        lemma_pow10_36();
    }
    let m: i128 = if e >= 0 {
        let p = pow10_exec(e as u32);
        proof {
            lemma_pow10_add(k as nat, e as nat);
            lemma_pow10_monotonic((k + e) as nat, 36);
            lemma_pow10_positive(e as nat);
            lemma_pow10_positive(k as nat);
            lemma_pow10_monotonic(e as nat, 36);
            let pp = p as int;
            let q = pow10(k as nat) as int;
            assert(0 <= v * pp < q * pp) by (nonlinear_arith)
                requires
                    0 <= v < q,
                    pp >= 1,
            ;
            lemma_pow10_positive(e as nat);
        }
        v * (p as i128)
    } else {
        proof {
            lemma_pow10_monotonic(k as nat, 36);
        }
        v
    };
    let mantissa: i128 = if negative {
        -m
    } else {
        m
    };
    let scale: u32 = if e >= 0 {
        0
    } else {
        (-e) as u32
    };
    Some(Fixed { mantissa, scale })
}

/// Reads a number (see `decimal_of`).
pub fn parse_decimal(s: &Vec<char>) -> (r: Option<Fixed>)
    ensures
        r == decimal_of(s@),
{
    let n = s.len();
    let start: usize = if n > 0 && (s[0] == '-' || s[0] == '+') {
        1
    } else {
        0
    };
    let body = crate::chars::slice_of(s, start, n);
    assert(body@ == unsigned(s@));
    let q = find_exp_mark(&body);
    let mant = crate::chars::slice_of(&body, 0, q);
    let p = find_point(&mant);
    let whole = crate::chars::slice_of(&mant, 0, p);
    let frac = if p < mant.len() {
        crate::chars::slice_of(&mant, p + 1, mant.len())
    } else {
        Vec::new()
    };
    assert(whole@ == whole_digits(s@));
    assert(frac@ =~= fraction_digits(s@));
    if !all_digit_chars(&whole) || !all_digit_chars(&frac) || whole.len() + frac.len() < 1 {
        return None;
    }
    let e: i128 = if q < body.len() {
        let t = crate::chars::slice_of(&body, q + 1, body.len());
        assert(exponent_text(s@) == Some(t@));
        match exponent_of(&t) {
            Some(v) => v,
            None => {
                return None;
            },
        }
    } else {
        0
    };
    let digits = joined(&whole, &frac);
    assert(all_digits(digits@)) by {
        assert forall|j: int| 0 <= j < digits@.len() implies is_digit(#[trigger] digits@[j]) by {
            if j < whole@.len() {
                assert(digits@[j] == whole@[j]);
            } else {
                assert(digits@[j] == frac@[j - whole@.len()]);
            }
        }
    }
    let x: i128 = e - frac.len() as i128;
    let negative = start == 1 && s[0] == '-';
    proof {
        let ghost t = exponent_text(s@);
        let true_e = match t {
            Some(t) => exponent_value(t),
            None => 0,
        };
        assert(e == clamp_exponent(true_e));
        let true_x = true_e - frac@.len();
        if true_e > EXPONENT_CAP || true_e < -EXPONENT_CAP {
            lemma_far_exponent(digits@, true_x, negative);
            lemma_far_exponent(digits@, x as int, negative);
        }
    }
    from_digits(&digits, x, negative)
}

} // verus!
