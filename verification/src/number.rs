//! Numbers as the script language writes them: whole numbers, and floats
//! that are read exactly, as a count of a decimal fraction of the unit.

use vstd::prelude::*;
use crate::text::chars_of;

verus! {

/// One more than the largest 64-bit magnitude: where reading stops counting.
pub const CEILING: u128 = 0x1_0000_0000_0000_0000;

/// Whether `c` is one of the digits `0` to `9`.
pub open spec fn is_digit(c: char) -> bool {
    0x30 <= c as u32 <= 0x39
}

/// The value of the digit `c`.
pub open spec fn digit_value(c: char) -> nat {
    (c as u32 - 0x30) as nat
}

/// Whether `s` holds digits only.
pub open spec fn all_digits(s: Seq<char>) -> bool {
    forall|i: int| 0 <= i < s.len() ==> is_digit(#[trigger] s[i])
}

/// The number that the digits `s` write in base ten; 0 for no digits.
pub open spec fn decimal_value(s: Seq<char>) -> nat
    decreases s.len(),
{
    if s.len() == 0 {
        0
    } else {
        decimal_value(s.drop_last()) * 10 + digit_value(s.last())
    }
}

/// How many characters of `s` are a leading `+`.
pub open spec fn plus_len(s: Seq<char>) -> int {
    if s.len() > 0 && s[0] == '+' {
        1
    } else {
        0
    }
}

/// How many characters of `s` are a leading sign, `+` or `-`.
pub open spec fn sign_len(s: Seq<char>) -> int {
    if s.len() > 0 && (s[0] == '+' || s[0] == '-') {
        1
    } else {
        0
    }
}

/// Whether `s` begins with `-`.
pub open spec fn is_negative(s: Seq<char>) -> bool {
    s.len() > 0 && s[0] == '-'
}

/// The natural number that `s` writes: an optional `+` and at least one
/// digit, nothing else.
pub open spec fn unsigned_text(s: Seq<char>) -> Option<nat> {
    let d = s.subrange(plus_len(s), s.len() as int);
    if d.len() > 0 && all_digits(d) {
        Some(decimal_value(d))
    } else {
        None
    }
}

/// The integer that `s` writes: an optional sign and at least one digit,
/// nothing else.
pub open spec fn signed_text(s: Seq<char>) -> Option<int> {
    let d = s.subrange(sign_len(s), s.len() as int);
    if d.len() > 0 && all_digits(d) {
        if is_negative(s) {
            Some(-(decimal_value(d) as int))
        } else {
            Some(decimal_value(d) as int)
        }
    } else {
        None
    }
}

/// What `parse_usize` returns for the text `s`.
pub open spec fn usize_text(s: Seq<char>) -> Option<usize> {
    match unsigned_text(s) {
        Some(n) => if n <= usize::MAX {
            Some(n as usize)
        } else {
            None
        },
        None => None,
    }
}

/// What `parse_i32` returns for the text `s`.
pub open spec fn i32_text(s: Seq<char>) -> Option<i32> {
    match signed_text(s) {
        Some(n) => if i32::MIN <= n <= i32::MAX {
            Some(n as i32)
        } else {
            None
        },
        None => None,
    }
}

/// What `parse_i64` returns for the text `s`.
pub open spec fn i64_text(s: Seq<char>) -> Option<i64> {
    match signed_text(s) {
        Some(n) => if i64::MIN <= n <= i64::MAX {
            Some(n as i64)
        } else {
            None
        },
        None => None,
    }
}

/// The index of the first `.` in `s` at or after `i`, or the length of `s`.
pub open spec fn dot_position(s: Seq<char>, i: int) -> int
    decreases s.len() - i,
{
    if 0 <= i < s.len() && s[i] != '.' {
        dot_position(s, i + 1)
    } else {
        i
    }
}

/// The digits of the decimal `s` before its point.
pub open spec fn whole_digits(s: Seq<char>) -> Seq<char> {
    s.subrange(sign_len(s), dot_position(s, sign_len(s)))
}

/// The digits of the decimal `s` after its point; none without a point.
pub open spec fn fraction_digits(s: Seq<char>) -> Seq<char> {
    let k = dot_position(s, sign_len(s));
    if k < s.len() {
        s.subrange(k + 1, s.len() as int)
    } else {
        Seq::empty()
    }
}

/// Whether `s` writes a decimal: an optional sign, digits, and at most one
/// point among them or at either end, with a digit on at least one side.
pub open spec fn is_decimal(s: Seq<char>) -> bool {
    &&& all_digits(whole_digits(s))
    &&& all_digits(fraction_digits(s))
    &&& whole_digits(s).len() + fraction_digits(s).len() > 0
}

/// The first `places` digits of `f`, with zeros where `f` is shorter.
pub open spec fn padded(f: Seq<char>, places: nat) -> Seq<char> {
    Seq::new(
        places,
        |i: int|
            if i < f.len() {
                f[i]
            } else {
                '0'
            },
    )
}

/// The number that the first `n` digits of `d` write, with zeros where `d`
/// is shorter; 0 where `n` is not positive.
pub open spec fn shifted_value(d: Seq<char>, n: int) -> nat {
    if n <= 0 {
        0
    } else {
        decimal_value(padded(d, n as nat))
    }
}

/// `v`, or `limit` if `v` is larger.
pub open spec fn limited(v: nat, limit: nat) -> nat {
    if v < limit {
        v
    } else {
        limit
    }
}

/// Whether `c` is the small letter `letter` or its capital.
pub open spec fn is_letter(c: char, letter: char) -> bool {
    c == letter || (0x41 <= c as u32 <= 0x5a && c as u32 + 32 == letter as u32)
}

/// Whether `s` is `word`, which is in small letters, in small or capital
/// letters.
pub open spec fn is_word_of(s: Seq<char>, word: Seq<char>) -> bool {
    s.len() == word.len() && forall|i: int| 0 <= i < s.len() ==> is_letter(s[i], #[trigger] word[i])
}

/// The index of the first `e` or `E` in `s` at or after `i`, or the length
/// of `s`.
pub open spec fn exponent_position(s: Seq<char>, i: int) -> int
    decreases s.len() - i,
{
    if 0 <= i < s.len() && s[i] != 'e' && s[i] != 'E' {
        exponent_position(s, i + 1)
    } else {
        i
    }
}

/// Whether `s` writes a floating-point number: after an optional sign,
/// `inf`, `infinity` or `nan` in any case; or a decimal, and after it
/// optionally `e` or `E` and an integer.
pub open spec fn is_float(s: Seq<char>) -> bool {
    let body = s.subrange(sign_len(s), s.len() as int);
    let e = exponent_position(s, 0);
    ||| is_word_of(body, "inf"@)
    ||| is_word_of(body, "infinity"@)
    ||| is_word_of(body, "nan"@)
    ||| (is_decimal(s.subrange(0, e)) && (e == s.len() || signed_text(
        s.subrange(e + 1, s.len() as int),
    ) is Some))
}

/// A limit for reading an exponent: past it, every exponent does the same.
pub const FAR: u128 = 0x0100_0000_0000_0000_0000_0000_0000_0000;

/// The part of the float `s` before its exponent.
pub open spec fn mantissa(s: Seq<char>) -> Seq<char> {
    s.subrange(0, exponent_position(s, 0))
}

/// The exponent of the float `s`: the integer after its `e`, 0 without one.
pub open spec fn exponent_value(s: Seq<char>) -> int {
    let e = exponent_position(s, 0);
    if e < s.len() {
        match signed_text(s.subrange(e + 1, s.len() as int)) {
            Some(x) => x,
            None => 0,
        }
    } else {
        0
    }
}

/// Whether `s` writes an infinity: after an optional sign, `inf` or
/// `infinity` in any case.
pub open spec fn is_infinity(s: Seq<char>) -> bool {
    let body = s.subrange(sign_len(s), s.len() as int);
    is_word_of(body, "inf"@) || is_word_of(body, "infinity"@)
}

/// Whether `s` writes no number: after an optional sign, `nan` in any case.
pub open spec fn is_nan(s: Seq<char>) -> bool {
    is_word_of(s.subrange(sign_len(s), s.len() as int), "nan"@)
}

/// The magnitude of the float `s` counted in units of ten to the power of
/// minus `places`, exactly, with what is smaller than one unit cut off: the
/// digits of the mantissa, read up to `places` places after where the
/// exponent puts the point. An infinity is larger than every count, and
/// what is no number counts as 0.
pub open spec fn scaled_magnitude(s: Seq<char>, places: nat) -> nat {
    if is_infinity(s) {
        CEILING as nat
    } else if is_nan(s) {
        0
    } else {
        shifted_value(
            whole_digits(mantissa(s)) + fraction_digits(mantissa(s)),
            whole_digits(mantissa(s)).len() + exponent_value(s) + places,
        )
    }
}

/// A float read at a fixed number of places: its sign, and its magnitude in
/// units of the last place, held at `u64::MAX` when it is larger.
#[derive(Clone, Copy, Debug, PartialEq, Eq, Structural)]
pub struct Scaled {
    pub negative: bool,
    pub magnitude: u64,
}

/// What `parse_scaled` returns for the text `s`.
pub open spec fn scaled_text(s: Seq<char>, places: nat) -> Option<Scaled> {
    if is_float(s) {
        Some(
            (Scaled {
                negative: is_negative(s),
                magnitude: if scaled_magnitude(s, places) <= u64::MAX {
                    scaled_magnitude(s, places) as u64
                } else {
                    u64::MAX
                },
            }),
        )
    } else {
        None
    }
}

impl Scaled {
    /// The value as an unsigned count: 0 for every negative value.
    pub open spec fn unsigned_value(self) -> u64 {
        if self.negative {
            0
        } else {
            self.magnitude
        }
    }

    /// The value as a signed count, held at the ends of the range of `i64`.
    pub open spec fn signed_value(self) -> i64 {
        if self.negative {
            if self.magnitude >= 0x8000_0000_0000_0000 {
                i64::MIN
            } else {
                (-(self.magnitude as int)) as i64
            }
        } else {
            if self.magnitude > i64::MAX {
                i64::MAX
            } else {
                self.magnitude as i64
            }
        }
    }

    /// The value as an unsigned count: 0 for every negative value.
    pub fn unsigned(&self) -> (v: u64)
        ensures
            v == self.unsigned_value(),
    {
        if self.negative {
            0
        } else {
            self.magnitude
        }
    }

    /// The value as a signed count, held at the ends of the range of `i64`.
    pub fn signed(&self) -> (v: i64)
        ensures
            v == self.signed_value(),
    {
        if self.negative {
            if self.magnitude >= 0x8000_0000_0000_0000 {
                i64::MIN
            } else {
                let m: i64 = self.magnitude as i64;
                -m
            }
        } else {
            if self.magnitude > 0x7fff_ffff_ffff_ffff {
                i64::MAX
            } else {
                self.magnitude as i64
            }
        }
    }
}

/// One more digit multiplies the value by ten and adds the digit.
pub proof fn lemma_decimal_value_push(s: Seq<char>, c: char)
    ensures
        decimal_value(s.push(c)) == decimal_value(s) * 10 + digit_value(c),
{
    assert(s.push(c).drop_last() =~= s);
}

/// Whether `c` is one of the digits `0` to `9`.
pub fn is_digit_char(c: char) -> (b: bool)
    ensures
        b == is_digit(c),
{
    let n: u32 = c as u32;
    0x30 <= n && n <= 0x39
}

/// One more digit position: the value times ten, plus the digit there.
pub proof fn lemma_shifted_step(d: Seq<char>, n: int)
    requires
        0 <= n,
    ensures
        shifted_value(d, n + 1) == shifted_value(d, n) * 10 + digit_value(
            if n < d.len() {
                d[n]
            } else {
                '0'
            },
        ),
{
    let c = if n < d.len() {
        d[n]
    } else {
        '0'
    };
    assert(padded(d, (n + 1) as nat) =~= padded(d, n as nat).push(c));
    lemma_decimal_value_push(padded(d, n as nat), c);
    if n == 0 {
        assert(padded(d, 0) =~= Seq::<char>::empty());
    }
}

/// More digit positions never give less.
pub proof fn lemma_shifted_grows(d: Seq<char>, j: int, m: int)
    requires
        0 <= j <= m,
    ensures
        shifted_value(d, j) <= shifted_value(d, m),
        shifted_value(d, j) >= 1 ==> shifted_value(d, m) >= shifted_value(d, j) + (m - j),
    decreases m - j,
{
    if j < m {
        lemma_shifted_grows(d, j, m - 1);
        lemma_shifted_step(d, m - 1);
    }
}

/// Zeros after nothing but zeros give zero.
pub proof fn lemma_shifted_stays_zero(d: Seq<char>, j: int, m: int)
    requires
        d.len() <= j <= m,
        shifted_value(d, j) == 0,
    ensures
        shifted_value(d, m) == 0,
    decreases m - j,
{
    if j < m {
        lemma_shifted_stays_zero(d, j, m - 1);
        lemma_shifted_step(d, m - 1);
    }
}

/// The value of `cs[from..to]` read as digits, counted up to `limit`;
/// `None` where a character there is no digit.
fn digits_value(cs: &Vec<char>, from: usize, to: usize, limit: u128) -> (r: Option<u128>)
    requires
        from <= to <= cs.len(),
        limit <= FAR,
    ensures
        r is Some <==> all_digits(cs@.subrange(from as int, to as int)),
        r matches Some(v) ==> v == limited(
            decimal_value(cs@.subrange(from as int, to as int)),
            limit as nat,
        ),
{
    let mut acc: u128 = 0;
    let mut i: usize = from;
    while i < to
        invariant
            from <= i <= to <= cs.len(),
            limit <= FAR,
            all_digits(cs@.subrange(from as int, i as int)),
            acc == limited(decimal_value(cs@.subrange(from as int, i as int)), limit as nat),
        decreases to - i,
    {
        let c = cs[i];
        if !is_digit_char(c) {
            assert(cs@.subrange(from as int, to as int)[i - from] == c);
            return None;
        }
        proof {
            assert(cs@.subrange(from as int, i + 1) =~= cs@.subrange(from as int, i as int).push(
                c,
            ));
            lemma_decimal_value_push(cs@.subrange(from as int, i as int), c);
        }
        let d: u128 = (c as u32 - 0x30) as u128;
        let t: u128 = acc * 10 + d;
        acc = if t < limit {
            t
        } else {
            limit
        };
        i += 1;
    }
    Some(acc)
}

/// Whether `cs[from..]` is `word` in small or capital letters.
fn spells(cs: &Vec<char>, from: usize, word: &str) -> (b: bool)
    requires
        from <= cs.len(),
    ensures
        b == is_word_of(cs@.subrange(from as int, cs.len() as int), word@),
{
    let w = chars_of(word);
    if cs.len() - from != w.len() {
        return false;
    }
    let ghost body = cs@.subrange(from as int, cs.len() as int);
    let mut i: usize = 0;
    while i < w.len()
        invariant
            i <= w.len(),
            w@ == word@,
            from + w.len() == cs.len(),
            body == cs@.subrange(from as int, cs.len() as int),
            forall|k: int| 0 <= k < i ==> is_letter(body[k], #[trigger] w@[k]),
        decreases w.len() - i,
    {
        let c = cs[from + i];
        let l = w[i];
        assert(body[i as int] == c);
        let c32: u32 = c as u32;
        let l32: u32 = l as u32;
        if !(c == l || (0x41 <= c32 && c32 <= 0x5a && c32 + 32 == l32)) {
            return false;
        }
        i += 1;
    }
    true
}

/// Whether `s` writes a floating-point number.
pub fn is_float_text(s: &str) -> (b: bool)
    ensures
        b == is_float(s@),
{
    parse_scaled(s, 0).is_some()
}

/// The natural number that `s` writes, if it writes one that fits `usize`.
pub fn parse_usize(s: &str) -> (r: Option<usize>)
    ensures
        r == usize_text(s@),
{
    let cs = chars_of(s);
    let start: usize = if cs.len() > 0 && cs[0] == '+' {
        1
    } else {
        0
    };
    if start >= cs.len() {
        return None;
    }
    match digits_value(&cs, start, cs.len(), CEILING) {
        None => None,
        Some(v) => {
            if v > usize::MAX as u128 {
                None
            } else {
                Some(v as usize)
            }
        },
    }
}

/// The integer that `s` writes, if it writes one that fits `i32`.
pub fn parse_i32(s: &str) -> (r: Option<i32>)
    ensures
        r == i32_text(s@),
{
    let cs = chars_of(s);
    let negative = cs.len() > 0 && cs[0] == '-';
    let start: usize = if cs.len() > 0 && (cs[0] == '+' || cs[0] == '-') {
        1
    } else {
        0
    };
    if start >= cs.len() {
        return None;
    }
    match digits_value(&cs, start, cs.len(), CEILING) {
        None => None,
        Some(v) => {
            if negative {
                if v > 0x8000_0000 {
                    None
                } else {
                    let m: i64 = v as i64;
                    Some((-m) as i32)
                }
            } else {
                if v > 0x7fff_ffff {
                    None
                } else {
                    Some(v as i32)
                }
            }
        },
    }
}

/// The integer that `s` writes, if it writes one that fits `i64`.
pub fn parse_i64(s: &str) -> (r: Option<i64>)
    ensures
        r == i64_text(s@),
{
    let cs = chars_of(s);
    let negative = cs.len() > 0 && cs[0] == '-';
    let start: usize = if cs.len() > 0 && (cs[0] == '+' || cs[0] == '-') {
        1
    } else {
        0
    };
    if start >= cs.len() {
        return None;
    }
    match digits_value(&cs, start, cs.len(), CEILING) {
        None => None,
        Some(v) => {
            if negative {
                if v > 0x8000_0000_0000_0000 {
                    None
                } else if v == 0x8000_0000_0000_0000 {
                    Some(i64::MIN)
                } else {
                    let m: i64 = v as i64;
                    Some(-m)
                }
            } else {
                if v > 0x7fff_ffff_ffff_ffff {
                    None
                } else {
                    Some(v as i64)
                }
            }
        },
    }
}

/// The digits of the decimal `m`, without its sign and point, and how many
/// of them stand before the point; `None` where `m` writes no decimal.
fn mantissa_digits(m: &Vec<char>) -> (r: Option<(Vec<char>, usize)>)
    ensures
        r is Some <==> is_decimal(m@),
        r matches Some((digits, before)) ==> digits@ == whole_digits(m@) + fraction_digits(m@)
            && before == whole_digits(m@).len() && all_digits(digits@),
{
    let ml = m.len();
    let mstart: usize = if ml > 0 && (m[0] == '+' || m[0] == '-') {
        1
    } else {
        0
    };
    let mut k: usize = mstart;
    while k < ml && m[k] != '.'
        invariant
            ml == m.len(),
            mstart <= k <= ml,
            dot_position(m@, k as int) == dot_position(m@, mstart as int),
        decreases ml - k,
    {
        k += 1;
    }
    let fstart: usize = if k < ml {
        k + 1
    } else {
        ml
    };
    let ghost whole = m@.subrange(mstart as int, k as int);
    let ghost fraction = m@.subrange(fstart as int, ml as int);
    proof {
        assert(whole == whole_digits(m@));
        assert(fraction =~= fraction_digits(m@));
    }
    if (k - mstart) + (ml - fstart) == 0 {
        return None;
    }
    if digits_value(m, mstart, k, CEILING).is_none() || digits_value(m, fstart, ml, CEILING).is_none() {
        return None;
    }
    let mut digits: Vec<char> = Vec::new();
    let mut i: usize = mstart;
    while i < k
        invariant
            mstart <= i <= k <= ml,
            ml == m.len(),
            digits@ == m@.subrange(mstart as int, i as int),
        decreases k - i,
    {
        digits.push(m[i]);
        i += 1;
    }
    let mut i: usize = fstart;
    while i < ml
        invariant
            fstart <= i <= ml,
            ml == m.len(),
            whole == m@.subrange(mstart as int, k as int),
            digits@ == whole + m@.subrange(fstart as int, i as int),
        decreases ml - i,
    {
        proof {
            assert(whole + m@.subrange(fstart as int, i + 1) =~= (whole + m@.subrange(
                fstart as int,
                i as int,
            )).push(m@[i as int]));
        }
        digits.push(m[i]);
        i += 1;
    }
    proof {
        let d = digits@;
        assert forall|x: int| 0 <= x < d.len() implies is_digit(#[trigger] d[x]) by {
            if x < whole.len() {
                assert(d[x] == whole[x]);
            } else {
                assert(d[x] == fraction[x - whole.len()]);
            }
        }
    }
    Some((digits, k - mstart))
}

/// The integer that `x` writes, as its direction and its size counted up
/// to `FAR`; `None` where `x` writes no integer.
fn exponent_of(x: &Vec<char>) -> (r: Option<(bool, u128)>)
    ensures
        r is Some <==> signed_text(x@) is Some,
        r matches Some((down, size)) ==> (down ==> signed_text(x@)->0 <= 0) && (!down
            ==> signed_text(x@)->0 >= 0) && size == limited(
            if down {
                (-signed_text(x@)->0) as nat
            } else {
                signed_text(x@)->0 as nat
            },
            FAR as nat,
        ),
{
    let xstart: usize = if x.len() > 0 && (x[0] == '+' || x[0] == '-') {
        1
    } else {
        0
    };
    if xstart >= x.len() {
        return None;
    }
    match digits_value(x, xstart, x.len(), FAR) {
        None => None,
        Some(v) => Some((x[0] == '-', v)),
    }
}

/// The number that the digits write once the point is moved: by `reach`
/// places to the right, and by the exponent, of the size `size` counted up
/// to `FAR`, to the left if `down` and to the right if not. Counted up to
/// `CEILING`.
fn shift_digits(digits: &Vec<char>, reach: u128, down: bool, size: u128, Ghost(exponent): Ghost<nat>) -> (acc:
    u128)
    requires
        all_digits(digits@),
        reach < 0x2_0000_0000_0000_0000,
        size == limited(exponent, FAR as nat),
    ensures
        acc == limited(
            shifted_value(
                digits@,
                if down {
                    reach - exponent
                } else {
                    reach + exponent
                },
            ),
            CEILING as nat,
        ),
{
    let ghost d = digits@;
    let ghost goal: int = if down {
        reach - exponent
    } else {
        reach + exponent
    };
    let far = size >= FAR;
    if down && (far || size >= reach) {
        return 0;
    }
    let target: u128 = if far {
        FAR
    } else if down {
        reach - size
    } else {
        reach + size
    };
    let len = digits.len();
    let first: usize = if target < len as u128 {
        target as usize
    } else {
        len
    };
    let mut acc: u128 = 0;
    let mut j: usize = 0;
    while j < first
        invariant
            j <= first <= len,
            len == digits.len(),
            d == digits@,
            all_digits(d),
            acc == limited(shifted_value(d, j as int), CEILING as nat),
        decreases first - j,
    {
        let c = digits[j];
        proof {
            lemma_shifted_step(d, j as int);
            assert(is_digit(d[j as int]));
        }
        let t: u128 = acc * 10 + (c as u32 - 0x30) as u128;
        acc = if t < CEILING {
            t
        } else {
            CEILING
        };
        j += 1;
    }
    if far {
        proof {
            lemma_shifted_grows(d, len as int, goal);
            if acc == 0 {
                lemma_shifted_stays_zero(d, len as int, goal);
            }
        }
        if acc != 0 {
            acc = CEILING;
        }
    } else {
        let mut left: u128 = target - first as u128;
        let ghost mut at: int = first as int;
        while left > 0 && acc != 0 && acc < CEILING
            invariant
                at + left == target,
                first <= at,
                left > 0 ==> first == len,
                len == d.len(),
                acc == limited(shifted_value(d, at), CEILING as nat),
            decreases left,
        {
            proof {
                lemma_shifted_step(d, at);
                at = at + 1;
            }
            let t: u128 = acc * 10;
            acc = if t < CEILING {
                t
            } else {
                CEILING
            };
            left -= 1;
        }
        proof {
            assert(target == goal);
            lemma_shifted_grows(d, at, goal);
            if left > 0 && acc == 0 {
                lemma_shifted_stays_zero(d, at, goal);
            }
        }
    }
    acc
}

/// The float that `s` writes, read exactly at `places` places after the
/// point.
pub fn parse_scaled(s: &str, places: usize) -> (r: Option<Scaled>)
    ensures
        r == scaled_text(s@, places as nat),
{
    let cs = chars_of(s);
    let n = cs.len();
    let negative = n > 0 && cs[0] == '-';
    let start: usize = if n > 0 && (cs[0] == '+' || cs[0] == '-') {
        1
    } else {
        0
    };
    if spells(&cs, start, "inf") || spells(&cs, start, "infinity") {
        return Some(Scaled { negative, magnitude: 0xffff_ffff_ffff_ffff });
    }
    if spells(&cs, start, "nan") {
        return Some(Scaled { negative, magnitude: 0 });
    }
    let mut e: usize = 0;
    while e < n && cs[e] != 'e' && cs[e] != 'E'
        invariant
            n == cs.len(),
            e <= n,
            exponent_position(cs@, e as int) == exponent_position(cs@, 0),
        decreases n - e,
    {
        e += 1;
    }
    let m = chars_of(s.substring_char(0, e));
    assert(m@ == mantissa(s@));
    let (digits, before) = match mantissa_digits(&m) {
        Some(parts) => parts,
        None => {
            return None;
        },
    };
    let (down, size) = if e < n {
        let x = chars_of(s.substring_char(e + 1, n));
        match exponent_of(&x) {
            Some(found) => found,
            None => {
                return None;
            },
        }
    } else {
        (false, 0)
    };
    let ghost exponent: nat = if down {
        (-exponent_value(s@)) as nat
    } else {
        exponent_value(s@) as nat
    };
    let acc = shift_digits(&digits, before as u128 + places as u128, down, size, Ghost(exponent));
    let magnitude: u64 = if acc > 0xffff_ffff_ffff_ffff {
        0xffff_ffff_ffff_ffff
    } else {
        acc as u64
    };
    Some(Scaled { negative, magnitude })
}

} // verus!
