//! Numbers as the database files write them.
//!
//! The files give real numbers in decimal notation, in the grammar that `str::parse`
//! takes for floating-point numbers. The library keeps such a number as an integer
//! and a power of ten: exactly where the digits fit a `u64`, else rounded to nineteen
//! significant digits. The floating-point value that the rest of the engine works
//! with is made from it outside the library.
use vstd::prelude::*;
use crate::text::{chars_of, slice_of, string_of, eq_ignore_ascii_case, same_ascii_case_blind};

verus! {

/// Whether a number is finite, an infinity or not a number.
#[derive(Clone, Copy, Debug, PartialEq, Eq, Structural)]
pub enum NumberForm {
    Finite,
    Infinite,
    NotANumber,
}

/// A finite number is `(-1)^negative * digits * 10^exponent`; an infinite one is of
/// the sign `negative` gives. Neither an infinity nor a number that is not one has
/// digits or an exponent (both zero).
#[derive(Clone, Copy, Debug, PartialEq, Eq, Structural)]
pub struct Decimal {
    pub negative: bool,
    pub digits: u64,
    pub exponent: i32,
    pub form: NumberForm,
}

impl Decimal {
    /// The binary64 value that the number reads as is above zero: an infinity of
    /// positive sign, or a finite number with digits that is not so small that it
    /// reads as zero (see `underflows_binary64`).
    pub open spec fn spec_is_positive(self) -> bool {
        &&& !self.negative
        &&& (self.form == NumberForm::Infinite || (self.form == NumberForm::Finite && self.digits > 0
            && !underflows_binary64(self.digits as nat, self.exponent as int)))
    }

    /// The binary64 value that the number reads as is zero (of either sign).
    pub open spec fn spec_is_zero(self) -> bool {
        self.form == NumberForm::Finite && (self.digits == 0 || underflows_binary64(self.digits as nat, self.exponent as int))
    }

    pub fn is_positive(&self) -> (r: bool)
        ensures
            r == self.spec_is_positive(),
    {
        !self.negative && (match self.form {
            NumberForm::Infinite => true,
            NumberForm::Finite => self.digits > 0 && !binary64_underflows(self.digits, self.exponent),
            NumberForm::NotANumber => false,
        })
    }

    pub fn is_zero(&self) -> (r: bool)
        ensures
            r == self.spec_is_zero(),
    {
        match self.form {
            NumberForm::Finite => self.digits == 0 || binary64_underflows(self.digits, self.exponent),
            _ => false,
        }
    }
}

pub open spec fn is_digit(c: char) -> bool {
    '0' <= c && c <= '9'
}

pub open spec fn all_digits(s: Seq<char>) -> bool {
    forall|i: int| 0 <= i < s.len() ==> is_digit(#[trigger] s[i])
}

/// The number that a run of decimal digits denotes.
pub open spec fn digits_value(s: Seq<char>) -> nat
    decreases s.len(),
{
    if s.len() == 0 {
        0
    } else {
        digits_value(s.drop_last()) * 10 + ((s.last() as nat) - ('0' as nat)) as nat
    }
}

/// Index of the first `a` or `b` in `s`, or `s.len()` when there is none.
pub open spec fn index_of_either(s: Seq<char>, a: char, b: char) -> nat
    decreases s.len(),
{
    if s.len() == 0 {
        0
    } else if s[0] == a || s[0] == b {
        0
    } else {
        1 + index_of_either(s.drop_first(), a, b)
    }
}

/// Length of an optional leading `+` or `-`.
pub open spec fn sign_len(s: Seq<char>) -> int {
    if s.len() > 0 && (s[0] == '+' || s[0] == '-') {
        1
    } else {
        0
    }
}

/// How many `'0'` the text begins with.
pub open spec fn zeros_prefix(s: Seq<char>) -> nat
    decreases s.len(),
{
    if s.len() > 0 && s[0] == '0' {
        1 + zeros_prefix(s.drop_first())
    } else {
        0
    }
}

/// The digits from the first that is not `'0'` on.
pub open spec fn significant(s: Seq<char>) -> Seq<char> {
    s.skip(zeros_prefix(s) as int)
}

/// Whether nineteen significant digits round up, to the nearest and to an even last
/// digit where the digits dropped are exactly half a unit of the last kept.
pub open spec fn rounds_up(sig: Seq<char>) -> bool {
    ||| sig[19] > '5'
    ||| sig[19] == '5' && ((exists|j: int| 20 <= j < sig.len() && #[trigger] sig[j] != '0')
        || digits_value(sig.take(19)) % 2 == 1)
}

/// The first nineteen significant digits, rounded.
pub open spec fn rounded_digits(sig: Seq<char>) -> nat {
    digits_value(sig.take(19)) + if rounds_up(sig) { 1nat } else { 0nat }
}

/// An exponent kept within `i32`: beyond it, a number that is not zero is far out of
/// the range of every floating-point type either way.
pub open spec fn clamp_i32(x: int) -> i32 {
    if x < i32::MIN {
        i32::MIN
    } else if x > i32::MAX {
        i32::MAX
    } else {
        x as i32
    }
}

/// The finite number that the text after the sign writes: digits with an optional
/// decimal point (at least one digit in all), and an optional exponent (`e` or `E`, an
/// optional sign, at least one digit). The digits are kept exactly where they fit a
/// `u64`, else rounded to nineteen significant digits (see `rounds_up`); the exponent
/// is kept within `i32` (see `clamp_i32`). `None` for any other text.
#[verifier::opaque]
pub open spec fn finite_of(negative: bool, body: Seq<char>) -> Option<Decimal> {
    let e = index_of_either(body, 'e', 'E') as int;
    let mant = body.take(e);
    let d = index_of_either(mant, '.', '.') as int;
    let int_part = mant.take(d);
    let frac = if d < mant.len() { mant.skip(d + 1) } else { Seq::<char>::empty() };
    let exp_text = if e < body.len() { body.skip(e + 1) } else { Seq::<char>::empty() };
    let exp_digits = exp_text.skip(sign_len(exp_text));
    let exp_negative = exp_text.len() > 0 && exp_text[0] == '-';
    let sig = significant(int_part + frac);
    let exact = digits_value(sig) <= u64::MAX;
    let digits: nat = if exact { digits_value(sig) } else { rounded_digits(sig) };
    let dropped: int = if exact { 0 } else { sig.len() - 19 };
    let ev = digits_value(exp_digits);
    let exponent: int = (if exp_negative { -ev } else { ev as int }) - frac.len() + dropped;
    if all_digits(int_part) && all_digits(frac) && int_part.len() + frac.len() > 0 && (e
        == body.len() || (exp_digits.len() > 0 && all_digits(exp_digits))) {
        Some(Decimal { negative, digits: digits as u64, exponent: clamp_i32(exponent), form: NumberForm::Finite })
    } else {
        None
    }
}

/// The number that `s` writes, in the grammar of `str::parse` for floating-point
/// numbers: an optional sign, then `inf`, `infinity` or `nan` in any ASCII case, or a
/// finite number (see `finite_of`). `None` for any other text.
pub open spec fn decimal_of(s: Seq<char>) -> Option<Decimal> {
    let negative = s.len() > 0 && s[0] == '-';
    let body = s.skip(sign_len(s));
    if same_ascii_case_blind(body, "inf"@) || same_ascii_case_blind(body, "infinity"@) {
        Some(Decimal { negative, digits: 0, exponent: 0, form: NumberForm::Infinite })
    } else if same_ascii_case_blind(body, "nan"@) {
        Some(Decimal { negative, digits: 0, exponent: 0, form: NumberForm::NotANumber })
    } else {
        finite_of(negative, body)
    }
}

pub proof fn lemma_index_of_either(s: Seq<char>, a: char, b: char, i: int)
    requires
        0 <= i <= s.len(),
        forall|j: int| 0 <= j < i ==> #[trigger] s[j] != a && s[j] != b,
        i == s.len() || s[i] == a || s[i] == b,
    ensures
        index_of_either(s, a, b) == i,
    decreases i,
{
    if i > 0 {
        lemma_index_of_either(s.drop_first(), a, b, i - 1);
    }
}

fn find_either(s: &[char], a: char, b: char) -> (r: usize)
    ensures
        r == index_of_either(s@, a, b),
        r <= s@.len(),
{
    let mut i: usize = 0;
    while i < s.len() && s[i] != a && s[i] != b
        invariant
            i <= s@.len(),
            forall|j: int| 0 <= j < i ==> #[trigger] s@[j] != a && s@[j] != b,
        decreases s@.len() - i,
    {
        i = i + 1;
    }
    proof {
        lemma_index_of_either(s@, a, b, i as int);
    }
    i
}

/// The value of a run of digits, where it is all digits and fits a `u64`.
pub fn digits_to_u64(s: &[char]) -> (r: Option<u64>)
    ensures
        r == (if all_digits(s@) && digits_value(s@) <= u64::MAX {
            Some(digits_value(s@) as u64)
        } else {
            None
        }),
{
    let mut acc: u64 = 0;
    let mut i: usize = 0;
    while i < s.len()
        invariant
            i <= s@.len(),
            all_digits(s@.take(i as int)),
            acc == digits_value(s@.take(i as int)),
        decreases s@.len() - i,
    {
        let c = s[i];
        assert(s@.take(i + 1).drop_last() =~= s@.take(i as int));
        if !('0' <= c && c <= '9') {
            assert(!is_digit(s@[i as int]));
            return None;
        }
        let dv = (c as u32 - '0' as u32) as u64;
        if acc > (u64::MAX - dv) / 10 {
            proof {
                lemma_digits_prefix_bound(s@, i as int + 1);
            }
            return None;
        }
        acc = acc * 10 + dv;
        i = i + 1;
        assert(all_digits(s@.take(i as int)));
    }
    assert(s@.take(s@.len() as int) =~= s@);
    Some(acc)
}

/// A longer run of digits denotes at least as much as any of its prefixes.
proof fn lemma_digits_prefix_bound(s: Seq<char>, k: int)
    requires
        0 <= k <= s.len(),
        all_digits(s.take(k)),
    ensures
        all_digits(s) ==> digits_value(s.take(k)) <= digits_value(s),
    decreases s.len() - k,
{
    if k < s.len() && all_digits(s) {
        lemma_digits_prefix_bound(s, k + 1);
        assert(s.take(k + 1).drop_last() =~= s.take(k));
    } else if k == s.len() {
        assert(s.take(k) =~= s);
    }
}

/// `10^n`.
pub open spec fn pow10(n: nat) -> nat
    decreases n,
{
    if n == 0 {
        1
    } else {
        10 * pow10((n - 1) as nat)
    }
}

/// A run of `n` digits denotes less than `10^n`.
proof fn lemma_digits_value_bound(s: Seq<char>)
    requires
        all_digits(s),
    ensures
        digits_value(s) < pow10(s.len()),
    decreases s.len(),
{
    if s.len() > 0 {
        assert(all_digits(s.drop_last()));
        lemma_digits_value_bound(s.drop_last());
        assert(is_digit(s[s.len() - 1]));
    }
}

proof fn lemma_pow10_19()
    ensures
        pow10(19) == 10000000000000000000nat,
{
    reveal_with_fuel(pow10, 20);
}

/// Whether every character is a decimal digit.
fn all_digit_chars(s: &[char]) -> (r: bool)
    ensures
        r == all_digits(s@),
{
    let mut i: usize = 0;
    while i < s.len()
        invariant
            i <= s@.len(),
            forall|j: int| 0 <= j < i ==> is_digit(#[trigger] s@[j]),
        decreases s@.len() - i,
    {
        if !('0' <= s[i] && s[i] <= '9') {
            assert(!is_digit(s@[i as int]));
            return false;
        }
        i = i + 1;
    }
    true
}

proof fn lemma_zeros_prefix(s: Seq<char>, i: int)
    requires
        0 <= i <= s.len(),
        forall|j: int| 0 <= j < i ==> #[trigger] s[j] == '0',
        i == s.len() || s[i] != '0',
    ensures
        zeros_prefix(s) == i,
    decreases i,
{
    if i > 0 {
        lemma_zeros_prefix(s.drop_first(), i - 1);
    }
}

/// The number of leading `'0'`.
fn count_zeros_prefix(s: &[char]) -> (r: usize)
    ensures
        r == zeros_prefix(s@),
        r <= s@.len(),
{
    let mut i: usize = 0;
    while i < s.len() && s[i] == '0'
        invariant
            i <= s@.len(),
            forall|j: int| 0 <= j < i ==> #[trigger] s@[j] == '0',
        decreases s@.len() - i,
    {
        i = i + 1;
    }
    proof {
        lemma_zeros_prefix(s@, i as int);
    }
    i
}

/// Nineteen significant digits of a longer run, rounded (see `rounds_up`).
fn round_significant(sig: &[char]) -> (r: u64)
    requires
        sig@.len() >= 20,
        all_digits(sig@),
    ensures
        r == rounded_digits(sig@),
{
    let head = slice_of(sig, 0, 19);
    assert(head@ =~= sig@.take(19));
    proof {
        assert(all_digits(head@));
        lemma_digits_value_bound(head@);
        lemma_pow10_19();
    }
    let kept: u64 = match digits_to_u64(head.as_slice()) {
        Some(k) => k,
        None => {
            assert(false);
            0
        },
    };
    let mut rest_nonzero = false;
    let mut j: usize = 20;
    while j < sig.len()
        invariant
            20 <= j <= sig@.len(),
            rest_nonzero == exists|k: int| 20 <= k < j && #[trigger] sig@[k] != '0',
        decreases sig@.len() - j,
    {
        if sig[j] != '0' {
            rest_nonzero = true;
        }
        proof {
            if rest_nonzero && sig@[j as int] == '0' {
                let k = choose|k: int| 20 <= k < j && #[trigger] sig@[k] != '0';
                assert(20 <= k < j + 1 && sig@[k] != '0');
            }
            if sig@[j as int] != '0' {
                assert(20 <= j < j + 1 && sig@[j as int] != '0');
            }
        }
        j = j + 1;
    }
    let d = sig[19];
    let up = d > '5' || (d == '5' && (rest_nonzero || kept % 2 == 1));
    if up {
        kept + 1
    } else {
        kept
    }
}

/// The largest exponent value the reader tells apart: any larger one gives the same
/// exponent once kept within `i32`.
pub open spec fn exponent_cap() -> nat {
    0x400000000000000000nat
}

/// The value of a run of digits, or `exponent_cap()` where it is larger.
fn digits_capped(s: &[char]) -> (r: u128)
    requires
        all_digits(s@),
    ensures
        r == (if digits_value(s@) < exponent_cap() { digits_value(s@) } else { exponent_cap() }),
{
    let cap: u128 = 0x400000000000000000;
    let mut acc: u128 = 0;
    let mut i: usize = 0;
    while i < s.len()
        invariant
            i <= s@.len(),
            all_digits(s@),
            cap == exponent_cap(),
            acc == (if digits_value(s@.take(i as int)) < exponent_cap() { digits_value(s@.take(i as int)) } else { exponent_cap() }),
        decreases s@.len() - i,
    {
        assert(s@.take(i + 1).drop_last() =~= s@.take(i as int));
        assert(is_digit(s@[i as int]));
        let dv = (s[i] as u32 - '0' as u32) as u128;
        if acc < cap {
            let t = acc * 10 + dv;
            acc = if t < cap { t } else { cap };
        }
        i = i + 1;
    }
    assert(s@.take(s@.len() as int) =~= s@);
    acc
}

/// Reads a finite number written in decimal notation (see `finite_of`).
fn parse_finite(negative: bool, body: &[char]) -> (r: Option<Decimal>)
    ensures
        r == finite_of(negative, body@),
{
    reveal(finite_of);
    let e = find_either(body, 'e', 'E');
    let mant = slice_of(body, 0, e);
    assert(mant@ =~= body@.take(e as int));
    let d = find_either(mant.as_slice(), '.', '.');
    let int_part = slice_of(mant.as_slice(), 0, d);
    assert(int_part@ =~= mant@.take(d as int));
    let frac = if d < mant.len() {
        slice_of(mant.as_slice(), d + 1, mant.len())
    } else {
        Vec::new()
    };
    let exp_text = if e < body.len() {
        slice_of(body, e + 1, body.len())
    } else {
        Vec::new()
    };
    let en = exp_text.len();
    let exp_negative = en > 0 && exp_text[0] == '-';
    let esl: usize = if en > 0 && (exp_text[0] == '+' || exp_text[0] == '-') { 1 } else { 0 };
    let exp_digits = slice_of(exp_text.as_slice(), esl, en);
    let mut all = int_part.clone();
    let mut fi: usize = 0;
    while fi < frac.len()
        invariant
            fi <= frac@.len(),
            all@ == int_part@ + frac@.take(fi as int),
        decreases frac@.len() - fi,
    {
        all.push(frac[fi]);
        fi = fi + 1;
    }
    assert(frac@.take(frac@.len() as int) =~= frac@);
    assert(all@ =~= int_part@ + frac@);
    if all.len() == 0 {
        return None;
    }
    proof {
        assert(all_digits(int_part@ + frac@) <==> (all_digits(int_part@) && all_digits(frac@)))
            by {
            if all_digits(int_part@ + frac@) {
                assert forall|i: int| 0 <= i < frac@.len() implies is_digit(#[trigger] frac@[i]) by {
                    assert((int_part@ + frac@)[i + int_part@.len()] == frac@[i]);
                }
                assert forall|i: int| 0 <= i < int_part@.len() implies is_digit(
                    #[trigger] int_part@[i],
                ) by {
                    assert((int_part@ + frac@)[i] == int_part@[i]);
                }
            }
        }
    }
    if !all_digit_chars(all.as_slice()) {
        return None;
    }
    if e < body.len() && (exp_digits.len() == 0 || !all_digit_chars(exp_digits.as_slice())) {
        return None;
    }
    let z = count_zeros_prefix(all.as_slice());
    let sig = slice_of(all.as_slice(), z, all.len());
    assert(sig@ =~= significant(all@));
    assert(all_digits(sig@));
    let (digits, dropped): (u64, usize) = match digits_to_u64(sig.as_slice()) {
        Some(m) => (m, 0),
        None => {
            proof {
                lemma_digits_value_bound(sig@);
                lemma_pow10_19();
                if sig@.len() <= 19 {
                    lemma_pow10_monotone(sig@.len(), 19);
                }
            }
            (round_significant(sig.as_slice()), sig.len() - 19)
        },
    };
    let ev: u128 = if e < body.len() {
        digits_capped(exp_digits.as_slice())
    } else {
        assert(exp_digits@ =~= Seq::<char>::empty());
        0
    };
    let evs: i128 = ev as i128;
    let signed: i128 = if exp_negative { -evs } else { evs };
    let x: i128 = signed - frac.len() as i128 + dropped as i128;
    let exponent: i32 = if x < i32::MIN as i128 {
        i32::MIN
    } else if x > i32::MAX as i128 {
        i32::MAX
    } else {
        x as i32
    };
    Some(Decimal { negative, digits, exponent, form: NumberForm::Finite })
}

proof fn lemma_pow10_monotone(a: nat, b: nat)
    requires
        a <= b,
    ensures
        pow10(a) <= pow10(b),
    decreases b,
{
    if a < b {
        lemma_pow10_monotone(a, (b - 1) as nat);
    }
}

/// Reads a number in the grammar of `str::parse` for floating-point numbers (see
/// `decimal_of`).
pub fn parse_decimal(s: &[char]) -> (r: Option<Decimal>)
    ensures
        r == decimal_of(s@),
{
    proof {
        reveal_strlit("inf");
        reveal_strlit("infinity");
        reveal_strlit("nan");
    }
    let n = s.len();
    let negative = n > 0 && s[0] == '-';
    let sl: usize = if n > 0 && (s[0] == '+' || s[0] == '-') { 1 } else { 0 };
    let body = slice_of(s, sl, n);
    let word = string_of(body.as_slice());
    if eq_ignore_ascii_case(word.as_str(), "inf") || eq_ignore_ascii_case(word.as_str(), "infinity") {
        return Some(Decimal { negative, digits: 0, exponent: 0, form: NumberForm::Infinite });
    }
    if eq_ignore_ascii_case(word.as_str(), "nan") {
        return Some(Decimal { negative, digits: 0, exponent: 0, form: NumberForm::NotANumber });
    }
    parse_finite(negative, body.as_slice())
}

/// Reads a number written in decimal notation from a string.
pub fn parse_decimal_str(s: &str) -> (r: Option<Decimal>)
    ensures
        r == decimal_of(s@),
{
    let v = chars_of(s);
    parse_decimal(v.as_slice())
}


/// `2^n`.
pub open spec fn pow2(n: nat) -> nat
    decreases n,
{
    if n == 0 {
        1
    } else {
        2 * pow2((n - 1) as nat)
    }
}

proof fn lemma_pow2_add(a: nat, b: nat)
    ensures
        pow2(a + b) == pow2(a) * pow2(b),
    decreases a,
{
    if a > 0 {
        let a1 = (a - 1) as nat;
        lemma_pow2_add(a1, b);
        assert((a + b) as nat - 1 == a1 + b);
        assert(pow2(a + b) == 2 * pow2(a1 + b));
        assert(pow2(a) == 2 * pow2(a1));
        let x = pow2(a1);
        let y = pow2(b);
        assert(2 * (x * y) == (2 * x) * y) by (nonlinear_arith);
        assert(pow2(a + b) == pow2(a) * y);
    } else {
        assert(pow2(a) == 1);
        assert(a + b == b);
        let y = pow2(b);
        assert(1 * y == y);
    }
}

proof fn lemma_pow10_add(a: nat, b: nat)
    ensures
        pow10(a + b) == pow10(a) * pow10(b),
    decreases a,
{
    if a > 0 {
        let a1 = (a - 1) as nat;
        lemma_pow10_add(a1, b);
        assert((a + b) as nat - 1 == a1 + b);
        assert(pow10(a + b) == 10 * pow10(a1 + b));
        assert(pow10(a) == 10 * pow10(a1));
        let x = pow10(a1);
        let y = pow10(b);
        assert(10 * (x * y) == (10 * x) * y) by (nonlinear_arith);
        assert(pow10(a + b) == pow10(a) * y);
    } else {
        assert(pow10(a) == 1);
        assert(a + b == b);
        let y = pow10(b);
        assert(1 * y == y);
    }
}

/// The powers that bound the binary64 numbers that read as zero.
proof fn lemma_binary64_powers()
    ensures
        pow2(1075) == 404804506614621236704990693437834614099113299528284236713802716054860679135990693783920767402874248990374155728633623822779617474771586953734026799881477019843034848553132722728933815484186432682479535356945490137124014966849385397236206711298319112681620113024717539104666829230461005064372655017292012526615415482186989568nat,
        pow10(323) == 100000000000000000000000000000000000000000000000000000000000000000000000000000000000000000000000000000000000000000000000000000000000000000000000000000000000000000000000000000000000000000000000000000000000000000000000000000000000000000000000000000000000000000000000000000000000000000000000000000000000000000000000000000000000nat,
        pow10(342) == 1000000000000000000000000000000000000000000000000000000000000000000000000000000000000000000000000000000000000000000000000000000000000000000000000000000000000000000000000000000000000000000000000000000000000000000000000000000000000000000000000000000000000000000000000000000000000000000000000000000000000000000000000000000000000000000000000000000nat,
        pow10(343) == 10000000000000000000000000000000000000000000000000000000000000000000000000000000000000000000000000000000000000000000000000000000000000000000000000000000000000000000000000000000000000000000000000000000000000000000000000000000000000000000000000000000000000000000000000000000000000000000000000000000000000000000000000000000000000000000000000000000nat,
{
    reveal_with_fuel(pow2, 52);
    assert(pow2(51) == 2251799813685248nat);
    reveal_with_fuel(pow2, 65);
    assert(pow2(64) == 18446744073709551616nat);
    lemma_pow2_add(64, 64);
    assert(pow2(128) == 340282366920938463463374607431768211456nat);
    lemma_pow2_add(128, 128);
    assert(pow2(256) == 115792089237316195423570985008687907853269984665640564039457584007913129639936nat);
    lemma_pow2_add(256, 256);
    assert(pow2(512) == 13407807929942597099574024998205846127479365820592393377723561443721764030073546976801874298166903427690031858186486050853753882811946569946433649006084096nat);
    lemma_pow2_add(512, 512);
    assert(pow2(1024) == 179769313486231590772930519078902473361797697894230657273430081157732675805500963132708477322407536021120113879871393357658789768814416622492847430639474124377767893424865485276302219601246094119453082952085005768838150682342462881473913110540827237163350510684586298239947245938479716304835356329624224137216nat);
    lemma_pow2_add(1024, 51);
    reveal_with_fuel(pow10, 20);
    assert(pow10(19) == 10000000000000000000nat);
    lemma_pow10_add(19, 19);
    assert(pow10(38) == 100000000000000000000000000000000000000nat);
    lemma_pow10_add(38, 38);
    assert(pow10(76) == 10000000000000000000000000000000000000000000000000000000000000000000000000000nat);
    lemma_pow10_add(76, 76);
    assert(pow10(152) == 100000000000000000000000000000000000000000000000000000000000000000000000000000000000000000000000000000000000000000000000000000000000000000000000000000000nat);
    lemma_pow10_add(152, 152);
    assert(pow10(304) == 10000000000000000000000000000000000000000000000000000000000000000000000000000000000000000000000000000000000000000000000000000000000000000000000000000000000000000000000000000000000000000000000000000000000000000000000000000000000000000000000000000000000000000000000000000000000000000000000000000000000000000nat);
    lemma_pow10_add(304, 19);
    lemma_pow10_add(304, 38);
    assert(pow10(342) == 1000000000000000000000000000000000000000000000000000000000000000000000000000000000000000000000000000000000000000000000000000000000000000000000000000000000000000000000000000000000000000000000000000000000000000000000000000000000000000000000000000000000000000000000000000000000000000000000000000000000000000000000000000000000000000000000000000000nat);
    assert(pow10(343) == 10 * pow10(342));
}

/// A number of `digits * 10^exponent` is at most half of the least positive binary64
/// value (`2^-1074`), and so reads as zero in binary64, the halfway case going to the
/// even zero.
pub open spec fn underflows_binary64(digits: nat, exponent: int) -> bool {
    exponent < 0 && digits * pow2(1075) <= pow10((-exponent) as nat)
}

fn pow10_u64(j: u32) -> (r: u64)
    requires
        j <= 19,
    ensures
        r == pow10(j as nat),
{
    proof {
        lemma_pow10_19();
    }
    let mut r: u64 = 1;
    let mut i: u32 = 0;
    while i < j
        invariant
            i <= j <= 19,
            r == pow10(i as nat),
            pow10(19) == 10000000000000000000nat,
        decreases j - i,
    {
        proof {
            lemma_pow10_monotone((i + 1) as nat, 19);
            assert(pow10((i + 1) as nat) == 10 * pow10(i as nat));
        }
        r = r * 10;
        i = i + 1;
    }
    r
}

proof fn lemma_floor_div(d: int, c: int, j: int)
    requires
        j > 0,
        c >= 0,
        d >= 0,
    ensures
        d <= c / j <==> d * j <= c,
{
    vstd::arithmetic::div_mod::lemma_fundamental_div_mod(c, j);
    let q = c / j;
    let r = c % j;
    assert(c == j * q + r);
    assert(0 <= r < j);
    assert(d <= q ==> d * j <= c) by (nonlinear_arith)
        requires
            c == j * q + r,
            0 <= r < j,
            d >= 0,
    ;
    assert(d * j <= c ==> d <= q) by (nonlinear_arith)
        requires
            c == j * q + r,
            0 <= r < j,
            d >= 0,
    ;
}

proof fn lemma_underflow_between(d: int, p: int, k: int, jj: int, c: int)
    requires
        d >= 0,
        p > 0,
        jj > 0,
        c >= 0,
        c * p <= k * jj,
        k * jj < (c + 1) * p,
    ensures
        d * p <= k <==> d * jj <= c,
{
    if d * p <= k {
        assert(d * jj * p <= k * jj) by (nonlinear_arith)
            requires
                d * p <= k,
                jj > 0,
                d >= 0,
        ;
        assert(d * jj < c + 1) by (nonlinear_arith)
            requires
                d * jj * p < (c + 1) * p,
                p > 0,
        ;
    }
    if d * jj <= c {
        assert(d * jj * p <= c * p) by (nonlinear_arith)
            requires
                d * jj <= c,
                p > 0,
        ;
        assert(d * p <= k) by (nonlinear_arith)
            requires
                d * jj * p <= c * p,
                c * p <= k * jj,
                jj > 0,
        ;
    }
}

/// Whether a finite number reads as zero in binary64 though its digits are not zero
/// (see `underflows_binary64`).
fn binary64_underflows(digits: u64, exponent: i32) -> (r: bool)
    ensures
        r == underflows_binary64(digits as nat, exponent as int),
{
    proof {
        lemma_binary64_powers();
    }
    let ghost p = pow2(1075);
    if exponent >= 0 {
        return false;
    }
    let ghost k: nat = (-exponent) as nat;
    if digits == 0 {
        assert(0 * p == 0);
        return true;
    }
    if exponent > -324 {
        proof {
            lemma_pow10_monotone(k, 323);
            assert(digits * p >= p) by (nonlinear_arith)
                requires
                    digits >= 1,
                    p > 0,
            ;
        }
        return false;
    }
    if exponent < -342 {
        proof {
            lemma_pow10_monotone(343, k);
            assert(digits * p <= 18446744073709551615 * p) by (nonlinear_arith)
                requires
                    digits <= 18446744073709551615,
                    p > 0,
            ;
        }
        return true;
    }
    let j: u32 = (exponent + 342) as u32;
    let jj = pow10_u64(j);
    proof {
        lemma_pow10_add(k, j as nat);
        assert(k + j == 342);
        lemma_pow10_monotone(0, j as nat);
        reveal_with_fuel(pow10, 1);
        lemma_underflow_between(digits as int, p as int, pow10(k) as int, jj as int, 2470328229206232720);
        lemma_floor_div(digits as int, 2470328229206232720, jj as int);
    }
    digits <= 2470328229206232720u64 / jj
}

} // verus!
