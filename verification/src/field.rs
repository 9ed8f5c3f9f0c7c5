//! Field arithmetic over the Pallas base field.
//!
//! A field element is kept as its canonical little-endian byte encoding
//! (32 bytes, value strictly below the prime). The ring operations that
//! only the curve library can perform efficiently (add, sub, mul, div) go
//! through trusted wrappers around `pasta_curves`; everything that reads
//! or rebuilds the representation (shifts, bitwise and, the signed-residue
//! test, comparisons, 64-bit extraction) is verified code over the bytes.

use vstd::prelude::*;
use vstd::arithmetic::power2::*;
use vstd::arithmetic::div_mod::*;
use vstd::arithmetic::mul::*;
use ff::Field;
use ff::PrimeField;

verus! {

/// The Pallas base field prime.
pub open spec fn p() -> nat {
    28948022309329048855892746252171976963363056481941560715954676764349967630337nat
}

/// Value of a little-endian byte string.
pub open spec fn le_nat(s: Seq<u8>) -> nat
    decreases s.len(),
{
    if s.len() == 0 {
        0
    } else {
        s[0] as nat + 256 * le_nat(s.skip(1))
    }
}

pub proof fn lemma_le_nat_snoc(s: Seq<u8>, b: u8)
    ensures
        le_nat(s.push(b)) == le_nat(s) + (b as nat) * pow2(8 * s.len()),
    decreases s.len(),
{
    if s.len() == 0 {
        assert(s.push(b).len() == 1);
        assert(s.push(b)[0] == b);
        assert(s.push(b).skip(1) =~= Seq::<u8>::empty());
        lemma2_to64();
        assert(le_nat(Seq::<u8>::empty()) == 0);
        assert(le_nat(s) == 0);
        assert(le_nat(s.push(b)) == b as nat + 256 * le_nat(s.push(b).skip(1)));
        assert(le_nat(s.push(b)) == b as nat);
        assert(pow2(8 * s.len()) == 1);
        assert((b as nat) * pow2(8 * s.len()) == b as nat) by (nonlinear_arith)
            requires
                pow2(8 * s.len()) == 1,
        ;
    } else {
        assert(s.push(b).skip(1) =~= s.skip(1).push(b));
        lemma_le_nat_snoc(s.skip(1), b);
        lemma_pow2_adds(8, (8 * (s.len() - 1)) as nat);
        lemma2_to64();
        let w: nat = le_nat(s.skip(1));
        let q: nat = pow2((8 * (s.len() - 1)) as nat);
        assert(s.skip(1).len() == s.len() - 1);
        assert(le_nat(s.skip(1).push(b)) == w + (b as nat) * q);
        assert(le_nat(s.push(b)) == s[0] as nat + 256 * (w + (b as nat) * q));
        assert(256 * (w + (b as nat) * q) == 256 * w + (b as nat) * (256 * q))
            by (nonlinear_arith);
        assert(256 * q == pow2(8 * s.len()));
        assert((b as nat) * (256 * q) == (b as nat) * pow2(8 * s.len()));
        assert(le_nat(s) == s[0] as nat + 256 * w);
    }
}

pub proof fn lemma_le_nat_bound(s: Seq<u8>)
    ensures
        le_nat(s) < pow2(8 * s.len()),
    decreases s.len(),
{
    if s.len() == 0 {
        lemma2_to64();
    } else {
        lemma_le_nat_bound(s.skip(1));
        lemma_pow2_adds(8, 8 * (s.len() - 1) as nat);
        lemma2_to64();
        assert(le_nat(s.skip(1)) + 1 <= pow2(8 * (s.len() - 1) as nat));
        assert(256 * le_nat(s.skip(1)) + 256 <= 256 * pow2(8 * (s.len() - 1) as nat))
            by (nonlinear_arith)
            requires
                le_nat(s.skip(1)) + 1 <= pow2(8 * (s.len() - 1) as nat),
        ;
    }
}

pub proof fn lemma_le_nat_zero(s: Seq<u8>)
    ensures
        (le_nat(s) == 0) <==> (forall|i: int| 0 <= i < s.len() ==> s[i] == 0),
    decreases s.len(),
{
    if s.len() == 0 {
    } else {
        lemma_le_nat_zero(s.skip(1));
        if le_nat(s) == 0 {
            assert(forall|i: int|
                0 <= i < s.len() ==> s[i] == 0) by {
                assert(forall|i: int| 1 <= i < s.len() ==> s[i] == s.skip(1)[i - 1]);
            }
        } else {
            if forall|i: int| 0 <= i < s.len() ==> s[i] == 0 {
                assert(forall|i: int| 0 <= i < s.skip(1).len() ==> s.skip(1)[i] == s[i + 1]);
                assert(le_nat(s.skip(1)) == 0);
                assert(s[0] == 0);
                assert(false);
            }
        }
    }
}

pub proof fn lemma_le_nat_parity(s: Seq<u8>)
    requires
        s.len() > 0,
    ensures
        le_nat(s) % 2 == (s[0] as nat) % 2,
{
    let w: nat = le_nat(s.skip(1));
    assert(le_nat(s) == s[0] as nat + 2 * (128 * w)) by (nonlinear_arith)
        requires
            le_nat(s) == s[0] as nat + 256 * w,
    ;
    lemma_mod_multiples_vanish(128 * w as int, s[0] as int, 2);
}

pub proof fn lemma_le_nat_split(s: Seq<u8>, k: int)
    requires
        0 <= k <= s.len(),
    ensures
        le_nat(s) == le_nat(s.take(k)) + pow2((8 * k) as nat) * le_nat(s.skip(k)),
    decreases k,
{
    if k == 0 {
        assert(s.take(0) =~= Seq::<u8>::empty());
        assert(s.skip(0) =~= s);
        lemma2_to64();
    } else {
        lemma_le_nat_split(s.skip(1), k - 1);
        assert(s.take(k).skip(1) =~= s.skip(1).take(k - 1));
        assert(s.skip(k) =~= s.skip(1).skip(k - 1));
        assert(s.take(k)[0] == s[0]);
        assert(le_nat(s.take(k)) == s[0] as nat + 256 * le_nat(s.skip(1).take(k - 1)));
        lemma_pow2_adds(8, (8 * (k - 1)) as nat);
        lemma2_to64();
        let w: nat = le_nat(s.skip(1).take(k - 1));
        let z: nat = le_nat(s.skip(1).skip(k - 1));
        let q: nat = pow2((8 * (k - 1)) as nat);
        assert(le_nat(s.skip(1)) == w + q * z);
        assert(le_nat(s) == s[0] as nat + 256 * (w + q * z));
        assert(256 * (w + q * z) == 256 * w + (256 * q) * z) by (nonlinear_arith);
        assert(256 * q == pow2((8 * k) as nat));
        assert((256 * q) * z == pow2((8 * k) as nat) * z);
        assert(le_nat(s) == (s[0] as nat + 256 * w) + pow2((8 * k) as nat) * z);
    }
}

/// An element of the field, as its canonical little-endian encoding.
#[derive(Debug)]
pub struct FieldElement {
    pub bytes: Vec<u8>,
}

impl View for FieldElement {
    type V = nat;

    open spec fn view(&self) -> nat {
        le_nat(self.bytes@)
    }
}

impl FieldElement {
    /// Well-formedness: exactly 32 bytes, value below the prime.
    pub open spec fn wf(&self) -> bool {
        self.bytes@.len() == 32 && le_nat(self.bytes@) < p()
    }
}

/// Failures of the arithmetic operations that can fail.
#[derive(Clone, Copy, PartialEq, Eq, Structural, Debug)]
pub enum FieldError {
    DivisionByZero,
    ShiftCountOverflow,
}

/// The canonical sum of two field values.
pub open spec fn add_spec(a: nat, b: nat) -> nat {
    (a + b) % p()
}

/// The canonical difference of two field values.
pub open spec fn sub_spec(a: nat, b: nat) -> nat
    recommends
        b < p(),
{
    (((a + p() - b) as int % p() as int) as nat)
}

/// The canonical product of two field values.
pub open spec fn mul_spec(a: nat, b: nat) -> nat {
    (a * b) % p()
}

impl FieldElement {
    /// Relies on `pasta_curves::Fp`: `from_repr` accepts exactly the canonical
    /// little-endian encodings, addition reduces modulo the prime, and
    /// `to_repr` returns the canonical little-endian encoding.
    #[verifier::external_body]
    pub fn add(&self, other: &FieldElement) -> (r: FieldElement)
        requires
            self.wf(),
            other.wf(),
        ensures
            r.wf(),
            r@ == add_spec(self@, other@),
    {
        let mut a = [0u8; 32];
        a.copy_from_slice(&self.bytes);
        let mut b = [0u8; 32];
        b.copy_from_slice(&other.bytes);
        let fa = pasta_curves::Fp::from_repr(a).unwrap();
        let fb = pasta_curves::Fp::from_repr(b).unwrap();
        let fr = fa + fb;
        FieldElement { bytes: fr.to_repr().to_vec() }
    }

    /// Relies on `pasta_curves::Fp`: subtraction reduces modulo the prime;
    /// encoding as for `add`.
    #[verifier::external_body]
    pub fn sub(&self, other: &FieldElement) -> (r: FieldElement)
        requires
            self.wf(),
            other.wf(),
        ensures
            r.wf(),
            r@ == sub_spec(self@, other@),
    {
        let mut a = [0u8; 32];
        a.copy_from_slice(&self.bytes);
        let mut b = [0u8; 32];
        b.copy_from_slice(&other.bytes);
        let fa = pasta_curves::Fp::from_repr(a).unwrap();
        let fb = pasta_curves::Fp::from_repr(b).unwrap();
        let fr = fa - fb;
        FieldElement { bytes: fr.to_repr().to_vec() }
    }

    /// Relies on `pasta_curves::Fp`: multiplication reduces modulo the prime;
    /// encoding as for `add`.
    #[verifier::external_body]
    pub fn mul(&self, other: &FieldElement) -> (r: FieldElement)
        requires
            self.wf(),
            other.wf(),
        ensures
            r.wf(),
            r@ == mul_spec(self@, other@),
    {
        let mut a = [0u8; 32];
        a.copy_from_slice(&self.bytes);
        let mut b = [0u8; 32];
        b.copy_from_slice(&other.bytes);
        let fa = pasta_curves::Fp::from_repr(a).unwrap();
        let fb = pasta_curves::Fp::from_repr(b).unwrap();
        let fr = fa * fb;
        FieldElement { bytes: fr.to_repr().to_vec() }
    }

    /// Relies on `pasta_curves::Fp`: `invert` yields the multiplicative
    /// inverse for every nonzero element and fails exactly on zero;
    /// encoding as for `add`.
    #[verifier::external_body]
    pub fn div(&self, other: &FieldElement) -> (r: Result<FieldElement, FieldError>)
        requires
            self.wf(),
            other.wf(),
        ensures
            r is Err <==> other@ == 0,
            r matches Ok(v) ==> v.wf() && mul_spec(v@, other@) == self@,
    {
        let mut a = [0u8; 32];
        a.copy_from_slice(&self.bytes);
        let mut b = [0u8; 32];
        b.copy_from_slice(&other.bytes);
        let fa = pasta_curves::Fp::from_repr(a).unwrap();
        let fb = pasta_curves::Fp::from_repr(b).unwrap();
        let inv: Option<pasta_curves::Fp> = fb.invert().into();
        match inv {
            Option::None => Err(FieldError::DivisionByZero),
            Option::Some(fi) => {
                let fr = fa * fi;
                Ok(FieldElement { bytes: fr.to_repr().to_vec() })
            },
        }
    }
}

/// The field element with a given 64-bit value.
pub fn from_u64(x: u64) -> (r: FieldElement)
    ensures
        r.wf(),
        r@ == x as nat,
{
    let mut v: Vec<u8> = Vec::new();
    let mut cur: u64 = x;
    let mut i: usize = 0;
    proof {
        lemma2_to64();
        assert(le_nat(v@) == 0);
        assert(pow2(0) * (cur as nat) == cur as nat) by (nonlinear_arith)
            requires
                pow2(0) == 1,
        ;
    }
    while i < 8
        invariant
            0 <= i <= 8,
            v@.len() == i,
            x as nat == le_nat(v@) + pow2((8 * i) as nat) * (cur as nat),
        decreases 8 - i,
    {
        let b: u8 = (cur % 256) as u8;
        proof {
            lemma_le_nat_snoc(v@, b);
            lemma_pow2_adds((8 * i) as nat, 8);
            lemma2_to64();
            lemma_fundamental_div_mod(cur as int, 256);
            let q = pow2((8 * i) as nat);
            assert(q * (cur as nat) == q * (b as nat) + (q * 256) * ((cur / 256) as nat))
                by (nonlinear_arith)
                requires
                    cur as nat == b as nat + 256 * ((cur / 256) as nat),
            ;
            assert((b as nat) * q == q * (b as nat)) by (nonlinear_arith);
        }
        v.push(b);
        cur = cur / 256;
        i = i + 1;
    }
    proof {
        lemma_pow2(64);
        lemma2_to64();
        assert(le_nat(v@) <= x as nat);
        if cur != 0 {
            assert(pow2(64) * (cur as nat) >= pow2(64) * 1) by (nonlinear_arith)
                requires
                    cur as nat >= 1,
                    pow2(64) > 0,
            ;
            assert(false);
        }
    }
    while i < 32
        invariant
            8 <= i <= 32,
            v@.len() == i,
            le_nat(v@) == x as nat,
        decreases 32 - i,
    {
        proof {
            lemma_le_nat_snoc(v@, 0u8);
        }
        v.push(0u8);
        i = i + 1;
    }
    proof {
        lemma2_to64();
        assert(pow2(64) < p());
    }
    FieldElement { bytes: v }
}

/// The zero element.
pub fn zero() -> (r: FieldElement)
    ensures
        r.wf(),
        r@ == 0,
{
    from_u64(0)
}

/// The one element.
pub fn one() -> (r: FieldElement)
    ensures
        r.wf(),
        r@ == 1,
{
    from_u64(1)
}

/// Overwrite `dest` with the value of `src`.
pub fn copy(dest: &mut FieldElement, src: &FieldElement)
    ensures
        final (dest)@ == src@,
        final (dest).bytes@ == src.bytes@,
{
    let mut v: Vec<u8> = Vec::new();
    let n: usize = src.bytes.len();
    let mut i: usize = 0;
    while i < n
        invariant
            0 <= i <= n,
            n == src.bytes@.len(),
            v@ =~= src.bytes@.take(i as int),
        decreases n - i,
    {
        v.push(src.bytes[i]);
        i = i + 1;
    }
    proof {
        assert(v@ =~= src.bytes@);
    }
    dest.bytes = v;
}

/// Truth of a field value: nonzero.
pub open spec fn is_true_spec(v: nat) -> bool {
    v != 0
}

/// Whether a field element is "true", that is, nonzero.
pub fn is_true(x: &FieldElement) -> (r: bool)
    ensures
        r == is_true_spec(x@),
{
    let n: usize = x.bytes.len();
    let mut i: usize = 0;
    while i < n
        invariant
            0 <= i <= n,
            n == x.bytes@.len(),
            forall|j: int| 0 <= j < i ==> x.bytes@[j] == 0,
        decreases n - i,
    {
        if x.bytes[i] != 0 {
            proof {
                lemma_le_nat_zero(x.bytes@);
            }
            return true;
        }
        i = i + 1;
    }
    proof {
        lemma_le_nat_zero(x.bytes@);
    }
    false
}

/// The canonical encoding of a boolean: one for true, zero for false.
pub open spec fn from_bool_spec(b: bool) -> nat {
    if b {
        1
    } else {
        0
    }
}

/// The field element encoding a boolean.
pub fn from_bool(x: bool) -> (r: FieldElement)
    ensures
        r.wf(),
        r@ == from_bool_spec(x),
{
    if x {
        one()
    } else {
        zero()
    }
}

/// For every field value, encoding its truth value and encoding the test
/// "is it nonzero" agree.
pub proof fn lemma_from_bool_is_true(v: nat)
    ensures
        from_bool_spec(is_true_spec(v)) == from_bool_spec(v != 0),
{
}


/// Half of the prime, rounded down: the largest non-negative signed residue.
pub open spec fn half_p() -> nat {
    14474011154664524427946373126085988481681528240970780357977338382174983815168nat
}

/// A field value is negative when doubling it gives an odd canonical integer.
pub open spec fn is_neg_spec(v: nat) -> bool {
    ((2 * v) % p()) % 2 == 1
}

/// The signed residue of a field value: itself in the lower half of the
/// range, its distance below the prime (negated) in the upper half.
pub open spec fn signed_spec(v: nat) -> int {
    if v <= half_p() {
        v as int
    } else {
        v as int - p() as int
    }
}

/// The strict comparison of field values under the signed-residue convention.
pub open spec fn lt_spec(a: nat, b: nat) -> bool {
    is_neg_spec(sub_spec(a, b))
}

/// A field value is negative exactly when it lies in the upper half of the
/// field range.
pub proof fn lemma_neg_upper_half(v: nat)
    requires
        v < p(),
    ensures
        is_neg_spec(v) <==> v > half_p(),
{
    assert(p() == 2 * half_p() + 1);
    if v <= half_p() {
        lemma_small_mod(2 * v, p());
        lemma_mod_multiples_basic(v as int, 2);
        assert((2 * v) % 2 == 0);
    } else {
        assert(p() < 2 * v < 2 * p());
        lemma_mod_sub_multiples_vanish(2 * v as int, p() as int);
        lemma_small_mod((2 * v - p()) as nat, p());
        assert((2 * v) % p() == 2 * v - p());
        let d: int = 2 * v - p();
        assert(d == 2 * (v - half_p() - 1) + 1);
        lemma_mod_multiples_vanish((v - half_p() - 1) as int, 1, 2);
        assert(d % 2 == 1);
    }
}

/// `lt` is, by definition, the negativity of the canonical difference.
pub proof fn lemma_lt_is_neg_of_difference(a: nat, b: nat)
    ensures
        lt_spec(a, b) == is_neg_spec(sub_spec(a, b)),
{
}

/// The canonical difference equals the signed difference modulo the prime,
/// written out for values below the prime.
proof fn lemma_sub_spec_cases(a: nat, b: nat)
    requires
        a < p(),
        b < p(),
    ensures
        a >= b ==> sub_spec(a, b) == a - b,
        a < b ==> sub_spec(a, b) == a + p() - b,
{
    if a >= b {
        lemma_mod_sub_multiples_vanish((a + p() - b) as int, p() as int);
        lemma_small_mod((a - b) as nat, p());
    } else {
        lemma_small_mod((a + p() - b) as nat, p());
    }
}

/// Comparison under the signed-residue convention: wherever the signed
/// difference stays within half the field range, `lt` agrees with the order
/// of the signed residues.
pub proof fn lemma_lt_signed_consistent(a: nat, b: nat)
    requires
        a < p(),
        b < p(),
        -(half_p() as int) <= signed_spec(a) - signed_spec(b) <= half_p() as int,
    ensures
        lt_spec(a, b) <==> signed_spec(a) < signed_spec(b),
{
    assert(p() == 2 * half_p() + 1);
    lemma_sub_spec_cases(a, b);
    let d: nat = sub_spec(a, b);
    lemma_neg_upper_half(d);
    let sa: int = signed_spec(a);
    let sb: int = signed_spec(b);
    if a >= b {
        assert(d == a - b);
        if sa >= sb {
            assert(sa - sb == d || sa - sb == d - p() || sa - sb + p() == d);
            assert(d <= half_p() ==> !(sa < sb) && !is_neg_spec(d));
            assert(d > half_p() ==> (sa - sb != d));
        } else {
            assert(sa - sb < 0);
            assert(a > half_p() && b <= half_p());
            assert(sa - sb == d - p());
            assert(d == sa - sb + p());
            assert(d >= p() - half_p());
            assert(d > half_p());
        }
    } else {
        assert(d == a + p() - b);
        if sa >= sb {
            assert(a <= half_p() && b > half_p());
            assert(sa - sb == a + p() - b);
            assert(d <= half_p());
        } else {
            assert(sa - sb == a as int - b);
            assert(d == sa - sb + p());
            assert(d >= p() - half_p());
            assert(d > half_p());
        }
    }
}

/// `lt` is irreflexive, and on distinct values it is asymmetric and total:
/// exactly one of `lt(a, b)` and `lt(b, a)` holds.
pub proof fn lemma_lt_strict(a: nat, b: nat)
    requires
        a < p(),
        b < p(),
    ensures
        !lt_spec(a, a),
        a != b ==> (lt_spec(a, b) <==> !lt_spec(b, a)),
{
    assert(p() == 2 * half_p() + 1);
    lemma_mod_multiples_basic(1, p() as int);
    assert(sub_spec(a, a) == 0);
    lemma_neg_upper_half(0);
    if a != b {
        lemma_sub_spec_cases(a, b);
        lemma_sub_spec_cases(b, a);
        let d1: nat = sub_spec(a, b);
        let d2: nat = sub_spec(b, a);
        assert(d1 + d2 == p());
        lemma_neg_upper_half(d1);
        lemma_neg_upper_half(d2);
    }
}

/// Exactly half of the nonzero field values are negative: negation pairs
/// each negative value with a positive one.
pub proof fn lemma_negatives_pair(v: nat)
    requires
        1 <= v < p(),
    ensures
        is_neg_spec(v) <==> !is_neg_spec((p() - v) as nat),
{
    assert(p() == 2 * half_p() + 1);
    lemma_neg_upper_half(v);
    lemma_neg_upper_half((p() - v) as nat);
}

/// Whether a field element is negative under the signed-residue convention.
pub fn is_negative(x: &FieldElement) -> (r: bool)
    requires
        x.wf(),
    ensures
        r == is_neg_spec(x@),
{
    let d = x.add(x);
    proof {
        lemma_le_nat_parity(d.bytes@);
    }
    d.bytes[0] % 2 == 1
}

/// Strict comparison of field elements: `a` is less than `b` when their
/// canonical difference is negative.
pub fn lt(a: &FieldElement, b: &FieldElement) -> (r: bool)
    requires
        a.wf(),
        b.wf(),
    ensures
        r == lt_spec(a@, b@),
{
    let d = a.sub(b);
    is_negative(&d)
}

/// The 64-bit value of a field element, where it has one.
pub fn to_u64(x: &FieldElement) -> (r: Option<u64>)
    requires
        x.wf(),
    ensures
        r is Some <==> x@ < pow2(64),
        r matches Some(u) ==> u as nat == x@,
{
    let mut i: usize = 8;
    while i < 32
        invariant
            8 <= i <= 32,
            x.wf(),
            forall|j: int| 8 <= j < i ==> x.bytes@[j] == 0,
        decreases 32 - i,
    {
        if x.bytes[i] != 0 {
            proof {
                lemma_le_nat_split(x.bytes@, 8);
                lemma_le_nat_zero(x.bytes@.skip(8));
                assert(x.bytes@.skip(8)[i - 8] != 0);
                assert(le_nat(x.bytes@.skip(8)) != 0);
                lemma_pow2_pos(64);
                assert(pow2(64) * le_nat(x.bytes@.skip(8)) >= pow2(64)) by (nonlinear_arith)
                    requires
                        le_nat(x.bytes@.skip(8)) >= 1,
                        pow2(64) > 0,
                ;
            }
            return None;
        }
        i = i + 1;
    }
    let mut u: u64 = 0;
    let mut j: usize = 8;
    proof {
        lemma2_to64();
        assert(x.bytes@.subrange(8, 8) =~= Seq::<u8>::empty());
    }
    while j > 0
        invariant
            0 <= j <= 8,
            x.wf(),
            forall|jj: int| 8 <= jj < 32 ==> x.bytes@[jj] == 0,
            u as nat == le_nat(x.bytes@.subrange(j as int, 8)),
            (u as nat) < pow2((8 * (8 - j)) as nat),
        decreases j,
    {
        proof {
            lemma2_to64();
            lemma_pow2_adds((8 * (8 - j)) as nat, 8);
            assert(u as nat * 256 + 255 < pow2((8 * (8 - j) + 8) as nat)) by (nonlinear_arith)
                requires
                    (u as nat) < pow2((8 * (8 - j)) as nat),
                    pow2((8 * (8 - j) + 8) as nat) == pow2((8 * (8 - j)) as nat) * 256,
            ;
            lemma_pow2_strictly_increases((8 * (8 - j) + 8) as nat, 65);
            lemma_pow2_adds(64, 1);
            assert((8 * (8 - j) + 8) as nat <= 64);
            if (8 * (8 - j) + 8) < 64 {
                lemma_pow2_strictly_increases((8 * (8 - j) + 8) as nat, 64);
            }
            assert(pow2((8 * (8 - j) + 8) as nat) <= pow2(64));
        }
        j = j - 1;
        let b: u8 = x.bytes[j];
        proof {
            let s: Seq<u8> = x.bytes@.subrange(j as int, 8);
            assert(s.len() > 0);
            assert(s[0] == x.bytes@[j as int]);
            assert(s.skip(1) =~= x.bytes@.subrange(j as int + 1, 8));
            assert(le_nat(s) == b as nat + 256 * le_nat(x.bytes@.subrange(j as int + 1, 8)));
        }
        u = u * 256 + (b as u64);
        proof {
            lemma_pow2_adds((8 * (7 - j)) as nat, 8);
            assert((u as nat) < pow2((8 * (7 - j)) as nat) * 256) by (nonlinear_arith)
                requires
                    u as nat == (u as nat / 256) * 256 + (u as nat % 256)
                        || true,
                    u as nat <= (pow2((8 * (7 - j)) as nat) - 1) * 256 + 255,
            ;
        }
    }
    proof {
        lemma_le_nat_split(x.bytes@, 8);
        lemma_le_nat_zero(x.bytes@.skip(8));
        assert(le_nat(x.bytes@.skip(8)) == 0);
        assert(x.bytes@.subrange(0, 8) =~= x.bytes@.take(8));
        lemma_le_nat_bound(x.bytes@.take(8));
        assert(pow2((8 * 8) as nat) == pow2(64));
        assert(pow2(64) * 0 == 0) by (nonlinear_arith);
        assert(x@ == le_nat(x.bytes@.take(8)));
    }
    Some(u)
}


/// Powers of two up to the width of the encoding, as literals.
proof fn lemma_pow2_to_256()
    ensures
        pow2(128) == 340282366920938463463374607431768211456nat,
        pow2(192) == 6277101735386680763835789423207666416102355444464034512896nat,
        pow2(255) == 57896044618658097711785492504343953926634992332820282019728792003956564819968nat,
        pow2(256) == 115792089237316195423570985008687907853269984665640564039457584007913129639936nat,
{
    lemma2_to64();
    lemma2_to64_rest();
    lemma_pow2_adds(64, 64);
    lemma_pow2_adds(128, 64);
    lemma_pow2_adds(192, 63);
    lemma_pow2_adds(192, 64);
}

/// Double a 32-byte string, dropping the carry out of the top:
/// multiplication by two modulo 2^256.
fn double_bytes(v: &Vec<u8>) -> (r: Vec<u8>)
    requires
        v@.len() == 32,
    ensures
        r@.len() == 32,
        le_nat(r@) == (2 * le_nat(v@)) % pow2(256),
{
    let mut out: Vec<u8> = Vec::new();
    let mut carry: u8 = 0;
    let mut i: usize = 0;
    proof {
        lemma2_to64();
        assert(v@.take(0) =~= Seq::<u8>::empty());
        assert(pow2(0) * (carry as nat) == carry as nat) by (nonlinear_arith)
            requires
                pow2(0) == 1,
        ;
    }
    while i < 32
        invariant
            0 <= i <= 32,
            out@.len() == i,
            carry <= 1,
            v@.len() == 32,
            le_nat(out@) + (carry as nat) * pow2((8 * i) as nat) == 2 * le_nat(
                v@.take(i as int),
            ),
        decreases 32 - i,
    {
        let t: u32 = (v[i] as u32) * 2 + (carry as u32);
        let b: u8 = (t % 256) as u8;
        let c: u8 = (t / 256) as u8;
        proof {
            lemma_le_nat_snoc(out@, b);
            lemma_le_nat_snoc(v@.take(i as int), v@[i as int]);
            assert(v@.take(i as int).push(v@[i as int]) =~= v@.take(i as int + 1));
            lemma_pow2_adds((8 * i) as nat, 8);
            lemma2_to64();
            let q: nat = pow2((8 * i) as nat);
            assert(t == b as nat + 256 * (c as nat));
            assert((b as nat + 256 * (c as nat)) * q == (b as nat) * q + (c as nat) * (256 * q))
                by (nonlinear_arith);
            assert(2 * ((v@[i as int] as nat) * q) == (2 * (v@[i as int] as nat)) * q)
                by (nonlinear_arith);
            assert((carry as nat + 2 * (v@[i as int] as nat)) * q == (carry as nat) * q + (2 * (
            v@[i as int] as nat)) * q) by (nonlinear_arith);
        }
        out.push(b);
        carry = c;
        i = i + 1;
    }
    proof {
        assert(v@.take(32) =~= v@);
        lemma_le_nat_bound(out@);
        let m: nat = pow2(256);
        if carry == 0 {
            assert(pow2(256nat) * 0 == 0) by (nonlinear_arith);
            lemma_small_mod(2 * le_nat(v@), m);
        } else {
            assert((carry as nat) * m == m) by (nonlinear_arith)
                requires
                    carry == 1,
            ;
            lemma_mod_multiples_vanish(1, le_nat(out@) as int, m as int);
            lemma_small_mod(le_nat(out@), m);
        }
    }
    out
}

/// The byte at position `i` of the halved string.
pub open spec fn halve_byte(a: Seq<u8>, i: int) -> u8
    recommends
        0 <= i < a.len(),
{
    if i + 1 < a.len() {
        (a[i] / 2 + (a[i + 1] % 2) * 128) as u8
    } else {
        a[i] / 2
    }
}

proof fn lemma_halve(a: Seq<u8>, b: Seq<u8>)
    requires
        a.len() == b.len(),
        forall|i: int| 0 <= i < a.len() ==> b[i] == halve_byte(a, i),
    ensures
        le_nat(b) == le_nat(a) / 2,
    decreases a.len(),
{
    if a.len() == 0 {
        assert(le_nat(b) == 0);
        assert(0int / 2 == 0);
    } else if a.len() == 1 {
        assert(b.skip(1) =~= Seq::<u8>::empty());
        assert(a.skip(1) =~= Seq::<u8>::empty());
        assert(le_nat(b.skip(1)) == 0);
        assert(le_nat(a.skip(1)) == 0);
        assert(le_nat(b) == b[0] as nat);
        assert(le_nat(a) == a[0] as nat);
        assert(b[0] == a[0] / 2);
    } else {
        let a1: Seq<u8> = a.skip(1);
        let b1: Seq<u8> = b.skip(1);
        assert forall|i: int| 0 <= i < a1.len() implies b1[i] == halve_byte(a1, i) by {
            assert(b1[i] == b[i + 1]);
            assert(a1[i] == a[i + 1]);
            if i + 1 < a1.len() {
                assert(a1[i + 1] == a[i + 2]);
            }
        }
        lemma_halve(a1, b1);
        let w: nat = le_nat(a1);
        lemma_le_nat_parity(a1);
        assert(w % 2 == (a[1] as nat) % 2);
        assert(b[0] == halve_byte(a, 0));
        assert(b[0] as nat == a[0] as nat / 2 + (w % 2) * 128);
        lemma_hoist_over_denominator(a[0] as int, 128 * (w as int), 2);
        assert(a[0] as int / 2 + 128 * (w as int) == (a[0] as int + 128 * (w as int) * 2) / 2);
        assert(128 * (w as int) * 2 == 256 * (w as int)) by (nonlinear_arith);
        lemma_fundamental_div_mod(w as int, 2);
        assert(w == 2 * (w / 2) + w % 2);
        assert(128 * (w as int) == 256 * ((w / 2) as int) + 128 * ((w % 2) as int));
        assert(le_nat(b) == b[0] as nat + 256 * (w / 2));
        assert(le_nat(a) == a[0] as nat + 256 * w);
        assert(le_nat(a) / 2 == a[0] as nat / 2 + 128 * (w as int));
    }
}

/// Halve a 32-byte string: division by two, rounding down.
fn halve_bytes(v: &Vec<u8>) -> (r: Vec<u8>)
    requires
        v@.len() == 32,
    ensures
        r@.len() == 32,
        le_nat(r@) == le_nat(v@) / 2,
{
    let mut out: Vec<u8> = Vec::new();
    let mut i: usize = 0;
    while i < 32
        invariant
            0 <= i <= 32,
            v@.len() == 32,
            out@.len() == i,
            forall|k: int| 0 <= k < i ==> out@[k] == halve_byte(v@, k),
        decreases 32 - i,
    {
        let b: u8 = if i + 1 < 32 {
            v[i] / 2 + (v[i + 1] % 2) * 128
        } else {
            v[i] / 2
        };
        out.push(b);
        i = i + 1;
    }
    proof {
        lemma_halve(v@, out@);
    }
    out
}

/// A copy of a byte string.
fn clone_bytes(v: &Vec<u8>) -> (r: Vec<u8>)
    ensures
        r@ == v@,
{
    let mut out: Vec<u8> = Vec::new();
    let n: usize = v.len();
    let mut i: usize = 0;
    while i < n
        invariant
            0 <= i <= n,
            n == v@.len(),
            out@ =~= v@.take(i as int),
        decreases n - i,
    {
        out.push(v[i]);
        i = i + 1;
    }
    proof {
        assert(out@ =~= v@);
    }
    out
}

/// Rebuild a field element from an arbitrary little-endian byte string,
/// reducing its value modulo the prime.
pub fn from_le_bytes_canonical(bs: &Vec<u8>) -> (r: FieldElement)
    ensures
        r.wf(),
        r@ == le_nat(bs@) % p(),
{
    let mut res = zero();
    let c256 = from_u64(256);
    let mut i: usize = bs.len();
    proof {
        assert(bs@.skip(bs@.len() as int) =~= Seq::<u8>::empty());
        lemma_small_mod(0, p());
    }
    while i > 0
        invariant
            0 <= i <= bs@.len(),
            res.wf(),
            c256.wf(),
            c256@ == 256,
            res@ == le_nat(bs@.skip(i as int)) % p(),
        decreases i,
    {
        i = i - 1;
        let bfe = from_u64(bs[i] as u64);
        let m = res.mul(&c256);
        res = m.add(&bfe);
        proof {
            let l1: nat = le_nat(bs@.skip(i as int + 1));
            let s: Seq<u8> = bs@.skip(i as int);
            assert(s[0] == bs@[i as int]);
            assert(s.skip(1) =~= bs@.skip(i as int + 1));
            assert(le_nat(s) == bs@[i as int] as nat + 256 * l1);
            lemma_mul_mod_noop_left(l1 as int, 256, p() as int);
            assert(m@ == (l1 * 256) % p());
            lemma_small_mod(bs@[i as int] as nat, p());
            lemma_add_mod_noop(l1 as int * 256, bs@[i as int] as int, p() as int);
            assert(l1 * 256 == 256 * l1) by (nonlinear_arith);
        }
    }
    proof {
        assert(bs@.skip(0) =~= bs@);
    }
    res
}

/// Two to the power `e`, reduced modulo the prime.
pub fn pow2_mod_p(e: usize) -> (r: FieldElement)
    ensures
        r.wf(),
        r@ == pow2(e as nat) % p(),
{
    let mut r = one();
    proof {
        lemma2_to64();
        lemma_small_mod(1, p());
    }
    let mut i: usize = 0;
    while i < e
        invariant
            0 <= i <= e,
            r.wf(),
            r@ == pow2(i as nat) % p(),
        decreases e - i,
    {
        let d = r.add(&r);
        proof {
            lemma_pow2_adds(i as nat, 1);
            lemma2_to64();
            lemma_add_mod_noop(pow2(i as nat) as int, pow2(i as nat) as int, p() as int);
            assert(pow2(i as nat) + pow2(i as nat) == 2 * pow2(i as nat));
            assert(pow2(i as nat) * pow2(1) == pow2(i as nat) * 2) by (nonlinear_arith)
                requires
                    pow2(1) == 2,
            ;
        }
        r = d;
        i = i + 1;
    }
    r
}

/// The value of a left shift: multiplication by a power of two, truncated
/// to the width of the encoding, then reduced modulo the prime.
pub open spec fn shl_spec(x: nat, n: nat) -> nat {
    ((x * pow2(n)) % pow2(256)) % p()
}

/// The value of a right shift: division by a power of two.
pub open spec fn shr_spec(x: nat, n: nat) -> nat {
    x / pow2(n)
}

/// Left shift of a field element by a field-element count.
pub fn shl(x: &FieldElement, n: &FieldElement) -> (r: Result<FieldElement, FieldError>)
    requires
        x.wf(),
        n.wf(),
    ensures
        r is Err <==> n@ >= pow2(64),
        r matches Ok(v) ==> v.wf() && v@ == shl_spec(x@, n@),
{
    let k: u64 = match to_u64(n) {
        Option::None => {
            return Err(FieldError::ShiftCountOverflow);
        },
        Option::Some(k) => k,
    };
    proof {
        lemma_pow2_to_256();
        lemma_pow2_pos(n@);
    }
    if k >= 256 {
        proof {
            let e: nat = (k - 256) as nat;
            lemma_pow2_adds(256, e);
            lemma_pow2_pos(e);
            assert(x@ * (pow2(e) * pow2(256)) == (x@ * pow2(e)) * pow2(256))
                by (nonlinear_arith);
            lemma_mod_multiples_basic((x@ * pow2(e)) as int, pow2(256) as int);
            lemma_small_mod(0, p());
        }
        return Ok(zero());
    }
    let mut cur: Vec<u8> = clone_bytes(&x.bytes);
    let mut i: u64 = 0;
    proof {
        lemma2_to64();
        assert(pow2(0nat) * x@ == x@) by (nonlinear_arith)
            requires
                pow2(0nat) == 1,
        ;
        assert(x@ < pow2(256));
        lemma_small_mod(x@, pow2(256));
    }
    while i < k
        invariant
            0 <= i <= k < 256,
            cur@.len() == 32,
            x.wf(),
            le_nat(cur@) == (x@ * pow2(i as nat)) % pow2(256),
        decreases k - i,
    {
        let next = double_bytes(&cur);
        proof {
            lemma_pow2_pos(256);
            lemma_mul_mod_noop_right(2, (x@ * pow2(i as nat)) as int, pow2(256) as int);
            lemma_pow2_adds(i as nat, 1);
            lemma2_to64();
            assert(2 * (x@ * pow2(i as nat)) == x@ * pow2((i + 1) as nat)) by (nonlinear_arith)
                requires
                    pow2((i + 1) as nat) == pow2(i as nat) * 2,
            ;
        }
        cur = next;
        i = i + 1;
    }
    let out = from_le_bytes_canonical(&cur);
    Ok(out)
}

/// Right shift of a field element by a field-element count.
pub fn shr(x: &FieldElement, n: &FieldElement) -> (r: Result<FieldElement, FieldError>)
    requires
        x.wf(),
        n.wf(),
    ensures
        r is Err <==> n@ >= pow2(64),
        r matches Ok(v) ==> v.wf() && v@ == shr_spec(x@, n@),
{
    let k: u64 = match to_u64(n) {
        Option::None => {
            return Err(FieldError::ShiftCountOverflow);
        },
        Option::Some(k) => k,
    };
    proof {
        lemma_pow2_to_256();
    }
    if k >= 256 {
        proof {
            lemma_pow2_pos(256);
            if (k as nat) > 256 {
                lemma_pow2_strictly_increases(256, k as nat);
            }
            assert(x@ < pow2(k as nat));
            lemma_basic_div_specific_divisor(pow2(k as nat) as int);
            assert(x@ as int / pow2(k as nat) as int == 0);
        }
        return Ok(zero());
    }
    let mut cur: Vec<u8> = clone_bytes(&x.bytes);
    let mut i: u64 = 0;
    proof {
        lemma2_to64();
        lemma_div_basics(x@ as int);
        assert(x@ / pow2(0nat) == x@);
    }
    while i < k
        invariant
            0 <= i <= k < 256,
            cur@.len() == 32,
            x.wf(),
            le_nat(cur@) == x@ / pow2(i as nat),
        decreases k - i,
    {
        let next = halve_bytes(&cur);
        proof {
            lemma_pow2_pos(i as nat);
            lemma_div_denominator(x@ as int, pow2(i as nat) as int, 2);
            lemma_pow2_adds(i as nat, 1);
            lemma2_to64();
        }
        cur = next;
        i = i + 1;
    }
    proof {
        lemma_pow2_pos(k as nat);
        lemma_div_nonincreasing(x@ as int, pow2(k as nat) as int);
    }
    Ok(FieldElement { bytes: cur })
}

proof fn lemma_u8_and_le(a: u8, b: u8)
    ensures
        (a & b) <= a,
{
    assert((a & b) <= a) by (bit_vector);
}

proof fn lemma_le_nat_pointwise_le(a: Seq<u8>, b: Seq<u8>)
    requires
        a.len() == b.len(),
        forall|i: int| 0 <= i < a.len() ==> b[i] <= a[i],
    ensures
        le_nat(b) <= le_nat(a),
    decreases a.len(),
{
    if a.len() == 0 {
    } else {
        assert(forall|i: int|
            0 <= i < a.skip(1).len() ==> #[trigger] b.skip(1)[i] <= a.skip(1)[i]) by {
            assert(forall|i: int| 0 <= i < a.skip(1).len() ==> b.skip(1)[i] == b[i + 1]);
            assert(forall|i: int| 0 <= i < a.skip(1).len() ==> a.skip(1)[i] == a[i + 1]);
        }
        lemma_le_nat_pointwise_le(a.skip(1), b.skip(1));
    }
}

/// Bitwise AND of two field elements, byte by byte of the canonical
/// encodings.
pub fn bit_and(x: &FieldElement, y: &FieldElement) -> (r: FieldElement)
    requires
        x.wf(),
        y.wf(),
    ensures
        r.wf(),
        r.bytes@.len() == 32,
        forall|i: int| 0 <= i < 32 ==> r.bytes@[i] == (x.bytes@[i] & y.bytes@[i]),
{
    let mut out: Vec<u8> = Vec::new();
    let mut i: usize = 0;
    while i < 32
        invariant
            0 <= i <= 32,
            x.wf(),
            y.wf(),
            out@.len() == i,
            forall|k: int| 0 <= k < i ==> out@[k] == (x.bytes@[k] & y.bytes@[k]),
        decreases 32 - i,
    {
        out.push(x.bytes[i] & y.bytes[i]);
        i = i + 1;
    }
    proof {
        assert forall|k: int| 0 <= k < 32 implies out@[k] <= x.bytes@[k] by {
            lemma_u8_and_le(x.bytes@[k], y.bytes@[k]);
        }
        lemma_le_nat_pointwise_le(x.bytes@, out@);
    }
    FieldElement { bytes: out }
}

/// Round trip of the shifts: where the shifted value stays inside the
/// field, shifting left then right by the same count gives the value back.
pub proof fn lemma_shift_round_trip(x: nat, n: nat)
    requires
        x * pow2(n) < p(),
    ensures
        shr_spec(shl_spec(x, n), n) == x,
{
    lemma_pow2_to_256();
    lemma_small_mod(x * pow2(n), pow2(256));
    lemma_small_mod(x * pow2(n), p());
    lemma_pow2_pos(n);
    lemma_div_by_multiple(x as int, pow2(n) as int);
}


/// Whether a character is a decimal digit.
pub open spec fn is_digit(c: char) -> bool {
    48 <= c as u32 <= 57
}

/// The value of a decimal digit character.
pub open spec fn digit_val(c: char) -> nat
    recommends
        is_digit(c),
{
    (c as u32 - 48) as nat
}

/// Whether every character of a string is a decimal digit.
pub open spec fn all_digits(s: Seq<char>) -> bool {
    forall|i: int| 0 <= i < s.len() ==> is_digit(s[i])
}

/// The integer a string of decimal digits denotes.
pub open spec fn dec_val(s: Seq<char>) -> nat
    decreases s.len(),
{
    if s.len() == 0 {
        0
    } else {
        dec_val(s.drop_last()) * 10 + digit_val(s.last())
    }
}

/// Whether a string is a well-formed decimal constant: digits, or a minus
/// sign followed by digits.
pub open spec fn parse_ok(s: Seq<char>) -> bool {
    if s.len() > 0 && s[0] == '-' {
        s.len() > 1 && all_digits(s.skip(1))
    } else {
        s.len() > 0 && all_digits(s)
    }
}

/// The field value a decimal constant denotes: its integer reduced modulo
/// the prime, negated when the sign is present.
pub open spec fn parse_val(s: Seq<char>) -> nat
    recommends
        parse_ok(s),
{
    if s.len() > 0 && s[0] == '-' {
        sub_spec(0, dec_val(s.skip(1)) % p())
    } else {
        dec_val(s) % p()
    }
}

/// Parse a base-10 field constant, with an optional leading minus sign.
pub fn parse_field_element(s: &str) -> (r: Option<FieldElement>)
    ensures
        r is Some <==> parse_ok(s@),
        r matches Some(v) ==> v.wf() && v@ == parse_val(s@),
{
    let n: usize = s.unicode_len();
    if n == 0 {
        return None;
    }
    let first: char = s.get_char(0);
    let neg: bool = first == '-';
    let start: usize = if neg {
        1
    } else {
        0
    };
    if n == start {
        return None;
    }
    let mut acc = zero();
    let ten = from_u64(10);
    let mut i: usize = start;
    proof {
        assert(s@.subrange(start as int, start as int) =~= Seq::<char>::empty());
        lemma_small_mod(0, p());
    }
    while i < n
        invariant
            start <= i <= n,
            n == s@.len(),
            start == if neg { 1int } else { 0int },
            neg ==> s@[0] == '-',
            !neg ==> !(s@.len() > 0 && s@[0] == '-'),
            acc.wf(),
            ten.wf(),
            ten@ == 10,
            all_digits(s@.subrange(start as int, i as int)),
            acc@ == dec_val(s@.subrange(start as int, i as int)) % p(),
        decreases n - i,
    {
        let c: char = s.get_char(i);
        let u: u32 = c as u32;
        if u < 48 || u > 57 {
            proof {
                if neg {
                    assert(s@.skip(1)[i - 1] == s@[i as int]);
                    assert(!all_digits(s@.skip(1)));
                } else {
                    assert(!all_digits(s@));
                }
            }
            return None;
        }
        let d: u64 = (u - 48) as u64;
        let m = acc.mul(&ten);
        let dfe = from_u64(d);
        acc = m.add(&dfe);
        proof {
            let prev: Seq<char> = s@.subrange(start as int, i as int);
            let next: Seq<char> = s@.subrange(start as int, i as int + 1);
            assert(next.drop_last() =~= prev);
            assert(next.last() == s@[i as int]);
            assert(dec_val(next) == dec_val(prev) * 10 + digit_val(s@[i as int]));
            let dv: nat = dec_val(prev);
            lemma_mul_mod_noop_left(dv as int, 10, p() as int);
            assert(m@ == (dv * 10) % p());
            lemma_small_mod(d as nat, p());
            lemma_add_mod_noop(dv as int * 10, d as int, p() as int);
        }
        i = i + 1;
    }
    if neg {
        proof {
            assert(s@.subrange(1, n as int) =~= s@.skip(1));
        }
        let z = zero();
        Some(z.sub(&acc))
    } else {
        proof {
            assert(s@.subrange(0, n as int) =~= s@);
        }
        Some(acc)
    }
}


/// The little-endian encoding of a value in a given number of bytes.
pub open spec fn nat_le_bytes(v: nat, len: nat) -> Seq<u8> {
    Seq::new(len, |i: int| ((v / pow2((8 * i) as nat)) % 256) as u8)
}

/// A well-formed element's bytes are exactly the little-endian encoding of
/// its value.
pub proof fn lemma_canonical_bytes(x: FieldElement)
    requires
        x.wf(),
    ensures
        x.bytes@ =~= nat_le_bytes(x@, 32),
{
    lemma_le_nat_bytes(x.bytes@);
}

/// Each byte of a little-endian string is the matching base-256 digit of
/// its value.
pub proof fn lemma_le_nat_bytes(s: Seq<u8>)
    ensures
        forall|i: int|
            0 <= i < s.len() ==> #[trigger] s[i] == ((le_nat(s) / pow2((8 * i) as nat))
                % 256) as u8,
{
    assert forall|i: int|
        0 <= i < s.len() implies #[trigger] s[i] == ((le_nat(s) / pow2((8 * i) as nat))
        % 256) as u8 by {
        lemma_le_nat_split(s, i);
        lemma_le_nat_bound(s.take(i));
        lemma_pow2_pos((8 * i) as nat);
        assert(s.take(i).len() == i);
        let a: nat = le_nat(s.take(i));
        let b: nat = le_nat(s.skip(i));
        let q: nat = pow2((8 * i) as nat);
        lemma_div_multiples_vanish_fancy(b as int, a as int, q as int);
        assert((q * b + a) as int / q as int == b as int);
        assert(le_nat(s) == a + q * b);
        assert(le_nat(s) as int / q as int == b as int);
        assert(s.skip(i)[0] == s[i]);
        assert(b == s[i] as nat + 256 * le_nat(s.skip(i).skip(1)));
        lemma_mod_multiples_vanish(le_nat(s.skip(i).skip(1)) as int, s[i] as int, 256);
        lemma_small_mod(s[i] as nat, 256);
        assert(b % 256 == s[i] as nat);
        assert((le_nat(s) / pow2((8 * i) as nat)) % 256 == s[i] as nat);
    }
}


/// Whether two field elements are the same value: canonical encodings are
/// equal exactly when the values are.
pub fn equals(a: &FieldElement, b: &FieldElement) -> (r: bool)
    requires
        a.wf(),
        b.wf(),
    ensures
        r == (a@ == b@),
{
    let mut i: usize = 0;
    while i < 32
        invariant
            0 <= i <= 32,
            a.wf(),
            b.wf(),
            forall|j: int| 0 <= j < i ==> a.bytes@[j] == b.bytes@[j],
        decreases 32 - i,
    {
        if a.bytes[i] != b.bytes[i] {
            proof {
                lemma_canonical_bytes(*a);
                lemma_canonical_bytes(*b);
                if a@ == b@ {
                    assert(a.bytes@[i as int] == b.bytes@[i as int]);
                }
            }
            return false;
        }
        i = i + 1;
    }
    proof {
        assert(a.bytes@ =~= b.bytes@);
    }
    true
}

/// The value of two to the 256th power, reduced modulo the prime.
pub proof fn lemma_r_value()
    ensures
        pow2(256) % p()
            == 28948022309329048855892746252171976963180815219815881891593553714863226748925nat,
        pow2(256) % p() != 0,
{
    lemma2_to64();
    lemma2_to64_rest();
    lemma_pow2_adds(64, 64);
    lemma_pow2_adds(128, 64);
    lemma_pow2_adds(192, 64);
    assert(pow2(256)
        == 115792089237316195423570985008687907853269984665640564039457584007913129639936nat);
    lemma_fundamental_div_mod_converse_mod(
        pow2(256) as int,
        p() as int,
        3,
        28948022309329048855892746252171976963180815219815881891593553714863226748925int,
    );
}

/// Multiplication by an invertible value is injective: two canonical values
/// with the same product against it are the same value.
pub proof fn lemma_mul_cancel(n: nat, d: nat, r: nat, w: nat)
    requires
        n < p(),
        d < p(),
        mul_spec(r, w) == 1,
        mul_spec(d, r) == mul_spec(n, r),
    ensures
        d == n,
{
    lemma_mul_mod_assoc(d, r, w);
    lemma_mul_mod_assoc(n, r, w);
    assert(mul_spec(d, mul_spec(r, w)) == mul_spec(mul_spec(d, r), w));
    assert(mul_spec(n, mul_spec(r, w)) == mul_spec(mul_spec(n, r), w));
    assert(mul_spec(d, 1) == mul_spec(n, 1));
    assert(d * 1 == d) by (nonlinear_arith);
    assert(n * 1 == n) by (nonlinear_arith);
    lemma_small_mod(d, p());
    lemma_small_mod(n, p());
}

/// Modular multiplication is associative.
pub proof fn lemma_mul_mod_assoc(a: nat, b: nat, c: nat)
    ensures
        mul_spec(mul_spec(a, b), c) == mul_spec(a, mul_spec(b, c)),
{
    let m: int = p() as int;
    lemma_mul_mod_noop_left((a * b) as int, c as int, m);
    lemma_mul_mod_noop_right(a as int, (b * c) as int, m);
    assert((a * b) * c == a * (b * c)) by (nonlinear_arith);
}

} // verus!
