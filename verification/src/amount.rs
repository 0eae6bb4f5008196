//! Amounts of ecash and their split into keyset denominations.

use vstd::arithmetic::div_mod::{lemma_mod_breakdown, lemma_small_mod};
use vstd::arithmetic::power2::{lemma2_to64, lemma2_to64_rest, lemma_pow2_pos, lemma_pow2_strictly_increases, lemma_pow2_unfold, pow2};
use vstd::prelude::*;

verus! {

/// An amount of ecash in the smallest unit of its currency.
#[derive(Clone, Copy, Debug, PartialEq, Eq, Structural, PartialOrd, Ord, Hash)]
pub struct Amount(pub u64);

/// Why an amount could not be computed.
#[derive(Clone, Copy, Debug, PartialEq, Eq, Structural)]
pub enum Error {
    /// A sum does not fit in 64 bits.
    AmountOverflow,
    /// The values of a split target add up to more than the amount.
    SplitValuesGreater,
    /// A part of the split is no denomination of the keyset.
    InvalidDenomination,
}

impl Error {
    /// The message of the error.
    pub fn to_string(&self) -> (s: String)
        ensures
            s@ == match *self {
                Error::AmountOverflow => "Amount Overflow"@,
                Error::SplitValuesGreater => "Split Values must be less then or equal to amount"@,
                Error::InvalidDenomination => "Amount is not a denomination of the keyset"@,
            },
    {
        match self {
            Error::AmountOverflow => "Amount Overflow".to_owned(),
            Error::SplitValuesGreater => "Split Values must be less then or equal to amount".to_owned(),
            Error::InvalidDenomination => "Amount is not a denomination of the keyset".to_owned(),
        }
    }
}

/// How an amount is to be split into parts.
#[derive(Debug, PartialEq, Eq)]
pub enum SplitTarget {
    /// The fewest parts: one for each bit that is set.
    NoTarget,
    /// As many parts of this value as fit, the rest in the fewest parts.
    Value(Amount),
    /// These values first, the rest in the fewest parts.
    Values(Vec<Amount>),
}

impl Default for SplitTarget {
    fn default() -> (t: SplitTarget)
        ensures
            t == SplitTarget::NoTarget,
    {
        SplitTarget::NoTarget
    }
}

/// The fee rate of a keyset and the denominations it has keys for.
#[derive(Debug, PartialEq, Eq)]
pub struct FeeAndAmounts {
    /// Fee in parts per thousand input proofs.
    pub fee: u64,
    /// The denominations of the keyset.
    pub amounts: Vec<u64>,
}

/// The sum of a sequence of amounts, unbounded.
pub open spec fn total(s: Seq<Amount>) -> nat
    decreases s.len(),
{
    if s.len() == 0 {
        0
    } else {
        total(s.drop_last()) + s.last().0 as nat
    }
}

/// `v` is one of 1, 2, 4, ..., 2^63.
pub open spec fn is_power_of_two(v: u64) -> bool {
    exists|k: nat| k < 64 && v as nat == #[trigger] pow2(k)
}

/// Each part is a power of two and each is smaller than the one before it.
pub open spec fn is_binary_split(s: Seq<Amount>) -> bool {
    &&& forall|i: int| 0 <= i < s.len() ==> is_power_of_two(#[trigger] s[i].0)
    &&& forall|i: int, j: int| 0 <= i < j < s.len() ==> s[i].0 > s[j].0
}

/// The powers of two that make up `v` modulo 2^`bit`, the largest first: one
/// for each bit below `bit` that is set in `v`.
pub open spec fn parts_below(v: nat, bit: nat) -> Seq<Amount>
    decreases bit,
{
    if bit == 0 {
        Seq::empty()
    } else {
        let part = pow2((bit - 1) as nat);
        let rest = parts_below(v, (bit - 1) as nat);
        if (v / part) % 2 == 1 {
            seq![Amount(part as u64)] + rest
        } else {
            rest
        }
    }
}

/// The powers of two that make up `v`, the largest first.
pub open spec fn split_parts(v: u64) -> Seq<Amount> {
    parts_below(v as nat, 64)
}

/// The parts that a split target asks for, before they are held against the
/// denominations of a keyset.
pub open spec fn targeted_parts(amount: Amount, target: SplitTarget) -> Result<Seq<Amount>, Error> {
    match target {
        SplitTarget::NoTarget => Ok(split_parts(amount.0)),
        SplitTarget::Value(value) => if amount.0 <= value.0 || value.0 == 0 {
            Ok(split_parts(amount.0))
        } else {
            Ok(
                repeat(split_parts(value.0), (amount.0 / value.0) as nat) + split_parts(
                    (amount.0 % value.0) as u64,
                ),
            )
        },
        SplitTarget::Values(values) => if total(values@) > u64::MAX {
            Err(Error::AmountOverflow)
        } else if total(values@) > amount.0 {
            Err(Error::SplitValuesGreater)
        } else {
            Ok(values@ + split_parts((amount.0 - total(values@)) as u64))
        },
    }
}

/// `count` copies of `s`, one after the other.
pub open spec fn repeat(s: Seq<Amount>, count: nat) -> Seq<Amount>
    decreases count,
{
    if count == 0 {
        Seq::empty()
    } else {
        repeat(s, (count - 1) as nat) + s
    }
}

/// `a` is among the denominations `amounts`.
pub open spec fn is_denomination(amounts: Seq<u64>, a: Amount) -> bool {
    exists|i: int| 0 <= i < amounts.len() && amounts[i] == a.0
}

/// Every part of `s` is among the denominations `amounts`.
pub open spec fn all_denominations(amounts: Seq<u64>, s: Seq<Amount>) -> bool {
    forall|i: int| 0 <= i < s.len() ==> is_denomination(amounts, #[trigger] s[i])
}

/// The sum of a sequence grows by the part that is appended.
pub proof fn lemma_total_push(s: Seq<Amount>, a: Amount)
    ensures
        total(s.push(a)) == total(s) + a.0 as nat,
{
    assert(s.push(a).drop_last() =~= s);
}

/// The sum of two sequences joined is the sum of their sums.
pub proof fn lemma_total_concat(a: Seq<Amount>, b: Seq<Amount>)
    ensures
        total(a + b) == total(a) + total(b),
    decreases b.len(),
{
    if b.len() == 0 {
        assert(a + b =~= a);
    } else {
        lemma_total_concat(a, b.drop_last());
        assert((a + b).drop_last() =~= a + b.drop_last());
    }
}

/// The sum of `count` copies is `count` times the sum of one.
pub proof fn lemma_total_repeat(s: Seq<Amount>, count: nat)
    ensures
        total(repeat(s, count)) == count * total(s),
    decreases count,
{
    if count > 0 {
        lemma_total_repeat(s, (count - 1) as nat);
        lemma_total_concat(repeat(s, (count - 1) as nat), s);
        assert(count * total(s) == (count - 1) * total(s) + total(s)) by (nonlinear_arith);
    } else {
        assert(0 * total(s) == 0) by (nonlinear_arith);
    }
}

impl Amount {
    /// The amount that holds nothing.
    pub fn zero() -> (a: Amount)
        ensures
            a == Amount(0),
    {
        Amount(0)
    }

    /// The number of units of this amount.
    pub fn to_u64(&self) -> (v: u64)
        ensures
            v == self.0,
    {
        self.0
    }

    /// The sum of two amounts, or `None` where it does not fit in 64 bits.
    pub fn checked_add(self, other: Amount) -> (r: Option<Amount>)
        ensures
            self.0 + other.0 <= u64::MAX ==> r == Some(Amount((self.0 + other.0) as u64)),
            self.0 + other.0 > u64::MAX ==> r.is_none(),
    {
        match self.0.checked_add(other.0) {
            Some(v) => Some(Amount(v)),
            None => None,
        }
    }

    /// The sum of all amounts in `amounts`, or the overflow error where it does
    /// not fit in 64 bits.
    pub fn try_sum(amounts: &Vec<Amount>) -> (r: Result<Amount, Error>)
        ensures
            total(amounts@) <= u64::MAX ==> r == Ok::<Amount, Error>(Amount(total(amounts@) as u64)),
            total(amounts@) > u64::MAX ==> r == Err::<Amount, Error>(Error::AmountOverflow),
    {
        let mut sum: u64 = 0;
        let mut i: usize = 0;
        while i < amounts.len()
            invariant
                i <= amounts.len(),
                sum as nat == total(amounts@.take(i as int)),
            decreases amounts.len() - i,
        {
            proof {
                lemma_total_prefix(amounts@, i + 1);
            }
            match sum.checked_add(amounts[i].0) {
                Some(v) => {
                    sum = v;
                },
                None => {
                    return Err(Error::AmountOverflow);
                },
            }
            i = i + 1;
        }
        proof {
            assert(amounts@.take(i as int) =~= amounts@);
        }
        Ok(Amount(sum))
    }

    /// The amount in the fewest parts: one power of two for each bit that is
    /// set, the largest first.
    pub fn split(&self) -> (parts: Vec<Amount>)
        ensures
            parts@ == split_parts(self.0),
            is_binary_split(parts@),
            total(parts@) == self.0,
    {
        let mut parts: Vec<Amount> = Vec::new();
        let mut part: u64 = 0x8000_0000_0000_0000;
        let mut bit: u64 = 64;
        proof {
            lemma2_to64_rest();
        }
        while bit > 0
            invariant
                bit <= 64,
                bit > 0 ==> part as nat == pow2((bit - 1) as nat),
                parts@ + parts_below(self.0 as nat, bit as nat) == split_parts(self.0),
            decreases bit,
        {
            proof {
                if bit > 1 {
                    lemma_pow2_unfold((bit - 1) as nat);
                }
                lemma_pow2_pos((bit - 1) as nat);
            }
            if (self.0 / part) % 2 == 1 {
                proof {
                    let rest = parts_below(self.0 as nat, (bit - 1) as nat);
                    assert(parts@.push(Amount(part)) + rest =~= parts@ + (seq![Amount(part)] + rest));
                }
                parts.push(Amount(part));
            }
            bit = bit - 1;
            part = part / 2;
        }
        proof {
            assert(parts@ + Seq::<Amount>::empty() =~= parts@);
            lemma_split_parts(self.0);
        }
        parts
    }

    /// The amount in parts as `target` asks, each part a denomination of the
    /// keyset.
    ///
    /// Without a target these are the parts of [`Amount::split`]. With a target
    /// value no smaller than the amount, or of zero, likewise; with a smaller
    /// one, the parts of the target value as often as it fits, then those of the
    /// rest. With target values, those values, then the parts of the rest.
    pub fn split_targeted(&self, target: &SplitTarget, fee_and_amounts: &FeeAndAmounts) -> (r: Result<
        Vec<Amount>,
        Error,
    >)
        ensures
            match targeted_parts(*self, *target) {
                Err(e) => r == Err::<Vec<Amount>, Error>(e),
                Ok(parts) => if all_denominations(fee_and_amounts.amounts@, parts) {
                    r matches Ok(v) && v@ == parts
                } else {
                    r == Err::<Vec<Amount>, Error>(Error::InvalidDenomination)
                },
            },
            r matches Ok(v) ==> total(v@) == self.0,
    {
        let parts: Vec<Amount> = match target {
            SplitTarget::NoTarget => self.split(),
            SplitTarget::Value(value) => {
                if self.0 <= value.0 || value.0 == 0 {
                    self.split()
                } else {
                    let of_value: Vec<Amount> = value.split();
                    let count: u64 = self.0 / value.0;
                    let left: u64 = self.0 % value.0;
                    let mut parts: Vec<Amount> = Vec::new();
                    let mut n: u64 = 0;
                    while n < count
                        invariant
                            n <= count,
                            parts@ == repeat(of_value@, n as nat),
                        decreases count - n,
                    {
                        append_all(&mut parts, &of_value);
                        n = n + 1;
                    }
                    let tail: Vec<Amount> = Amount(left).split();
                    proof {
                        lemma_total_repeat(of_value@, count as nat);
                        lemma_total_concat(parts@, tail@);
                        assert(count * value.0 + left == self.0) by (nonlinear_arith)
                            requires
                                count == self.0 / value.0,
                                left == self.0 % value.0,
                                value.0 > 0,
                        ;
                    }
                    append_all(&mut parts, &tail);
                    parts
                }
            },
            SplitTarget::Values(values) => {
                let given: Amount = match Amount::try_sum(values) {
                    Ok(sum) => sum,
                    Err(e) => {
                        return Err(e);
                    },
                };
                if self.0 < given.0 {
                    return Err(Error::SplitValuesGreater);
                }
                let mut parts: Vec<Amount> = Vec::new();
                append_all(&mut parts, values);
                let tail: Vec<Amount> = Amount(self.0 - given.0).split();
                proof {
                    assert(Seq::<Amount>::empty() + values@ =~= values@);
                    lemma_total_concat(parts@, tail@);
                }
                append_all(&mut parts, &tail);
                parts
            },
        };
        if all_in(&parts, &fee_and_amounts.amounts) {
            Ok(parts)
        } else {
            Err(Error::InvalidDenomination)
        }
    }
}

impl From<u64> for Amount {
    fn from(value: u64) -> (a: Amount) {
        Amount(value)
    }
}

impl vstd::std_specs::convert::FromSpecImpl<u64> for Amount {
    open spec fn obeys_from_spec() -> bool {
        true
    }

    open spec fn from_spec(value: u64) -> Amount {
        Amount(value)
    }
}

/// The parts of a 64-bit value are powers of two, each smaller than the one
/// before it, and add up to the value.
pub proof fn lemma_split_parts(v: u64)
    ensures
        is_binary_split(split_parts(v)),
        total(split_parts(v)) == v,
{
    lemma_parts_below(v as nat, 64);
    lemma2_to64_rest();
    lemma_small_mod(v as nat, pow2(64));
}

/// The parts below a bit are powers of two under 2^`bit`, each smaller than
/// the one before it, and add up to the value modulo 2^`bit`.
proof fn lemma_parts_below(v: nat, bit: nat)
    requires
        bit <= 64,
    ensures
        forall|i: int|
            0 <= i < parts_below(v, bit).len() ==> is_power_of_two(#[trigger] parts_below(v, bit)[i].0)
                && (parts_below(v, bit)[i].0 as nat) < pow2(bit),
        forall|i: int, j: int|
            0 <= i < j < parts_below(v, bit).len() ==> parts_below(v, bit)[i].0 > parts_below(
                v,
                bit,
            )[j].0,
        total(parts_below(v, bit)) == v % pow2(bit),
    decreases bit,
{
    lemma2_to64();
    if bit == 0 {
        assert(v % 1 == 0);
    } else {
        let low = (bit - 1) as nat;
        let part = pow2(low);
        let rest = parts_below(v, low);
        lemma_parts_below(v, low);
        lemma_pow2_unfold(bit);
        lemma_pow2_pos(low);
        lemma_pow2_strictly_increases(low, 64);
        lemma2_to64_rest();
        lemma_mod_breakdown(v as int, part as int, 2);
        assert(pow2(bit) == part * 2);
        assert(v % pow2(bit) == part * ((v / part) % 2) + v % part);
        if (v / part) % 2 == 1 {
            let all = seq![Amount(part as u64)] + rest;
            assert(all == parts_below(v, bit));
            lemma_total_concat(seq![Amount(part as u64)], rest);
            lemma_total_push(Seq::empty(), Amount(part as u64));
            assert(Seq::<Amount>::empty().push(Amount(part as u64)) =~= seq![Amount(part as u64)]);
            assert(is_power_of_two(part as u64)) by {
                assert(low < 64 && part as u64 as nat == pow2(low));
            }
            assert forall|i: int| 0 <= i < all.len() implies is_power_of_two(#[trigger] all[i].0) && (
            all[i].0 as nat) < pow2(bit) by {
                if i > 0 {
                    assert(all[i] == rest[i - 1]);
                }
            }
            assert forall|i: int, j: int| 0 <= i < j < all.len() implies all[i].0 > all[j].0 by {
                assert(all[j] == rest[j - 1]);
                if i > 0 {
                    assert(all[i] == rest[i - 1]);
                }
            }
        } else {
            assert((v / part) % 2 == 0);
            assert(part * 0 == 0);
        }
    }
}

/// The sum of a prefix is the sum of the shorter prefix and the part after it.
proof fn lemma_total_prefix(s: Seq<Amount>, n: int)
    requires
        0 < n <= s.len(),
    ensures
        total(s.take(n)) == total(s.take(n - 1)) + s[n - 1].0 as nat,
        total(s.take(n)) <= total(s),
    decreases s.len() - n,
{
    assert(s.take(n).drop_last() =~= s.take(n - 1));
    if n < s.len() {
        lemma_total_prefix(s, n + 1);
    } else {
        assert(s.take(n) =~= s);
    }
}

/// Appends a copy of each part of `src` to `dst`.
fn append_all(dst: &mut Vec<Amount>, src: &Vec<Amount>)
    ensures
        final(dst)@ == old(dst)@ + src@,
{
    let mut i: usize = 0;
    while i < src.len()
        invariant
            i <= src.len(),
            dst@ == old(dst)@ + src@.take(i as int),
        decreases src.len() - i,
    {
        proof {
            assert(src@.take(i + 1) =~= src@.take(i as int).push(src@[i as int]));
        }
        dst.push(src[i]);
        i = i + 1;
    }
    proof {
        assert(src@.take(i as int) =~= src@);
    }
}

/// Whether every part is among the denominations.
fn all_in(parts: &Vec<Amount>, amounts: &Vec<u64>) -> (r: bool)
    ensures
        r == all_denominations(amounts@, parts@),
{
    let mut i: usize = 0;
    while i < parts.len()
        invariant
            i <= parts.len(),
            forall|k: int| 0 <= k < i ==> is_denomination(amounts@, #[trigger] parts@[k]),
        decreases parts.len() - i,
    {
        let mut j: usize = 0;
        let mut found: bool = false;
        while j < amounts.len()
            invariant
                j <= amounts.len(),
                i < parts.len(),
                found ==> is_denomination(amounts@, parts@[i as int]),
                !found ==> forall|k: int| 0 <= k < j ==> amounts@[k] != parts@[i as int].0,
            decreases amounts.len() - j,
        {
            if amounts[j] == parts[i].0 {
                found = true;
            }
            j = j + 1;
        }
        if !found {
            assert(!is_denomination(amounts@, parts@[i as int]));
            return false;
        }
        i = i + 1;
    }
    true
}

} // verus!
