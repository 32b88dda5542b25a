//! Decimal digit sequences: their values, their numerals, and adding one.
use vstd::prelude::*;
use crate::models::{digits_value, pow10};
use crate::text::push_char;

verus! {

/// Every element is a decimal digit.
pub open spec fn all_digits(d: Seq<u8>) -> bool {
    forall|i: int| 0 <= i < d.len() ==> d[i] < 10
}

pub open spec fn digit_char(d: nat) -> char {
    "0123456789"@[d as int]
}

/// The decimal numeral of `n`, without leading zeros.
pub open spec fn nat_text(n: nat) -> Seq<char>
    decreases n,
{
    if n < 10 {
        seq![digit_char(n)]
    } else {
        nat_text(n / 10).push(digit_char(n % 10))
    }
}

/// The digits of `d` as text.
pub open spec fn digits_text(d: Seq<u8>) -> Seq<char> {
    d.map_values(|x: u8| digit_char(x as nat))
}

/// `d` without leading zeros, keeping at least one digit.
pub open spec fn strip_zeros(d: Seq<u8>) -> Seq<u8>
    decreases d.len(),
{
    if d.len() > 1 && d[0] == 0 {
        strip_zeros(d.subrange(1, d.len() as int))
    } else {
        d
    }
}

pub proof fn lemma_value_concat(a: Seq<u8>, b: Seq<u8>)
    ensures
        digits_value(a + b) == digits_value(a) * pow10(b.len()) + digits_value(b),
    decreases b.len(),
{
    if b.len() == 0 {
        assert(a + b =~= a);
        assert(digits_value(b) == 0);
        assert(pow10(b.len()) == 1);
        assert(digits_value(a) * 1 == digits_value(a));
    } else {
        let bp = b.drop_last();
        lemma_value_concat(a, bp);
        assert((a + b).drop_last() =~= a + bp);
        assert((a + b).last() == b.last());
        let va = digits_value(a);
        let pp = pow10(bp.len());
        let vb = digits_value(bp);
        assert(pow10(b.len()) == 10 * pp);
        assert(digits_value(a + b) == digits_value(a + bp) * 10 + b.last());
        assert(digits_value(b) == vb * 10 + b.last());
        assert((va * pp + vb) * 10 + b.last() == va * (10 * pp) + (vb * 10 + b.last()))
            by (nonlinear_arith);
    }
}

pub proof fn lemma_value_nines(d: Seq<u8>)
    requires
        forall|i: int| 0 <= i < d.len() ==> d[i] == 9,
    ensures
        digits_value(d) + 1 == pow10(d.len()),
    decreases d.len(),
{
    if d.len() > 0 {
        lemma_value_nines(d.drop_last());
    }
}

pub proof fn lemma_value_zeros(d: Seq<u8>)
    requires
        forall|i: int| 0 <= i < d.len() ==> d[i] == 0,
    ensures
        digits_value(d) == 0,
    decreases d.len(),
{
    if d.len() > 0 {
        lemma_value_zeros(d.drop_last());
    }
}

pub proof fn lemma_value_at_least_first(d: Seq<u8>)
    requires
        d.len() > 0,
    ensures
        digits_value(d) >= d[0],
    decreases d.len(),
{
    if d.len() > 1 {
        lemma_value_at_least_first(d.drop_last());
    } else {
        assert(d.drop_last().len() == 0);
    }
}

/// Stripping leading zeros keeps the value and leaves a numeral with no
/// leading zero.
pub proof fn lemma_strip_zeros(d: Seq<u8>)
    requires
        d.len() > 0,
        all_digits(d),
    ensures
        digits_value(strip_zeros(d)) == digits_value(d),
        strip_zeros(d).len() > 0,
        strip_zeros(d).len() == 1 || strip_zeros(d)[0] != 0,
        all_digits(strip_zeros(d)),
    decreases d.len(),
{
    if d.len() > 1 && d[0] == 0 {
        let rest = d.subrange(1, d.len() as int);
        assert(d =~= seq![0u8] + rest);
        lemma_value_concat(seq![0u8], rest);
        assert(seq![0u8].drop_last() =~= Seq::<u8>::empty());
        reveal_with_fuel(digits_value, 2);
        assert(digits_value(seq![0u8]) == 0);
        lemma_strip_zeros(rest);
    }
}

/// A numeral without leading zeros reads as its value.
pub proof fn lemma_numeral(d: Seq<u8>)
    requires
        d.len() > 0,
        all_digits(d),
        d.len() == 1 || d[0] != 0,
    ensures
        nat_text(digits_value(d)) == digits_text(d),
    decreases d.len(),
{
    let dp = d.drop_last();
    if d.len() == 1 {
        assert(dp.len() == 0);
        assert(digits_value(dp) == 0);
        assert(digits_value(d) == d[0]);
        assert(digits_text(d) =~= seq![digit_char(d[0] as nat)]);
    } else {
        lemma_numeral(dp);
        lemma_value_at_least_first(dp);
        let v = digits_value(dp);
        let n = digits_value(d);
        assert(n == v * 10 + d.last());
        assert(n / 10 == v && n % 10 == d.last()) by (nonlinear_arith)
            requires
                n == v * 10 + d.last(),
                d.last() < 10,
        ;
        assert(n >= 10);
        assert(digits_text(d) =~= digits_text(dp).push(digit_char(d.last() as nat)));
    }
}

/// The digits of a value one greater.
pub fn increment(d: &Vec<u8>) -> (r: Vec<u8>)
    requires
        all_digits(d@),
    ensures
        all_digits(r@),
        r@.len() > 0,
        digits_value(r@) == digits_value(d@) + 1,
{
    let n = d.len();
    let mut i = n;
    while i > 0 && d[i - 1] == 9
        invariant
            i <= n == d@.len(),
            forall|k: int| i <= k < n ==> d@[k] == 9,
        decreases i,
    {
        i -= 1;
    }
    let mut r: Vec<u8> = Vec::new();
    if i == 0 {
        r.push(1);
    } else {
        let mut k: usize = 0;
        while k < i - 1
            invariant
                0 < i <= n == d@.len(),
                k <= i - 1,
                r@ == d@.subrange(0, k as int),
            decreases i - 1 - k,
        {
            r.push(d[k]);
            k += 1;
            assert(r@ =~= d@.subrange(0, k as int));
        }
        r.push(d[i - 1] + 1);
    }
    let ghost pre = r@;
    let mut k = i;
    while k < n
        invariant
            i <= k <= n == d@.len(),
            r@.len() == pre.len() + (k - i),
            r@.subrange(0, pre.len() as int) == pre,
            forall|j: int| pre.len() <= j < r@.len() ==> r@[j] == 0,
        decreases n - k,
    {
        r.push(0);
        k += 1;
    }
    proof {
        let p = pow10((n - i) as nat);
        let zeros = r@.subrange(pre.len() as int, r@.len() as int);
        let nines = d@.subrange(i as int, n as int);
        assert(r@ =~= pre + zeros);
        lemma_value_concat(pre, zeros);
        lemma_value_zeros(zeros);
        assert(d@ =~= d@.subrange(0, i as int) + nines);
        lemma_value_concat(d@.subrange(0, i as int), nines);
        lemma_value_nines(nines);
        if i == 0 {
            assert(pre =~= seq![1u8]);
            assert(seq![1u8].drop_last() =~= Seq::<u8>::empty());
            reveal_with_fuel(digits_value, 2);
            assert(digits_value(pre) == 1);
            assert(digits_value(d@.subrange(0, 0)) == 0);
        } else {
            let head = d@.subrange(0, i as int);
            assert(head.drop_last() =~= d@.subrange(0, i - 1));
            assert(pre.drop_last() =~= d@.subrange(0, i - 1));
            assert(digits_value(pre) == digits_value(head) + 1);
            let x = digits_value(head);
            assert((x + 1) * p == x * p + p) by (nonlinear_arith);
            assert(digits_value(r@) == (x + 1) * p);
            assert(digits_value(d@) == x * p + p - 1);
        }
    }
    r
}

/// A copy of the digits `d`, or `0` where `d` is empty.
pub fn digits_or_zero(d: &Vec<u8>) -> (r: Vec<u8>)
    requires
        all_digits(d@),
    ensures
        all_digits(r@),
        r@.len() > 0,
        digits_value(r@) == digits_value(d@),
{
    let mut r: Vec<u8> = Vec::new();
    if d.len() == 0 {
        r.push(0);
        assert(r@.drop_last() =~= Seq::<u8>::empty());
        assert(digits_value(r@.drop_last()) == 0);
        return r;
    }
    let mut k: usize = 0;
    while k < d.len()
        invariant
            k <= d@.len(),
            r@ == d@.subrange(0, k as int),
        decreases d@.len() - k,
    {
        r.push(d[k]);
        k += 1;
        assert(r@ =~= d@.subrange(0, k as int));
    }
    assert(r@ =~= d@);
    r
}

pub fn push_digit(s: &mut String, d: usize)
    requires
        d < 10,
    ensures
        final(s)@ == old(s)@.push(digit_char(d as nat)),
{
    let digits = "0123456789";
    proof {
        reveal_strlit("0123456789");
    }
    push_char(s, digits.get_char(d));
}

pub fn push_nat(s: &mut String, n: usize)
    ensures
        final(s)@ == old(s)@ + nat_text(n as nat),
    decreases n,
{
    let ghost start = s@;
    if n >= 10 {
        push_nat(s, n / 10);
    }
    push_digit(s, n % 10);
    assert(s@ =~= start + nat_text(n as nat));
}

pub fn push_digits(s: &mut String, d: &Vec<u8>, from: usize)
    requires
        from <= d@.len(),
        all_digits(d@),
    ensures
        final(s)@ == old(s)@ + digits_text(d@.subrange(from as int, d@.len() as int)),
{
    let ghost start = s@;
    let mut i = from;
    while i < d.len()
        invariant
            from <= i <= d@.len(),
            all_digits(d@),
            s@ == start + digits_text(d@.subrange(from as int, i as int)),
        decreases d@.len() - i,
    {
        push_digit(s, d[i] as usize);
        i += 1;
        assert(s@ =~= start + digits_text(d@.subrange(from as int, i as int)));
    }
}

/// Index of the first digit of `d` once leading zeros are stripped.
pub fn first_kept_digit(d: &Vec<u8>) -> (r: usize)
    requires
        d@.len() > 0,
    ensures
        r < d@.len(),
        strip_zeros(d@) == d@.subrange(r as int, d@.len() as int),
{
    let mut i: usize = 0;
    assert(d@.subrange(0, d@.len() as int) =~= d@);
    while i < d.len() - 1 && d[i] == 0
        invariant
            i < d@.len(),
            strip_zeros(d@.subrange(i as int, d@.len() as int)) == strip_zeros(d@),
        decreases d@.len() - i,
    {
        let ghost rest = d@.subrange(i as int, d@.len() as int);
        assert(rest.subrange(1, rest.len() as int) =~= d@.subrange(i + 1, d@.len() as int));
        i += 1;
    }
    i
}

/// Appends the numeral of the value of `d`, without leading zeros.
pub fn push_value(s: &mut String, d: &Vec<u8>)
    requires
        d@.len() > 0,
        all_digits(d@),
    ensures
        final(s)@ == old(s)@ + nat_text(digits_value(d@)),
{
    let k = first_kept_digit(d);
    push_digits(s, d, k);
    proof {
        lemma_strip_zeros(d@);
        lemma_numeral(strip_zeros(d@));
    }
}

} // verus!
