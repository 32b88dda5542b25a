//! The missing-field detector and the routing decision list.
use vstd::prelude::*;
use crate::models::{digits_value, opt_amount, pow10, Amount, DecimalView, FnolData, FnolRecord};
use crate::decimal::{digit_char, digits_or_zero, increment, nat_text, push_digit, push_nat, push_value};
use crate::text::{chars_of, contains, contains_text, lower_of, lowercase, owned, push_text};

verus! {

/// The display names of a list of strings.
pub open spec fn names_of(s: Seq<String>) -> Seq<Seq<char>> {
    s.map_values(|x: String| x@)
}

/// `name`, once, where the field `o` is absent.
pub open spec fn if_absent<T>(o: Option<T>, name: Seq<char>) -> Seq<Seq<char>> {
    if o is None {
        seq![name]
    } else {
        Seq::empty()
    }
}

/// The display names of the absent mandatory fields of `d`, in the fixed
/// order policy number, policyholder name, incident date, location,
/// description, estimated damage, claim type.
pub open spec fn missing_names(d: FnolRecord) -> Seq<Seq<char>> {
    if_absent(d.policy_number, "Policy Number"@) + if_absent(
        d.policyholder_name,
        "Policyholder Name"@,
    ) + if_absent(d.incident_date, "Incident Date"@) + if_absent(d.location, "Location"@)
        + if_absent(d.description, "Description"@) + if_absent(
        d.estimated_damage,
        "Estimated Damage"@,
    ) + if_absent(d.claim_type, "Claim Type"@)
}

fn push_name(v: &mut Vec<String>, absent: bool, name: &str)
    ensures
        names_of(final(v)@) == names_of(old(v)@) + if absent {
            seq![name@]
        } else {
            Seq::<Seq<char>>::empty()
        },
{
    if absent {
        v.push(owned(name));
        assert(names_of(v@) =~= names_of(old(v)@) + seq![name@]);
    } else {
        assert(names_of(v@) =~= names_of(old(v)@) + Seq::<Seq<char>>::empty());
    }
}

/// The display names of the mandatory fields that `data` lacks, in the fixed
/// declaration order.
pub fn find_missing_fields(data: &FnolData) -> (r: Vec<String>)
    ensures
        names_of(r@) == missing_names(data@),
{
    let mut v: Vec<String> = Vec::new();
    assert(names_of(v@) =~= Seq::<Seq<char>>::empty());
    push_name(&mut v, data.policy_number.is_none(), "Policy Number");
    push_name(&mut v, data.policyholder_name.is_none(), "Policyholder Name");
    push_name(&mut v, data.incident_date.is_none(), "Incident Date");
    push_name(&mut v, data.location.is_none(), "Location");
    push_name(&mut v, data.description.is_none(), "Description");
    push_name(&mut v, data.estimated_damage.is_none(), "Estimated Damage");
    push_name(&mut v, data.claim_type.is_none(), "Claim Type");
    assert(names_of(v@) =~= missing_names(data@));
    v
}

/// The names joined with `", "`.
pub open spec fn join(s: Seq<Seq<char>>) -> Seq<char>
    decreases s.len(),
{
    if s.len() == 0 {
        Seq::empty()
    } else if s.len() == 1 {
        s[0]
    } else {
        join(s.drop_last()) + ", "@ + s.last()
    }
}

/// The `i`-th digit after the decimal point, zero where none is written.
pub open spec fn frac_digit(d: DecimalView, i: int) -> u8 {
    if i < d.frac.len() {
        d.frac[i]
    } else {
        0
    }
}

/// The amount in hundredths, rounded to the nearest; a half rounds up.
pub open spec fn rounded_cents(d: DecimalView) -> nat {
    digits_value(d.whole) * 100 + frac_digit(d, 0) as nat * 10 + frac_digit(d, 1) as nat + if frac_digit(d, 2) >= 5 {
        1nat
    } else {
        0nat
    }
}

/// The amount with two places after the decimal point, rounded to the
/// nearest hundredth; the whole part has no leading zeros.
pub open spec fn two_places(d: DecimalView) -> Seq<char> {
    let c = rounded_cents(d);
    nat_text(c / 100) + "."@ + seq![digit_char((c % 100) / 10), digit_char(c % 10)]
}

/// The fraud indicators, in the order they are tested.
pub open spec fn fraud_keyword_in(lowered: Seq<char>) -> Option<Seq<char>> {
    if contains(lowered, "fraud"@) {
        Some("fraud"@)
    } else if contains(lowered, "staged"@) {
        Some("staged"@)
    } else if contains(lowered, "inconsistent"@) {
        Some("inconsistent"@)
    } else if contains(lowered, "suspicious"@) {
        Some("suspicious"@)
    } else if contains(lowered, "fake"@) {
        Some("fake"@)
    } else {
        None
    }
}

/// The fraud indicator that a lowercased description holds, if any.
pub open spec fn fraud_indicator(lowered_description: Option<Seq<char>>) -> Option<Seq<char>> {
    match lowered_description {
        Some(ld) => fraud_keyword_in(ld),
        None => None,
    }
}

/// A lowercased claim type is present and speaks of an injury.
pub open spec fn names_injury(lowered_claim_type: Option<Seq<char>>) -> bool {
    match lowered_claim_type {
        Some(lc) => contains(lc, "injury"@),
        None => false,
    }
}

/// The damage threshold below which a claim is fast-tracked.
pub open spec fn damage_limit() -> nat {
    25000
}

/// The route, reasoning and confidence (a percentage) for a claim, from its
/// missing mandatory fields, its lowercased description and claim type, and
/// its estimated damage. The first rule that applies wins.
pub open spec fn route_decision(
    missing: Seq<Seq<char>>,
    lowered_description: Option<Seq<char>>,
    lowered_claim_type: Option<Seq<char>>,
    damage: Option<DecimalView>,
) -> (Seq<char>, Seq<char>, nat) {
    if missing.len() > 0 {
        (
            "Manual Review"@,
            "Missing "@ + nat_text(missing.len()) + " mandatory field(s): "@ + join(missing),
            60,
        )
    } else if fraud_indicator(lowered_description) is Some {
        (
            "Investigation Queue"@,
            "Description contains potential fraud indicator: '"@ + fraud_indicator(
                lowered_description,
            )->0 + "'"@,
            95,
        )
    } else if names_injury(lowered_claim_type) {
        ("Specialist Queue"@, "Injury claim requires specialist medical review"@, 90)
    } else {
        match damage {
            Some(d) => if d.below(damage_limit()) {
                (
                    "Fast-track"@,
                    "Estimated damage $"@ + two_places(d) + " is below $25,000 threshold"@,
                    85,
                )
            } else {
                ("Manual Review"@, "Estimated damage $"@ + two_places(d) + " exceeds threshold"@, 75)
            },
            None => ("Manual Review"@, "Standard processing"@, 70),
        }
    }
}

pub open spec fn lower_opt(o: Option<Seq<char>>) -> Option<Seq<char>> {
    match o {
        Some(s) => Some(lower_of(s)),
        None => None,
    }
}

/// The decision for record `d` with missing fields `missing`.
pub open spec fn route_of(d: FnolRecord, missing: Seq<Seq<char>>) -> (Seq<char>, Seq<char>, nat) {
    route_decision(
        missing,
        lower_opt(d.description),
        lower_opt(d.claim_type),
        d.estimated_damage,
    )
}

pub open spec fn result_view(r: (String, String, u32)) -> (Seq<char>, Seq<char>, nat) {
    (r.0@, r.1@, r.2 as nat)
}

pub open spec fn opt_str(o: Option<&str>) -> Option<Seq<char>> {
    match o {
        Some(s) => Some(s@),
        None => None,
    }
}

fn push_two_places(s: &mut String, a: &Amount)
    requires
        a@.wf(),
    ensures
        final(s)@ == old(s)@ + two_places(a@),
{
    let ghost start = s@;
    let f0: u32 = if a.frac.len() > 0 {
        a.frac[0] as u32
    } else {
        0
    };
    let f1: u32 = if a.frac.len() > 1 {
        a.frac[1] as u32
    } else {
        0
    };
    let up: u32 = if a.frac.len() > 2 && a.frac[2] >= 5 {
        1
    } else {
        0
    };
    let low = f0 * 10 + f1 + up;
    let base = digits_or_zero(&a.whole);
    let w = if low == 100 {
        increment(&base)
    } else {
        base
    };
    let rest: usize = if low == 100 {
        0
    } else {
        low as usize
    };
    push_value(s, &w);
    push_text(s, ".");
    push_digit(s, rest / 10);
    push_digit(s, rest % 10);
    proof {
        let wv = digits_value(a.whole@);
        let c = rounded_cents(a@);
        assert(c == wv * 100 + low);
        let q = digits_value(w@);
        assert(c / 100 == q && c % 100 == rest) by (nonlinear_arith)
            requires
                c == wv * 100 + low,
                low <= 100,
                low == 100 ==> q == wv + 1 && rest == 0,
                low != 100 ==> q == wv && rest == low,
        ;
    }
    assert(s@ =~= start + two_places(a@));
}

proof fn lemma_digits_bound(d: Seq<u8>)
    requires
        forall|i: int| 0 <= i < d.len() ==> d[i] < 10,
    ensures
        digits_value(d) < pow10(d.len()),
    decreases d.len(),
{
    if d.len() > 0 {
        let p = d.drop_last();
        assert forall|i: int| 0 <= i < p.len() implies p[i] < 10 by {
            assert(p[i] == d[i]);
        }
        lemma_digits_bound(p);
        let v = digits_value(p);
        let q = pow10(p.len());
        assert(v * 10 + d.last() < 10 * q) by (nonlinear_arith)
            requires
                v < q,
                d.last() < 10,
        ;
    }
}

proof fn lemma_scaled_below(w: nat, f: nat, p: nat, n: nat)
    requires
        f < p,
    ensures
        (w * p + f < n * p) == (w < n),
{
    if w < n {
        assert(w * p + f < n * p) by (nonlinear_arith)
            requires
                w < n,
                f < p,
        ;
    } else {
        assert(w * p + f >= n * p) by (nonlinear_arith)
            requires
                w >= n,
        ;
    }
}

/// Whether the amount is strictly below the fast-track threshold.
pub fn below_limit(a: &Amount) -> (r: bool)
    requires
        a@.wf(),
    ensures
        r == a@.below(damage_limit()),
{
    let cap: u64 = 25000;
    let mut acc: u64 = 0;
    let mut i: usize = 0;
    while i < a.whole.len()
        invariant
            i <= a.whole@.len(),
            a@.wf(),
            acc <= cap,
            cap == 25000,
            acc as nat == if digits_value(a.whole@.subrange(0, i as int)) < 25000 {
                digits_value(a.whole@.subrange(0, i as int))
            } else {
                25000
            },
        decreases a.whole@.len() - i,
    {
        let d = a.whole[i] as u64;
        assert(a.whole@.subrange(0, i + 1).drop_last() =~= a.whole@.subrange(0, i as int));
        let next = acc * 10 + d;
        acc = if next >= cap {
            cap
        } else {
            next
        };
        i += 1;
    }
    assert(a.whole@.subrange(0, i as int) =~= a.whole@);
    proof {
        lemma_digits_bound(a.frac@);
        lemma_scaled_below(
            digits_value(a.whole@),
            digits_value(a.frac@),
            pow10(a.frac@.len()),
            25000,
        );
    }
    acc < cap
}

fn fraud_in(ld: &str) -> (r: Option<&'static str>)
    ensures
        match r {
            Some(k) => fraud_keyword_in(ld@) == Some(k@),
            None => fraud_keyword_in(ld@) is None,
        },
{
    let h = chars_of(ld);
    if contains_text(&h, "fraud") {
        Some("fraud")
    } else if contains_text(&h, "staged") {
        Some("staged")
    } else if contains_text(&h, "inconsistent") {
        Some("inconsistent")
    } else if contains_text(&h, "suspicious") {
        Some("suspicious")
    } else if contains_text(&h, "fake") {
        Some("fake")
    } else {
        None
    }
}

fn push_joined(s: &mut String, missing: &[String])
    ensures
        final(s)@ == old(s)@ + join(names_of(missing@)),
{
    let ghost start = s@;
    let ghost names = names_of(missing@);
    let mut i: usize = 0;
    while i < missing.len()
        invariant
            i <= missing@.len(),
            names == names_of(missing@),
            s@ == start + join(names.take(i as int)),
        decreases missing@.len() - i,
    {
        if i > 0 {
            push_text(s, ", ");
        }
        push_text(s, missing[i].as_str());
        assert(names.take(i + 1).drop_last() =~= names.take(i as int));
        assert(names[i as int] == missing@[i as int]@);
        i += 1;
        assert(s@ =~= start + join(names.take(i as int)));
    }
    assert(names.take(i as int) =~= names);
}

/// The route, reasoning and confidence for a claim, given its missing
/// mandatory fields, its description and claim type already lowercased,
/// and its estimated damage.
pub fn decide_route(
    missing: &[String],
    lowered_description: Option<&str>,
    lowered_claim_type: Option<&str>,
    damage: &Option<Amount>,
) -> (r: (String, String, u32))
    requires
        damage matches Some(a) ==> a@.wf(),
    ensures
        result_view(r) == route_decision(
            names_of(missing@),
            opt_str(lowered_description),
            opt_str(lowered_claim_type),
            opt_amount(*damage),
        ),
{
    if missing.len() > 0 {
        let mut reason = owned("Missing ");
        push_nat(&mut reason, missing.len());
        push_text(&mut reason, " mandatory field(s): ");
        push_joined(&mut reason, missing);
        return (owned("Manual Review"), reason, 60);
    }
    if let Some(ld) = lowered_description {
        if let Some(k) = fraud_in(ld) {
            let mut reason = owned("Description contains potential fraud indicator: '");
            push_text(&mut reason, k);
            push_text(&mut reason, "'");
            return (owned("Investigation Queue"), reason, 95);
        }
    }
    if let Some(lc) = lowered_claim_type {
        let h = chars_of(lc);
        if contains_text(&h, "injury") {
            return (
                owned("Specialist Queue"),
                owned("Injury claim requires specialist medical review"),
                90,
            );
        }
    }
    match damage {
        Some(d) => {
            let mut reason = owned("Estimated damage $");
            push_two_places(&mut reason, d);
            if below_limit(d) {
                push_text(&mut reason, " is below $25,000 threshold");
                (owned("Fast-track"), reason, 85)
            } else {
                push_text(&mut reason, " exceeds threshold");
                (owned("Manual Review"), reason, 75)
            }
        },
        None => (owned("Manual Review"), owned("Standard processing"), 70),
    }
}

/// The route, reasoning and confidence for a claim. Rules apply in order and
/// the first that holds wins: missing mandatory fields; a fraud indicator in
/// the description; an injury claim type; the damage against the threshold;
/// standard processing.
pub fn determine_route(data: &FnolData, missing_fields: &[String]) -> (r: (String, String, u32))
    requires
        data.estimated_damage matches Some(a) ==> a@.wf(),
    ensures
        result_view(r) == route_of(data@, names_of(missing_fields@)),
{
    let ld = match &data.description {
        Some(d) => Some(lowercase(d.as_str())),
        None => None,
    };
    let lc = match &data.claim_type {
        Some(c) => Some(lowercase(c.as_str())),
        None => None,
    };
    let ld_ref: Option<&str> = match &ld {
        Some(s) => Some(s.as_str()),
        None => None,
    };
    let lc_ref: Option<&str> = match &lc {
        Some(s) => Some(s.as_str()),
        None => None,
    };
    decide_route(missing_fields, ld_ref, lc_ref, &data.estimated_damage)
}

} // verus!
