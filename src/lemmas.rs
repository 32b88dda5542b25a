//! Facts that tie the extractor, the missing-field detector and the router
//! together.
use vstd::prelude::*;
use crate::extractor::{
    amount_from, amount_of, amount_span, claim_type_of, description_label, description_of,
    digit_values, extracted, field_value, first_match, inferred_claim_type, label_end, label_of,
    match_at, Field,
};
use crate::models::{digits_value, pow10, DecimalView, FnolRecord};
use crate::router::{missing_names, route_of};
use crate::text::{is_ws, class_at, contains, lemma_find_from, lower_of, occurs_at, run_end, CharClass};

verus! {

/// The text holds one of the labels that the extractor looks for.
pub open spec fn has_known_label(t: Seq<char>) -> bool {
    contains(t, description_label()) || exists|f: Field| contains(t, #[trigger] label_of(f))
}

/// The lowercased text speaks of an injury, the injured, a hospital or a
/// collision.
pub open spec fn suggests_claim_type(lowered: Seq<char>) -> bool {
    contains(lowered, "injury"@) || contains(lowered, "injured"@) || contains(lowered, "hospital"@)
        || contains(lowered, "collision"@)
}

/// Where the label of `f` never occurs, `f` never matches.
pub proof fn lemma_no_label_no_match(t: Seq<char>, f: Field, p: int)
    requires
        0 <= p,
        !contains(t, label_of(f)),
    ensures
        first_match(t, p, f) is None,
    decreases t.len() - p,
{
    assert(!occurs_at(t, label_of(f), p));
    assert(label_end(t, p, f) is None);
    assert(match_at(t, p, f) is None);
    if p < t.len() {
        lemma_no_label_no_match(t, f, p + 1);
    }
}

/// Where the label of `f` never occurs, the field is absent.
pub proof fn lemma_no_label_absent(t: Seq<char>, f: Field)
    requires
        !contains(t, label_of(f)),
    ensures
        field_value(t, f) is None,
        f == Field::EstimateAmount ==> amount_of(t) is None,
{
    lemma_no_label_no_match(t, f, 0);
}

/// Text that holds none of the known labels yields a record whose fields are
/// all absent but the claim type, which is `Auto`, unless its lowercased
/// form speaks of an injury, the injured, a hospital or a collision (which
/// sets the claim type to `Injury` or `Collision`).
pub proof fn lemma_unlabelled_text(t: Seq<char>)
    requires
        !has_known_label(t),
        !suggests_claim_type(lower_of(t)),
    ensures
        extracted(t, lower_of(t)) == (FnolRecord {
            policy_number: None,
            policyholder_name: None,
            insured_address: None,
            incident_date: None,
            incident_time: None,
            location: None,
            description: None,
            estimated_damage: None,
            claim_type: Some("Auto"@),
            vehicle_vin: None,
            vehicle_year: None,
            vehicle_make: None,
            vehicle_model: None,
            driver_name: None,
            owner_name: None,
            police_report_number: None,
        }),
{
    assert forall|f: Field| !contains(t, label_of(f)) by {}
    lemma_no_label_absent(t, Field::PolicyNumber);
    lemma_no_label_absent(t, Field::PolicyholderName);
    lemma_no_label_absent(t, Field::InsuredAddress);
    lemma_no_label_absent(t, Field::IncidentDate);
    lemma_no_label_absent(t, Field::IncidentTime);
    lemma_no_label_absent(t, Field::Location);
    lemma_no_label_absent(t, Field::ClaimTypeLabel);
    lemma_no_label_absent(t, Field::Vin);
    lemma_no_label_absent(t, Field::VehicleYear);
    lemma_no_label_absent(t, Field::VehicleMake);
    lemma_no_label_absent(t, Field::VehicleModel);
    lemma_no_label_absent(t, Field::DriverName);
    lemma_no_label_absent(t, Field::OwnerName);
    lemma_no_label_absent(t, Field::PoliceReport);
    lemma_no_label_absent(t, Field::EstimateAmount);
    lemma_find_from(t, description_label(), 0);
    assert(description_of(t) is None);
    assert(inferred_claim_type(lower_of(t)) == "Auto"@);
    assert(claim_type_of(t, lower_of(t)) == "Auto"@);
}

/// A claim with any mandatory field missing is routed to manual review at
/// confidence 60, whatever its description holds: the missing-field rule
/// comes before the fraud rule.
pub proof fn lemma_missing_fields_take_priority(d: FnolRecord, missing: Seq<Seq<char>>)
    requires
        missing.len() > 0,
    ensures
        route_of(d, missing).0 == "Manual Review"@,
        route_of(d, missing).2 == 60,
{
}

/// For text without the `POLICY NUMBER:` label, the missing fields of the
/// extracted record start with `Policy Number`, which occurs nowhere else in
/// the list; the other missing fields follow in their declared order.
pub proof fn lemma_missing_policy_number(t: Seq<char>)
    requires
        !contains(t, "POLICY NUMBER:"@),
    ensures
        missing_names(extracted(t, lower_of(t))).len() >= 1,
        missing_names(extracted(t, lower_of(t)))[0] == "Policy Number"@,
        forall|i: int|
            1 <= i < missing_names(extracted(t, lower_of(t))).len() ==> missing_names(
                extracted(t, lower_of(t)),
            )[i] != "Policy Number"@,
{
    lemma_no_label_absent(t, Field::PolicyNumber);
    let m = missing_names(extracted(t, lower_of(t)));
    reveal_strlit("Policy Number");
    reveal_strlit("Policyholder Name");
    reveal_strlit("Incident Date");
    reveal_strlit("Location");
    reveal_strlit("Description");
    reveal_strlit("Estimated Damage");
    reveal_strlit("Claim Type");
    assert forall|i: int| 1 <= i < m.len() implies m[i] != "Policy Number"@ by {
        assert(m[i][0] != 'P' || m[i].len() != 13);
    }
}

/// Where no match of `f` starts in `i..p`, the leftmost match at or after
/// `i` is the leftmost one at or after `p`.
pub proof fn lemma_first_match_skip(t: Seq<char>, f: Field, i: int, p: int)
    requires
        0 <= i <= p,
        forall|j: int| i <= j < p ==> match_at(t, j, f) is None,
    ensures
        first_match(t, i, f) == first_match(t, p, f),
    decreases p - i,
{
    if i < p {
        lemma_first_match_skip(t, f, i + 1, p);
    }
}

/// Where `ESTIMATE AMOUNT: $12,500.00` stands in a text, no estimate is
/// matched before it and no digit follows it, the estimated damage is
/// exactly 12500.
pub proof fn lemma_estimate_twelve_thousand_five_hundred(t: Seq<char>, p: int)
    requires
        occurs_at(t, "ESTIMATE AMOUNT: $12,500.00"@, p),
        forall|j: int| 0 <= j < p ==> match_at(t, j, Field::EstimateAmount) is None,
        !class_at(t, p + 27, CharClass::Digit),
    ensures
        amount_of(t) == Some(DecimalView { whole: seq![1u8, 2, 5, 0, 0], frac: seq![0u8, 0] }),
        amount_of(t)->0.equals(12500),
{
    reveal_strlit("ESTIMATE AMOUNT: $12,500.00");
    reveal_strlit("ESTIMATE AMOUNT:");
    let lit = "ESTIMATE AMOUNT: $12,500.00"@;
    assert(lit.len() == 27);
    assert forall|k: int| 0 <= k < 27 implies t[p + k] == lit[k] by {
        assert(t.subrange(p, p + 27)[k] == lit[k]);
    }
    assert(t.subrange(p, p + 16) =~= "ESTIMATE AMOUNT:"@);
    assert(label_end(t, p, Field::EstimateAmount) == Some(p + 16));
    assert(lit[16] == ' ');
    assert(lit[17] == '$');
    assert(t[p + 16] == lit[16]);
    assert(t[p + 16] == ' ');
    assert(t[p + 17] == '$');
    assert(!is_ws('$'));
    assert(run_end(t, p + 17, CharClass::Space) == p + 17);
    assert(run_end(t, p + 16, CharClass::Space) == p + 17);
    assert(lit[18] == '1');
    assert(t[p + 18] == '1');
    assert(lit[19] == '2');
    assert(t[p + 19] == '2');
    assert(lit[20] == ',');
    assert(t[p + 20] == ',');
    assert(lit[21] == '5');
    assert(t[p + 21] == '5');
    assert(lit[22] == '0');
    assert(t[p + 22] == '0');
    assert(lit[23] == '0');
    assert(t[p + 23] == '0');
    assert(lit[24] == '.');
    assert(t[p + 24] == '.');
    assert(lit[25] == '0');
    assert(t[p + 25] == '0');
    assert(lit[26] == '0');
    assert(t[p + 26] == '0');
    assert(run_end(t, p + 24, CharClass::DigitComma) == p + 24);
    assert(run_end(t, p + 23, CharClass::DigitComma) == p + 24);
    assert(run_end(t, p + 22, CharClass::DigitComma) == p + 24);
    assert(run_end(t, p + 21, CharClass::DigitComma) == p + 24);
    assert(run_end(t, p + 20, CharClass::DigitComma) == p + 24);
    assert(run_end(t, p + 19, CharClass::DigitComma) == p + 24);
    assert(run_end(t, p + 18, CharClass::DigitComma) == p + 24);
    assert(run_end(t, p + 27, CharClass::Digit) == p + 27);
    assert(run_end(t, p + 26, CharClass::Digit) == p + 27);
    assert(run_end(t, p + 25, CharClass::Digit) == p + 27);
    assert(amount_span(t, p + 16) == Some((p + 18, p + 27)));
    assert(match_at(t, p, Field::EstimateAmount) == Some((p + 18, p + 27)));
    lemma_first_match_skip(t, Field::EstimateAmount, 0, p);
    let c = t.subrange(p + 18, p + 27);
    assert(c =~= seq!['1', '2', ',', '5', '0', '0', '.', '0', '0']);
    assert(run_end(c, 6, CharClass::DigitComma) == 6);
    assert(run_end(c, 5, CharClass::DigitComma) == 6);
    assert(run_end(c, 4, CharClass::DigitComma) == 6);
    assert(run_end(c, 3, CharClass::DigitComma) == 6);
    assert(run_end(c, 2, CharClass::DigitComma) == 6);
    assert(run_end(c, 1, CharClass::DigitComma) == 6);
    assert(run_end(c, 0, CharClass::DigitComma) == 6);
    let w = c.subrange(0, 6);
    let f = c.subrange(6, 9);
    assert(w =~= seq!['1', '2', ',', '5', '0', '0']);
    assert(f =~= seq!['.', '0', '0']);
    reveal_with_fuel(digit_values, 7);
    assert(w.drop_last() =~= seq!['1', '2', ',', '5', '0']);
    assert(w.drop_last().drop_last() =~= seq!['1', '2', ',', '5']);
    assert(w.drop_last().drop_last().drop_last() =~= seq!['1', '2', ',']);
    assert(w.drop_last().drop_last().drop_last().drop_last() =~= seq!['1', '2']);
    assert(w.drop_last().drop_last().drop_last().drop_last().drop_last() =~= seq!['1']);
    assert(seq!['1'].drop_last() =~= Seq::<char>::empty());
    assert(digit_values(w) =~= seq![1u8, 2, 5, 0, 0]);
    assert(f.drop_last() =~= seq!['.', '0']);
    assert(f.drop_last().drop_last() =~= seq!['.']);
    assert(seq!['.'].drop_last() =~= Seq::<char>::empty());
    assert(digit_values(f) =~= seq![0u8, 0]);
    assert(amount_from(c) == Some(DecimalView { whole: seq![1u8, 2, 5, 0, 0], frac: seq![0u8, 0] }));
    let d = DecimalView { whole: seq![1u8, 2, 5, 0, 0], frac: seq![0u8, 0] };
    reveal_with_fuel(digits_value, 6);
    reveal_with_fuel(pow10, 3);
    assert(d.whole.drop_last() =~= seq![1u8, 2, 5, 0]);
    assert(d.whole.drop_last().drop_last() =~= seq![1u8, 2, 5]);
    assert(d.whole.drop_last().drop_last().drop_last() =~= seq![1u8, 2]);
    assert(d.whole.drop_last().drop_last().drop_last().drop_last() =~= seq![1u8]);
    assert(seq![1u8].drop_last() =~= Seq::<u8>::empty());
    assert(digits_value(d.whole) == 12500);
    assert(d.frac.drop_last() =~= seq![0u8]);
    assert(seq![0u8].drop_last() =~= Seq::<u8>::empty());
    assert(digits_value(d.frac) == 0);
    assert(pow10(2) == 100);
}

} // verus!
