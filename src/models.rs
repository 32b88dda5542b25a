//! The record extracted from one document, and the exact decimal amount it
//! may carry.
use vstd::prelude::*;

verus! {

/// Value of a sequence of decimal digits, most significant first.
pub open spec fn digits_value(d: Seq<u8>) -> nat
    decreases d.len(),
{
    if d.len() == 0 {
        0
    } else {
        digits_value(d.drop_last()) * 10 + d.last() as nat
    }
}

pub open spec fn pow10(k: nat) -> nat
    decreases k,
{
    if k == 0 {
        1
    } else {
        10 * pow10((k - 1) as nat)
    }
}

/// A non-negative decimal amount, written as the digits before and after the
/// decimal point.
pub struct DecimalView {
    pub whole: Seq<u8>,
    pub frac: Seq<u8>,
}

impl DecimalView {
    /// Every element is a decimal digit, and at least one digit is written.
    pub open spec fn wf(self) -> bool {
        &&& forall|i: int| 0 <= i < self.whole.len() ==> self.whole[i] < 10
        &&& forall|i: int| 0 <= i < self.frac.len() ==> self.frac[i] < 10
        &&& self.whole.len() + self.frac.len() > 0
    }

    /// The amount times `10^frac.len()`, an integer.
    pub open spec fn scaled(self) -> nat {
        digits_value(self.whole) * pow10(self.frac.len()) + digits_value(self.frac)
    }

    /// The amount equals the integer `n`.
    pub open spec fn equals(self, n: nat) -> bool {
        self.scaled() == n * pow10(self.frac.len())
    }

    /// The amount is strictly below the integer `n`.
    pub open spec fn below(self, n: nat) -> bool {
        self.scaled() < n * pow10(self.frac.len())
    }
}

/// A non-negative decimal amount, kept exactly as it was written: the digit
/// values before the decimal point and those after it.
#[derive(Clone, Debug)]
pub struct Amount {
    pub whole: Vec<u8>,
    pub frac: Vec<u8>,
}

impl View for Amount {
    type V = DecimalView;

    open spec fn view(&self) -> DecimalView {
        DecimalView { whole: self.whole@, frac: self.frac@ }
    }
}

pub open spec fn opt_text(o: Option<String>) -> Option<Seq<char>> {
    match o {
        Some(s) => Some(s@),
        None => None,
    }
}

pub open spec fn opt_amount(o: Option<Amount>) -> Option<DecimalView> {
    match o {
        Some(a) => Some(a@),
        None => None,
    }
}

/// What a record holds: each field present or absent.
pub struct FnolRecord {
    pub policy_number: Option<Seq<char>>,
    pub policyholder_name: Option<Seq<char>>,
    pub insured_address: Option<Seq<char>>,
    pub incident_date: Option<Seq<char>>,
    pub incident_time: Option<Seq<char>>,
    pub location: Option<Seq<char>>,
    pub description: Option<Seq<char>>,
    pub estimated_damage: Option<DecimalView>,
    pub claim_type: Option<Seq<char>>,
    pub vehicle_vin: Option<Seq<char>>,
    pub vehicle_year: Option<Seq<char>>,
    pub vehicle_make: Option<Seq<char>>,
    pub vehicle_model: Option<Seq<char>>,
    pub driver_name: Option<Seq<char>>,
    pub owner_name: Option<Seq<char>>,
    pub police_report_number: Option<Seq<char>>,
}

/// The fields read from one first-notice-of-loss document.
#[derive(Clone, Debug)]
pub struct FnolData {
    pub policy_number: Option<String>,
    pub policyholder_name: Option<String>,
    pub insured_address: Option<String>,
    pub incident_date: Option<String>,
    pub incident_time: Option<String>,
    pub location: Option<String>,
    pub description: Option<String>,
    pub estimated_damage: Option<Amount>,
    pub claim_type: Option<String>,
    pub vehicle_vin: Option<String>,
    pub vehicle_year: Option<String>,
    pub vehicle_make: Option<String>,
    pub vehicle_model: Option<String>,
    pub driver_name: Option<String>,
    pub owner_name: Option<String>,
    pub police_report_number: Option<String>,
}

impl View for FnolData {
    type V = FnolRecord;

    open spec fn view(&self) -> FnolRecord {
        FnolRecord {
            policy_number: opt_text(self.policy_number),
            policyholder_name: opt_text(self.policyholder_name),
            insured_address: opt_text(self.insured_address),
            incident_date: opt_text(self.incident_date),
            incident_time: opt_text(self.incident_time),
            location: opt_text(self.location),
            description: opt_text(self.description),
            estimated_damage: opt_amount(self.estimated_damage),
            claim_type: opt_text(self.claim_type),
            vehicle_vin: opt_text(self.vehicle_vin),
            vehicle_year: opt_text(self.vehicle_year),
            vehicle_make: opt_text(self.vehicle_make),
            vehicle_model: opt_text(self.vehicle_model),
            driver_name: opt_text(self.driver_name),
            owner_name: opt_text(self.owner_name),
            police_report_number: opt_text(self.police_report_number),
        }
    }
}

/// The record with every field absent.
pub open spec fn empty_record() -> FnolRecord {
    FnolRecord {
        policy_number: None,
        policyholder_name: None,
        insured_address: None,
        incident_date: None,
        incident_time: None,
        location: None,
        description: None,
        estimated_damage: None,
        claim_type: None,
        vehicle_vin: None,
        vehicle_year: None,
        vehicle_make: None,
        vehicle_model: None,
        driver_name: None,
        owner_name: None,
        police_report_number: None,
    }
}

impl FnolData {
    pub fn new() -> (r: FnolData)
        ensures
            r@ == empty_record(),
    {
        FnolData {
            policy_number: None,
            policyholder_name: None,
            insured_address: None,
            incident_date: None,
            incident_time: None,
            location: None,
            description: None,
            estimated_damage: None,
            claim_type: None,
            vehicle_vin: None,
            vehicle_year: None,
            vehicle_make: None,
            vehicle_model: None,
            driver_name: None,
            owner_name: None,
            police_report_number: None,
        }
    }
}

} // verus!
