use fnol_router::extractor::{extract_description, extract_fields, infer_claim_type};

const SAMPLE: &str = "AUTOMOBILE LOSS NOTICE
POLICY NUMBER: PA-2024-00123
NAME OF INSURED (First, Middle, Last): John Michael Smith
INSURED'S MAILING ADDRESS: 42 Elm Street, Springfield
DATE OF LOSS AND TIME: 03/15/2024 2:30 PM
STREET: 100 Main Street
DESCRIPTION OF ACCIDENT:
Vehicle was rear-ended at a red light by another car.
POLICE OR FIRE DEPARTMENT CONTACTED: Yes
REPORT NUMBER: RPT-778
ESTIMATE AMOUNT: $12,500.00
V.I.N.: 1HGCM82633A004352
VEH # YEAR: 2019
MAKE: Honda
MODEL: Accord EX 2
DRIVER'S NAME AND ADDRESS: Jane Doe, 5 Oak Ave
OWNER'S NAME AND ADDRESS: John Smith
";

fn text(o: &Option<String>) -> Option<&str> {
    o.as_deref()
}

#[test]
fn unlabelled_text_defaults_to_auto() {
    let d = extract_fields("just some words about a parked car\nnothing more");
    assert_eq!(d.policy_number, None);
    assert_eq!(d.policyholder_name, None);
    assert_eq!(d.insured_address, None);
    assert_eq!(d.incident_date, None);
    assert_eq!(d.incident_time, None);
    assert_eq!(d.location, None);
    assert_eq!(d.description, None);
    assert!(d.estimated_damage.is_none());
    assert_eq!(text(&d.claim_type), Some("Auto"));
    assert_eq!(d.vehicle_vin, None);
    assert_eq!(d.vehicle_year, None);
    assert_eq!(d.vehicle_make, None);
    assert_eq!(d.vehicle_model, None);
    assert_eq!(d.driver_name, None);
    assert_eq!(d.owner_name, None);
    assert_eq!(d.police_report_number, None);
}

#[test]
fn empty_text_defaults_to_auto() {
    let d = extract_fields("");
    assert_eq!(text(&d.claim_type), Some("Auto"));
    assert_eq!(d.policy_number, None);
}

#[test]
fn estimate_with_thousands_separator() {
    let d = extract_fields("ESTIMATE AMOUNT: $12,500.00\n");
    let a = d.estimated_damage.expect("amount");
    assert_eq!(a.whole, vec![1, 2, 5, 0, 0]);
    assert_eq!(a.frac, vec![0, 0]);
}

#[test]
fn estimate_without_dollar_or_decimals() {
    let d = extract_fields("ESTIMATE AMOUNT: 3000 dollars");
    let a = d.estimated_damage.expect("amount");
    assert_eq!(a.whole, vec![3, 0, 0, 0]);
    assert!(a.frac.is_empty());
}

#[test]
fn estimate_with_only_fraction() {
    let d = extract_fields("ESTIMATE AMOUNT: ,.5");
    let a = d.estimated_damage.expect("amount");
    assert!(a.whole.is_empty());
    assert_eq!(a.frac, vec![5]);
}

#[test]
fn estimate_not_a_number_is_absent() {
    assert!(extract_fields("ESTIMATE AMOUNT: N/A").estimated_damage.is_none());
    assert!(extract_fields("ESTIMATE AMOUNT: ,,,").estimated_damage.is_none());
}

#[test]
fn estimate_skips_label_without_amount() {
    let d = extract_fields("ESTIMATE AMOUNT: pending\nESTIMATE AMOUNT: 750");
    assert_eq!(d.estimated_damage.expect("amount").whole, vec![7, 5, 0]);
}

#[test]
fn full_sample_document() {
    let d = extract_fields(SAMPLE);
    assert_eq!(text(&d.policy_number), Some("PA-2024-00123"));
    assert_eq!(text(&d.policyholder_name), Some("John Michael Smith\nINSURED"));
    assert_eq!(text(&d.insured_address), Some("42 Elm Street, Springfield"));
    assert_eq!(text(&d.incident_date), Some("03/15/2024"));
    assert_eq!(text(&d.incident_time), Some("2:30 PM"));
    assert_eq!(text(&d.location), Some("100 Main Street"));
    assert_eq!(
        text(&d.description),
        Some("Vehicle was rear-ended at a red light by another car.")
    );
    assert_eq!(text(&d.police_report_number), Some("RPT-778"));
    assert_eq!(text(&d.vehicle_vin), Some("1HGCM82633A004352"));
    assert_eq!(text(&d.vehicle_year), Some("2019"));
    assert_eq!(text(&d.vehicle_make), Some("Honda"));
    assert_eq!(text(&d.vehicle_model), Some("Accord EX 2\nDRIVER"));
    assert_eq!(text(&d.driver_name), Some("Jane Doe"));
    assert_eq!(text(&d.owner_name), Some("John Smith"));
    assert_eq!(text(&d.claim_type), Some("Auto"));
}

#[test]
fn name_stops_at_digit() {
    let d = extract_fields("NAME OF INSURED (Full): Anna Lee3rd");
    assert_eq!(text(&d.policyholder_name), Some("Anna Lee"));
}

#[test]
fn time_absent_when_malformed() {
    let d = extract_fields("DATE OF LOSS AND TIME: 03/15/2024 noon");
    assert_eq!(text(&d.incident_date), Some("03/15/2024"));
    assert_eq!(d.incident_time, None);
}

#[test]
fn time_with_two_digit_hour() {
    let d = extract_fields("DATE OF LOSS AND TIME: 12/01/2023   11:05AM");
    assert_eq!(text(&d.incident_time), Some("11:05AM"));
}

#[test]
fn date_needs_full_format() {
    let d = extract_fields("DATE OF LOSS AND TIME: 3/15/2024 2:30 PM");
    assert_eq!(d.incident_date, None);
    assert_eq!(d.incident_time, None);
}

#[test]
fn vin_rejects_letter_o() {
    let d = extract_fields("V.I.N.: 1HGCM82633O004352");
    assert_eq!(d.vehicle_vin, None);
}

#[test]
fn value_on_next_line() {
    let d = extract_fields("STREET:\n  7 Pine Road  \n");
    assert_eq!(text(&d.location), Some("7 Pine Road"));
}

#[test]
fn blank_value_is_absent() {
    let d = extract_fields("DRIVER'S NAME AND ADDRESS: 12 Main");
    assert_eq!(d.driver_name, None);
}

#[test]
fn description_cut_at_earliest_section() {
    let t = "DESCRIPTION OF ACCIDENT: Hit a pole while turning left.\nREPORT NUMBER: X1\nINSURED VEHICLE: car";
    assert_eq!(
        extract_description(t).as_deref(),
        Some("Hit a pole while turning left.")
    );
}

#[test]
fn short_description_is_absent() {
    assert_eq!(extract_description("DESCRIPTION OF ACCIDENT:  dent  \nOWNER'S NAME: x"), None);
    assert_eq!(extract_description("DESCRIPTION OF ACCIDENT: 0123456789"), None);
    assert_eq!(
        extract_description("DESCRIPTION OF ACCIDENT: 0123456789A").as_deref(),
        Some("0123456789A")
    );
    assert_eq!(extract_description("no label here at all"), None);
}

#[test]
fn claim_type_label_wins() {
    let d = extract_fields("CLAIM TYPE: Theft \nthe driver was injured");
    assert_eq!(text(&d.claim_type), Some("Theft"));
}

#[test]
fn claim_type_inferred_from_any_case() {
    let d = extract_fields("Passenger taken to HOSPITAL after COLLISION");
    assert_eq!(text(&d.claim_type), Some("Injury"));
    let d = extract_fields("Minor Collision in a parking lot");
    assert_eq!(text(&d.claim_type), Some("Collision"));
}

#[test]
fn infer_from_lowered_text() {
    assert_eq!(infer_claim_type("an injured man"), "Injury");
    assert_eq!(infer_claim_type("a collision"), "Collision");
    assert_eq!(infer_claim_type("a COLLISION"), "Auto");
    assert_eq!(infer_claim_type(""), "Auto");
}
