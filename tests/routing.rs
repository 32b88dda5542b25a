use fnol_router::extractor::extract_fields;
use fnol_router::models::{Amount, FnolData};
use fnol_router::router::{decide_route, determine_route, find_missing_fields};

fn complete(claim_type: &str, description: &str, whole: Vec<u8>, frac: Vec<u8>) -> FnolData {
    let mut d = FnolData::new();
    d.policy_number = Some("PA-1".to_string());
    d.policyholder_name = Some("John Smith".to_string());
    d.incident_date = Some("01/02/2024".to_string());
    d.location = Some("100 Main Street".to_string());
    d.description = Some(description.to_string());
    d.estimated_damage = Some(Amount { whole, frac });
    d.claim_type = Some(claim_type.to_string());
    d
}

#[test]
fn all_missing_on_new_record() {
    let d = FnolData::new();
    assert_eq!(
        find_missing_fields(&d),
        vec![
            "Policy Number",
            "Policyholder Name",
            "Incident Date",
            "Location",
            "Description",
            "Estimated Damage",
            "Claim Type"
        ]
    );
}

#[test]
fn nothing_missing_on_complete_record() {
    let d = complete("Collision", "Rear-ended at a light", vec![1], vec![]);
    assert!(find_missing_fields(&d).is_empty());
}

#[test]
fn missing_fields_before_fraud() {
    let mut d = complete("Collision", "This claim is fraud", vec![1, 0, 0], vec![]);
    d.location = None;
    let missing = find_missing_fields(&d);
    let (route, reasoning, confidence) = determine_route(&d, &missing);
    assert_eq!(route, "Manual Review");
    assert_eq!(reasoning, "Missing 1 mandatory field(s): Location");
    assert_eq!(confidence, 60);
}

#[test]
fn missing_list_is_joined() {
    let mut d = complete("Collision", "Rear-ended at a light", vec![1], vec![]);
    d.policy_number = None;
    d.estimated_damage = None;
    let missing = find_missing_fields(&d);
    let (_, reasoning, _) = determine_route(&d, &missing);
    assert_eq!(
        reasoning,
        "Missing 2 mandatory field(s): Policy Number, Estimated Damage"
    );
}

#[test]
fn below_threshold_is_fast_tracked() {
    let d = complete("Collision", "Rear-ended at a light", vec![2, 4, 9, 9, 9], vec![9, 9]);
    let missing = find_missing_fields(&d);
    let (route, reasoning, confidence) = determine_route(&d, &missing);
    assert_eq!(route, "Fast-track");
    assert_eq!(confidence, 85);
    assert_eq!(
        reasoning,
        "Estimated damage $24999.99 is below $25,000 threshold"
    );
}

#[test]
fn threshold_itself_goes_to_manual_review() {
    let d = complete("Collision", "Rear-ended at a light", vec![2, 5, 0, 0, 0], vec![0]);
    let missing = find_missing_fields(&d);
    let (route, reasoning, confidence) = determine_route(&d, &missing);
    assert_eq!(route, "Manual Review");
    assert_eq!(confidence, 75);
    assert_eq!(reasoning, "Estimated damage $25000.00 exceeds threshold");
}

#[test]
fn leading_zeros_are_not_shown() {
    let d = complete("Collision", "Rear-ended at a light", vec![0, 0, 5], vec![]);
    let (_, reasoning, _) = determine_route(&d, &[]);
    assert_eq!(reasoning, "Estimated damage $5.00 is below $25,000 threshold");
    let d = complete("Collision", "Rear-ended at a light", vec![], vec![5]);
    let (_, reasoning, _) = determine_route(&d, &[]);
    assert_eq!(reasoning, "Estimated damage $0.50 is below $25,000 threshold");
}

#[test]
fn injury_precedes_damage_rule() {
    let d = complete("Bodily INJURY", "Rear-ended at a light", vec![5, 0, 0, 0], vec![]);
    let (route, reasoning, confidence) = determine_route(&d, &[]);
    assert_eq!(route, "Specialist Queue");
    assert_eq!(reasoning, "Injury claim requires specialist medical review");
    assert_eq!(confidence, 90);
}

#[test]
fn fraud_keyword_priority_order() {
    let d = complete(
        "Collision",
        "This looks suspicious and possibly staged",
        vec![5],
        vec![],
    );
    let (route, reasoning, confidence) = determine_route(&d, &[]);
    assert_eq!(route, "Investigation Queue");
    assert_eq!(confidence, 95);
    assert_eq!(
        reasoning,
        "Description contains potential fraud indicator: 'staged'"
    );
}

#[test]
fn suspicious_alone_is_reported() {
    let d = complete("Collision", "This looks SUSPICIOUS to me", vec![5], vec![]);
    let (_, reasoning, _) = determine_route(&d, &[]);
    assert_eq!(
        reasoning,
        "Description contains potential fraud indicator: 'suspicious'"
    );
}

#[test]
fn fraud_precedes_injury() {
    let d = complete("Injury", "A fake accident", vec![5], vec![]);
    let (route, _, _) = determine_route(&d, &[]);
    assert_eq!(route, "Investigation Queue");
}

#[test]
fn no_damage_is_standard_processing() {
    let mut d = complete("Collision", "Rear-ended at a light", vec![5], vec![]);
    d.estimated_damage = None;
    let (route, reasoning, confidence) = determine_route(&d, &[]);
    assert_eq!(route, "Manual Review");
    assert_eq!(reasoning, "Standard processing");
    assert_eq!(confidence, 70);
}

#[test]
fn decide_on_lowered_values() {
    let (route, _, _) = decide_route(&[], Some("it was staged"), None, &None);
    assert_eq!(route, "Investigation Queue");
    let (route, _, _) = decide_route(&[], Some("It was STAGED"), None, &None);
    assert_eq!(route, "Manual Review");
    let (route, _, _) = decide_route(&[], None, Some("injury"), &None);
    assert_eq!(route, "Specialist Queue");
}

#[test]
fn missing_policy_number_round_trip() {
    let text = "NAME OF INSURED (Full): Ann Lee\nSTREET: 1 Main St\nESTIMATE AMOUNT: 100";
    let d = extract_fields(text);
    let missing = find_missing_fields(&d);
    assert_eq!(missing, vec!["Policy Number", "Incident Date", "Description"]);
}

#[test]
fn complete_document_is_routed() {
    let text = "POLICY NUMBER: P-9\nNAME OF INSURED (Full): Ann Lee\nDATE OF LOSS AND TIME: 01/02/2024 9:15 AM\nSTREET: 1 Main St\nDESCRIPTION OF ACCIDENT: Backed into a post in the lot.\nESTIMATE AMOUNT: $1,200.50\nCLAIM TYPE: Collision\n";
    let d = extract_fields(text);
    let missing = find_missing_fields(&d);
    assert!(missing.is_empty());
    let (route, reasoning, confidence) = determine_route(&d, &missing);
    assert_eq!(route, "Fast-track");
    assert_eq!(reasoning, "Estimated damage $1200.50 is below $25,000 threshold");
    assert_eq!(confidence, 85);
}

fn reasoning_for(whole: Vec<u8>, frac: Vec<u8>) -> String {
    let d = complete("Collision", "Rear-ended at a light", whole, frac);
    determine_route(&d, &[]).1
}

#[test]
fn amount_rounds_to_two_places() {
    assert_eq!(
        reasoning_for(vec![1, 2], vec![3, 4, 4]),
        "Estimated damage $12.34 is below $25,000 threshold"
    );
    assert_eq!(
        reasoning_for(vec![1, 2], vec![3, 4, 6]),
        "Estimated damage $12.35 is below $25,000 threshold"
    );
    assert_eq!(
        reasoning_for(vec![], vec![9, 9, 5]),
        "Estimated damage $1.00 is below $25,000 threshold"
    );
    assert_eq!(
        reasoning_for(vec![9, 9], vec![9, 9, 9]),
        "Estimated damage $100.00 is below $25,000 threshold"
    );
}

#[test]
fn just_below_threshold_rounds_up_in_text() {
    let (route, reasoning, _) = {
        let d = complete("Collision", "Rear-ended at a light", vec![2, 4, 9, 9, 9], vec![9, 9, 9]);
        determine_route(&d, &[])
    };
    assert_eq!(route, "Fast-track");
    assert_eq!(reasoning, "Estimated damage $25000.00 is below $25,000 threshold");
}
