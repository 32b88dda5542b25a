//! Reading the fields of a first-notice-of-loss document out of its text.
//!
//! Each labelled field is found the way a leftmost-first pattern search finds
//! it: the first position where the field's label stands and a value of the
//! field's shape follows. Values are trimmed of surrounding whitespace, and a
//! value that is empty after trimming counts as absent.
use vstd::prelude::*;
use crate::models::{opt_amount, opt_text, Amount, DecimalView, FnolData, FnolRecord};
use crate::text::{
    char_at, char_in_class, char_is, class_at, class_is, in_class, lemma_run_end_bounds,
    literal_at, occurs_at, run_end, scan_run, string_of, trim_span, trimmed, CharClass,
    chars_of, contains, contains_text, find_from, find_text, is_digit, lemma_find_from, lower_of, lowercase,
    owned,
};

verus! {

/// The fields that are found by a label followed by a value of a fixed shape.
#[derive(Clone, Copy, Debug, PartialEq, Eq, Structural)]
pub enum Field {
    PolicyNumber,
    PolicyholderName,
    InsuredAddress,
    IncidentDate,
    IncidentTime,
    Location,
    ClaimTypeLabel,
    Vin,
    VehicleYear,
    VehicleMake,
    VehicleModel,
    DriverName,
    OwnerName,
    PoliceReport,
    EstimateAmount,
}

/// The shape of the value that follows a label.
#[derive(Clone, Copy, Debug, PartialEq, Eq, Structural)]
pub enum Shape {
    /// One or more characters of a class, the longest such run.
    Run(CharClass),
    /// Exactly this many characters of a class.
    Exact(CharClass, usize),
    /// `DD/DD/DDDD`.
    Date,
    /// A date, whitespace, then `H:MM AM` or `HH:MM PM`; the time is the value.
    Time,
    /// An optional `$`, digits and commas, then an optional `.` and digits.
    Amount,
}

/// The literal text that a field's label starts with.
pub open spec fn label_of(f: Field) -> Seq<char> {
    match f {
        Field::PolicyNumber => "POLICY NUMBER:"@,
        Field::PolicyholderName => "NAME OF INSURED ("@,
        Field::InsuredAddress => "INSURED'S MAILING ADDRESS:"@,
        Field::IncidentDate => "DATE OF LOSS AND TIME:"@,
        Field::IncidentTime => "DATE OF LOSS AND TIME:"@,
        Field::Location => "STREET:"@,
        Field::ClaimTypeLabel => "CLAIM TYPE:"@,
        Field::Vin => "V.I.N.:"@,
        Field::VehicleYear => "VEH #"@,
        Field::VehicleMake => "MAKE:"@,
        Field::VehicleModel => "MODEL:"@,
        Field::DriverName => "DRIVER'S NAME AND ADDRESS:"@,
        Field::OwnerName => "OWNER'S NAME AND ADDRESS:"@,
        Field::PoliceReport => "REPORT NUMBER:"@,
        Field::EstimateAmount => "ESTIMATE AMOUNT:"@,
    }
}

pub fn label_text(f: Field) -> (r: &'static str)
    ensures
        r@ == label_of(f),
{
    match f {
        Field::PolicyNumber => "POLICY NUMBER:",
        Field::PolicyholderName => "NAME OF INSURED (",
        Field::InsuredAddress => "INSURED'S MAILING ADDRESS:",
        Field::IncidentDate => "DATE OF LOSS AND TIME:",
        Field::IncidentTime => "DATE OF LOSS AND TIME:",
        Field::Location => "STREET:",
        Field::ClaimTypeLabel => "CLAIM TYPE:",
        Field::Vin => "V.I.N.:",
        Field::VehicleYear => "VEH #",
        Field::VehicleMake => "MAKE:",
        Field::VehicleModel => "MODEL:",
        Field::DriverName => "DRIVER'S NAME AND ADDRESS:",
        Field::OwnerName => "OWNER'S NAME AND ADDRESS:",
        Field::PoliceReport => "REPORT NUMBER:",
        Field::EstimateAmount => "ESTIMATE AMOUNT:",
    }
}

pub open spec fn shape_of(f: Field) -> Shape {
    match f {
        Field::PolicyNumber => Shape::Run(CharClass::Code),
        Field::PolicyholderName => Shape::Run(CharClass::AlphaSpace),
        Field::InsuredAddress => Shape::Run(CharClass::NotNewline),
        Field::IncidentDate => Shape::Date,
        Field::IncidentTime => Shape::Time,
        Field::Location => Shape::Run(CharClass::NotNewline),
        Field::ClaimTypeLabel => Shape::Run(CharClass::NotNewline),
        Field::Vin => Shape::Exact(CharClass::VinChar, 17),
        Field::VehicleYear => Shape::Exact(CharClass::Digit, 4),
        Field::VehicleMake => Shape::Run(CharClass::Alpha),
        Field::VehicleModel => Shape::Run(CharClass::AlnumSpace),
        Field::DriverName => Shape::Run(CharClass::AlphaSpace),
        Field::OwnerName => Shape::Run(CharClass::AlphaSpace),
        Field::PoliceReport => Shape::Run(CharClass::Code),
        Field::EstimateAmount => Shape::Amount,
    }
}

pub fn field_shape(f: Field) -> (r: Shape)
    ensures
        r == shape_of(f),
{
    match f {
        Field::PolicyNumber => Shape::Run(CharClass::Code),
        Field::PolicyholderName => Shape::Run(CharClass::AlphaSpace),
        Field::InsuredAddress => Shape::Run(CharClass::NotNewline),
        Field::IncidentDate => Shape::Date,
        Field::IncidentTime => Shape::Time,
        Field::Location => Shape::Run(CharClass::NotNewline),
        Field::ClaimTypeLabel => Shape::Run(CharClass::NotNewline),
        Field::Vin => Shape::Exact(CharClass::VinChar, 17),
        Field::VehicleYear => Shape::Exact(CharClass::Digit, 4),
        Field::VehicleMake => Shape::Run(CharClass::Alpha),
        Field::VehicleModel => Shape::Run(CharClass::AlnumSpace),
        Field::DriverName => Shape::Run(CharClass::AlphaSpace),
        Field::OwnerName => Shape::Run(CharClass::AlphaSpace),
        Field::PoliceReport => Shape::Run(CharClass::Code),
        Field::EstimateAmount => Shape::Amount,
    }
}

/// Where the value may start once the label of `f` is matched at `p`.
/// The policyholder's label is `NAME OF INSURED (`, one or more characters
/// other than `)`, then `):`; the vehicle year's is `VEH #`, optional
/// whitespace, then `YEAR:`.
pub open spec fn label_end(t: Seq<char>, p: int, f: Field) -> Option<int> {
    let lab = label_of(f);
    if !occurs_at(t, lab, p) {
        None
    } else {
        let q = p + lab.len();
        match f {
            Field::PolicyholderName => {
                let b = run_end(t, q, CharClass::NotParen);
                if b > q && occurs_at(t, "):"@, b) {
                    Some(b + "):"@.len())
                } else {
                    None
                }
            },
            Field::VehicleYear => {
                let b = run_end(t, q, CharClass::Space);
                if occurs_at(t, "YEAR:"@, b) {
                    Some(b + "YEAR:"@.len())
                } else {
                    None
                }
            },
            _ => Some(q),
        }
    }
}

/// Where a run of `cls` starts after the whitespace `t[q..e]`: the latest
/// position in `q..=e` that holds a `cls` character, so that optional
/// whitespace gives back characters to a class that takes them.
pub open spec fn run_start(t: Seq<char>, q: int, e: int, cls: CharClass) -> Option<int>
    decreases e - q,
{
    if class_at(t, e, cls) {
        Some(e)
    } else if e > q {
        run_start(t, q, e - 1, cls)
    } else {
        None
    }
}

/// `t[i..i+n]` lies in bounds and holds only `cls` characters.
pub open spec fn exact_at(t: Seq<char>, i: int, n: int, cls: CharClass) -> bool {
    0 <= i && i + n <= t.len() && forall|k: int| i <= k < i + n ==> in_class(#[trigger] t[k], cls)
}

/// `t[i..i+10]` reads `DD/DD/DDDD`.
pub open spec fn date_at(t: Seq<char>, i: int) -> bool {
    &&& class_at(t, i, CharClass::Digit)
    &&& class_at(t, i + 1, CharClass::Digit)
    &&& char_at(t, i + 2, '/')
    &&& class_at(t, i + 3, CharClass::Digit)
    &&& class_at(t, i + 4, CharClass::Digit)
    &&& char_at(t, i + 5, '/')
    &&& exact_at(t, i + 6, 4, CharClass::Digit)
}

/// The end of `H:` or `HH:` at `f`.
pub open spec fn hour_end(t: Seq<char>, f: int) -> Option<int> {
    if class_at(t, f, CharClass::Digit) && class_at(t, f + 1, CharClass::Digit) && char_at(
        t,
        f + 2,
        ':',
    ) {
        Some(f + 3)
    } else if class_at(t, f, CharClass::Digit) && char_at(t, f + 1, ':') {
        Some(f + 2)
    } else {
        None
    }
}

/// The time after the date that follows position `q`.
pub open spec fn time_span(t: Seq<char>, q: int) -> Option<(int, int)> {
    let e = run_end(t, q, CharClass::Space);
    if !date_at(t, e) {
        None
    } else {
        let f = run_end(t, e + 10, CharClass::Space);
        if f == e + 10 {
            None
        } else {
            match hour_end(t, f) {
                None => None,
                Some(m) => if class_at(t, m, CharClass::Digit) && class_at(
                    t,
                    m + 1,
                    CharClass::Digit,
                ) {
                    let g = run_end(t, m + 2, CharClass::Space);
                    if (char_at(t, g, 'A') || char_at(t, g, 'P')) && char_at(t, g + 1, 'M') {
                        Some((f, g + 2))
                    } else {
                        None
                    }
                } else {
                    None
                },
            }
        }
    }
}

/// The digits, commas and decimal part of an amount after position `q`.
pub open spec fn amount_span(t: Seq<char>, q: int) -> Option<(int, int)> {
    let e = run_end(t, q, CharClass::Space);
    let s = if char_at(t, e, '$') {
        e + 1
    } else {
        e
    };
    let m = run_end(t, s, CharClass::DigitComma);
    if m == s {
        None
    } else if char_at(t, m, '.') {
        Some((s, run_end(t, m + 1, CharClass::Digit)))
    } else {
        Some((s, m))
    }
}

/// The span of the value of shape `shape` after the label end `q`, with the
/// optional whitespace between them skipped.
pub open spec fn shape_span(t: Seq<char>, q: int, shape: Shape) -> Option<(int, int)> {
    let e = run_end(t, q, CharClass::Space);
    match shape {
        Shape::Run(cls) => match run_start(t, q, e, cls) {
            Some(j) => Some((j, run_end(t, j, cls))),
            None => None,
        },
        Shape::Exact(cls, n) => if exact_at(t, e, n as int, cls) {
            Some((e, e + n))
        } else {
            None
        },
        Shape::Date => if date_at(t, e) {
            Some((e, e + 10))
        } else {
            None
        },
        Shape::Time => time_span(t, q),
        Shape::Amount => amount_span(t, q),
    }
}

/// The value span of a match of field `f` that starts at `p`.
pub open spec fn match_at(t: Seq<char>, p: int, f: Field) -> Option<(int, int)> {
    match label_end(t, p, f) {
        Some(q) => shape_span(t, q, shape_of(f)),
        None => None,
    }
}

/// The leftmost match of field `f` at or after `p`.
pub open spec fn first_match(t: Seq<char>, p: int, f: Field) -> Option<(int, int)>
    decreases t.len() - p,
{
    if 0 <= p < t.len() {
        if match_at(t, p, f) is Some {
            match_at(t, p, f)
        } else {
            first_match(t, p + 1, f)
        }
    } else {
        None
    }
}

/// The trimmed text of field `f`, absent where nothing matches or the match
/// is blank.
pub open spec fn field_value(t: Seq<char>, f: Field) -> Option<Seq<char>> {
    match first_match(t, 0, f) {
        Some((a, b)) => {
            let v = trimmed(t, a, b);
            if v.len() > 0 {
                Some(v)
            } else {
                None
            }
        },
        None => None,
    }
}

pub open spec fn span_of(r: Option<(usize, usize)>) -> Option<(int, int)> {
    match r {
        Some((a, b)) => Some((a as int, b as int)),
        None => None,
    }
}

/// A span within the text, in order.
pub open spec fn span_ok(r: Option<(usize, usize)>, n: nat) -> bool {
    r matches Some((a, b)) ==> a <= b <= n
}

fn find_label_end(t: &Vec<char>, p: usize, f: Field) -> (r: Option<usize>)
    ensures
        match r {
            Some(q) => label_end(t@, p as int, f) == Some(q as int) && q <= t@.len(),
            None => label_end(t@, p as int, f) is None,
        },
{
    let lab = label_text(f);
    if !literal_at(t, p, lab) {
        return None;
    }
    let q = p + lab.unicode_len();
    proof {
        lemma_run_end_bounds(t@, q as int, CharClass::NotParen);
        lemma_run_end_bounds(t@, q as int, CharClass::Space);
    }
    match f {
        Field::PolicyholderName => {
            let b = scan_run(t, q, CharClass::NotParen);
            let close = "):";
            if b > q && literal_at(t, b, close) {
                Some(b + close.unicode_len())
            } else {
                None
            }
        },
        Field::VehicleYear => {
            let b = scan_run(t, q, CharClass::Space);
            let year = "YEAR:";
            if literal_at(t, b, year) {
                Some(b + year.unicode_len())
            } else {
                None
            }
        },
        _ => Some(q),
    }
}

fn find_run_start(t: &Vec<char>, q: usize, e: usize, cls: CharClass) -> (r: Option<usize>)
    requires
        q <= e <= t@.len(),
    ensures
        match r {
            Some(j) => run_start(t@, q as int, e as int, cls) == Some(j as int) && j <= t@.len(),
            None => run_start(t@, q as int, e as int, cls) is None,
        },
{
    let mut j = e;
    loop
        invariant
            q <= j <= e <= t@.len(),
            run_start(t@, q as int, j as int, cls) == run_start(t@, q as int, e as int, cls),
        decreases j - q,
    {
        if class_is(t, j, cls) {
            return Some(j);
        }
        if j == q {
            return None;
        }
        j -= 1;
    }
}

fn exact_run(t: &Vec<char>, i: usize, n: usize, cls: CharClass) -> (r: bool)
    ensures
        r == exact_at(t@, i as int, n as int, cls),
        t@.len() <= usize::MAX,
{
    if i > t.len() || n > t.len() - i {
        return false;
    }
    let mut k: usize = 0;
    while k < n
        invariant
            i + n <= t.len(),
            k <= n,
            forall|m: int| i <= m < i + k ==> in_class(#[trigger] t@[m], cls),
        decreases n - k,
    {
        if !char_in_class(t[i + k], cls) {
            return false;
        }
        k += 1;
    }
    true
}

fn date_is(t: &Vec<char>, i: usize) -> (r: bool)
    ensures
        r == date_at(t@, i as int),
        t@.len() <= usize::MAX,
{
    class_is(t, i, CharClass::Digit) && class_is(t, i + 1, CharClass::Digit) && char_is(
        t,
        i + 2,
        '/',
    ) && class_is(t, i + 3, CharClass::Digit) && class_is(t, i + 4, CharClass::Digit) && char_is(
        t,
        i + 5,
        '/',
    ) && exact_run(t, i + 6, 4, CharClass::Digit)
}

fn find_hour_end(t: &Vec<char>, f: usize) -> (r: Option<usize>)
    ensures
        span_of(match r { Some(m) => Some((m, m)), None => None }) == match hour_end(t@, f as int) {
            Some(m) => Some((m, m)),
            None => None,
        },
        r matches Some(m) ==> m <= t@.len(),
{
    if class_is(t, f, CharClass::Digit) && class_is(t, f + 1, CharClass::Digit) && char_is(
        t,
        f + 2,
        ':',
    ) {
        Some(f + 3)
    } else if class_is(t, f, CharClass::Digit) && char_is(t, f + 1, ':') {
        Some(f + 2)
    } else {
        None
    }
}

fn find_time(t: &Vec<char>, q: usize) -> (r: Option<(usize, usize)>)
    requires
        q <= t@.len(),
    ensures
        span_of(r) == time_span(t@, q as int),
        span_ok(r, t@.len()),
{
    let e = scan_run(t, q, CharClass::Space);
    if !date_is(t, e) {
        return None;
    }
    let f = scan_run(t, e + 10, CharClass::Space);
    if f == e + 10 {
        return None;
    }
    match find_hour_end(t, f) {
        None => None,
        Some(m) => {
            if class_is(t, m, CharClass::Digit) && class_is(t, m + 1, CharClass::Digit) {
                let g = scan_run(t, m + 2, CharClass::Space);
                if (char_is(t, g, 'A') || char_is(t, g, 'P')) && char_is(t, g + 1, 'M') {
                    Some((f, g + 2))
                } else {
                    None
                }
            } else {
                None
            }
        },
    }
}

fn find_amount(t: &Vec<char>, q: usize) -> (r: Option<(usize, usize)>)
    requires
        q <= t@.len(),
    ensures
        span_of(r) == amount_span(t@, q as int),
        span_ok(r, t@.len()),
{
    let e = scan_run(t, q, CharClass::Space);
    let s = if char_is(t, e, '$') {
        e + 1
    } else {
        e
    };
    let m = scan_run(t, s, CharClass::DigitComma);
    if m == s {
        None
    } else if char_is(t, m, '.') {
        let end = scan_run(t, m + 1, CharClass::Digit);
        Some((s, end))
    } else {
        Some((s, m))
    }
}

fn find_shape(t: &Vec<char>, q: usize, shape: Shape) -> (r: Option<(usize, usize)>)
    requires
        q <= t@.len(),
    ensures
        span_of(r) == shape_span(t@, q as int, shape),
        span_ok(r, t@.len()),
{
    let e = scan_run(t, q, CharClass::Space);
    match shape {
        Shape::Run(cls) => match find_run_start(t, q, e, cls) {
            Some(j) => {
                let end = scan_run(t, j, cls);
                Some((j, end))
            },
            None => None,
        },
        Shape::Exact(cls, n) => if exact_run(t, e, n, cls) {
            Some((e, e + n))
        } else {
            None
        },
        Shape::Date => if date_is(t, e) {
            Some((e, e + 10))
        } else {
            None
        },
        Shape::Time => find_time(t, q),
        Shape::Amount => find_amount(t, q),
    }
}

/// The leftmost match of field `f` in `t`, as the span of its value.
pub fn first_match_of(t: &Vec<char>, f: Field) -> (r: Option<(usize, usize)>)
    ensures
        span_of(r) == first_match(t@, 0, f),
        span_ok(r, t@.len()),
{
    let shape = field_shape(f);
    let mut p: usize = 0;
    while p < t.len()
        invariant
            p <= t@.len(),
            shape == shape_of(f),
            first_match(t@, p as int, f) == first_match(t@, 0, f),
        decreases t@.len() - p,
    {
        match find_label_end(t, p, f) {
            Some(q) => {
                let r = find_shape(t, q, shape);
                if r.is_some() {
                    return r;
                }
            },
            None => {},
        }
        p += 1;
    }
    None
}

/// The trimmed text of field `f`, or `None` where nothing matches or the
/// value is blank.
pub fn field_text(t: &Vec<char>, f: Field) -> (r: Option<String>)
    ensures
        opt_text(r) == field_value(t@, f),
{
    match first_match_of(t, f) {
        Some((a, b)) => {
            let (lo, hi) = trim_span(t, a, b);
            if hi > lo {
                Some(string_of(t, lo, hi))
            } else {
                None
            }
        },
        None => None,
    }
}

/// The values of the decimal digits of `s`, in order; other characters are
/// skipped.
pub open spec fn digit_values(s: Seq<char>) -> Seq<u8>
    decreases s.len(),
{
    if s.len() == 0 {
        Seq::empty()
    } else if is_digit(s.last()) {
        digit_values(s.drop_last()).push((s.last() as u32 - 48) as u8)
    } else {
        digit_values(s.drop_last())
    }
}

/// The amount written by `c`, which reads digits and commas, then possibly
/// a decimal point and digits: commas are dropped, and it is absent where no
/// digit is written.
pub open spec fn amount_from(c: Seq<char>) -> Option<DecimalView> {
    let k = run_end(c, 0, CharClass::DigitComma);
    let d = DecimalView {
        whole: digit_values(c.subrange(0, k)),
        frac: digit_values(c.subrange(k, c.len() as int)),
    };
    if d.whole.len() + d.frac.len() > 0 {
        Some(d)
    } else {
        None
    }
}

/// The estimated damage written after the first `ESTIMATE AMOUNT:` label
/// that an amount follows.
pub open spec fn amount_of(t: Seq<char>) -> Option<DecimalView> {
    match first_match(t, 0, Field::EstimateAmount) {
        Some((a, b)) => amount_from(t.subrange(a, b)),
        None => None,
    }
}

/// The label that a description follows.
pub open spec fn description_label() -> Seq<char> {
    "DESCRIPTION OF ACCIDENT:"@
}

/// The labels of the sections that may follow a description, each at the
/// start of a line.
pub open spec fn section_marker(i: int) -> Seq<char> {
    if i == 0 {
        "\nPOLICE OR FIRE"@
    } else if i == 1 {
        "\nINSURED VEHICLE"@
    } else if i == 2 {
        "\nDRIVER'S NAME"@
    } else if i == 3 {
        "\nOWNER'S NAME"@
    } else {
        "\nREPORT NUMBER"@
    }
}

/// Position of the first occurrence of `s` in `r`, or `r.len()`.
pub open spec fn first_or_end(r: Seq<char>, s: Seq<char>) -> int {
    match find_from(r, s, 0) {
        Some(k) => k,
        None => r.len() as int,
    }
}

pub open spec fn min_int(a: int, b: int) -> int {
    if a <= b {
        a
    } else {
        b
    }
}

/// Where the description that starts `r` ends: at the earliest section
/// marker, or at the end of the text.
pub open spec fn section_end(r: Seq<char>) -> int {
    min_int(
        first_or_end(r, section_marker(0)),
        min_int(
            first_or_end(r, section_marker(1)),
            min_int(
                first_or_end(r, section_marker(2)),
                min_int(first_or_end(r, section_marker(3)), first_or_end(r, section_marker(4))),
            ),
        ),
    )
}

/// The text after the first description label, up to the earliest section
/// marker, trimmed; absent unless it holds more than ten characters.
pub open spec fn description_of(t: Seq<char>) -> Option<Seq<char>> {
    match find_from(t, description_label(), 0) {
        None => None,
        Some(i) => {
            let r = t.subrange(i + description_label().len(), t.len() as int);
            let d = trimmed(r, 0, section_end(r));
            if d.len() > 10 {
                Some(d)
            } else {
                None
            }
        },
    }
}

/// The claim type that the lowercased text of a document suggests.
pub open spec fn inferred_claim_type(lowered: Seq<char>) -> Seq<char> {
    if contains(lowered, "injury"@) || contains(lowered, "injured"@) || contains(
        lowered,
        "hospital"@,
    ) {
        "Injury"@
    } else if contains(lowered, "collision"@) {
        "Collision"@
    } else {
        "Auto"@
    }
}

/// The claim type: the labelled one where there is one, else the one that
/// the lowercased text suggests.
pub open spec fn claim_type_of(t: Seq<char>, lowered: Seq<char>) -> Seq<char> {
    match field_value(t, Field::ClaimTypeLabel) {
        Some(v) => v,
        None => inferred_claim_type(lowered),
    }
}

/// The record read from text `t` whose lowercased form is `lowered`.
pub open spec fn extracted(t: Seq<char>, lowered: Seq<char>) -> FnolRecord {
    FnolRecord {
        policy_number: field_value(t, Field::PolicyNumber),
        policyholder_name: field_value(t, Field::PolicyholderName),
        insured_address: field_value(t, Field::InsuredAddress),
        incident_date: field_value(t, Field::IncidentDate),
        incident_time: field_value(t, Field::IncidentTime),
        location: field_value(t, Field::Location),
        description: description_of(t),
        estimated_damage: amount_of(t),
        claim_type: Some(claim_type_of(t, lowered)),
        vehicle_vin: field_value(t, Field::Vin),
        vehicle_year: field_value(t, Field::VehicleYear),
        vehicle_make: field_value(t, Field::VehicleMake),
        vehicle_model: field_value(t, Field::VehicleModel),
        driver_name: field_value(t, Field::DriverName),
        owner_name: field_value(t, Field::OwnerName),
        police_report_number: field_value(t, Field::PoliceReport),
    }
}

/// A copy of `t[a..b]`.
fn sub_vec(t: &Vec<char>, a: usize, b: usize) -> (r: Vec<char>)
    requires
        a <= b <= t@.len(),
    ensures
        r@ == t@.subrange(a as int, b as int),
{
    let mut v: Vec<char> = Vec::new();
    let mut i = a;
    while i < b
        invariant
            a <= i <= b <= t@.len(),
            v@ == t@.subrange(a as int, i as int),
        decreases b - i,
    {
        v.push(t[i]);
        i += 1;
        assert(v@ =~= t@.subrange(a as int, i as int));
    }
    v
}

fn digit_values_in(c: &Vec<char>, a: usize, b: usize) -> (r: Vec<u8>)
    requires
        a <= b <= c@.len(),
    ensures
        r@ == digit_values(c@.subrange(a as int, b as int)),
        forall|i: int| 0 <= i < r@.len() ==> r@[i] < 10,
{
    let mut v: Vec<u8> = Vec::new();
    let mut i = a;
    while i < b
        invariant
            a <= i <= b <= c@.len(),
            v@ == digit_values(c@.subrange(a as int, i as int)),
            forall|k: int| 0 <= k < v@.len() ==> v@[k] < 10,
        decreases b - i,
    {
        let ch = c[i];
        assert(c@.subrange(a as int, i + 1).drop_last() =~= c@.subrange(a as int, i as int));
        if '0' <= ch && ch <= '9' {
            v.push((ch as u32 - 48) as u8);
        }
        i += 1;
    }
    v
}

/// The amount that the characters `c` write, as `amount_from` reads them.
fn amount_in(c: &Vec<char>) -> (r: Option<Amount>)
    ensures
        opt_amount(r) == amount_from(c@),
        r matches Some(a) ==> a@.wf(),
{
    let k = scan_run(c, 0, CharClass::DigitComma);
    let whole = digit_values_in(c, 0, k);
    let frac = digit_values_in(c, k, c.len());
    if whole.len() > 0 || frac.len() > 0 {
        Some(Amount { whole, frac })
    } else {
        None
    }
}

fn damage_in(t: &Vec<char>) -> (r: Option<Amount>)
    ensures
        opt_amount(r) == amount_of(t@),
        r matches Some(a) ==> a@.wf(),
{
    match first_match_of(t, Field::EstimateAmount) {
        Some((a, b)) => {
            let c = sub_vec(t, a, b);
            amount_in(&c)
        },
        None => None,
    }
}

fn first_or_len(r: &Vec<char>, s: &str) -> (k: usize)
    ensures
        k as int == first_or_end(r@, s@),
        k <= r@.len(),
{
    proof {
        lemma_find_from(r@, s@, 0);
    }
    match find_text(r, s, 0) {
        Some(k) => k,
        None => r.len(),
    }
}

fn description_in(t: &Vec<char>) -> (r: Option<String>)
    ensures
        opt_text(r) == description_of(t@),
{
    proof {
        lemma_find_from(t@, description_label(), 0);
    }
    let label = "DESCRIPTION OF ACCIDENT:";
    let len = t.len();
    match find_text(t, label, 0) {
        None => None,
        Some(i) => {
            let r = sub_vec(t, i + label.unicode_len(), len);
            let e0 = first_or_len(&r, "\nPOLICE OR FIRE");
            let e1 = first_or_len(&r, "\nINSURED VEHICLE");
            let e2 = first_or_len(&r, "\nDRIVER'S NAME");
            let e3 = first_or_len(&r, "\nOWNER'S NAME");
            let e4 = first_or_len(&r, "\nREPORT NUMBER");
            let m34 = if e3 <= e4 { e3 } else { e4 };
            let m24 = if e2 <= m34 { e2 } else { m34 };
            let m14 = if e1 <= m24 { e1 } else { m24 };
            let end = if e0 <= m14 { e0 } else { m14 };
            let (lo, hi) = trim_span(&r, 0, end);
            if hi - lo > 10 {
                Some(string_of(&r, lo, hi))
            } else {
                None
            }
        },
    }
}

/// The accident description of a document: what follows its first
/// `DESCRIPTION OF ACCIDENT:` label, up to the earliest label of a later
/// section, trimmed; `None` where it holds ten characters or fewer.
pub fn extract_description(text: &str) -> (r: Option<String>)
    ensures
        opt_text(r) == description_of(text@),
{
    let t = chars_of(text);
    description_in(&t)
}

/// The claim type that the lowercased text `lowered` suggests: `Injury`
/// where it speaks of an injury, the injured or a hospital, else `Collision`
/// where it speaks of a collision, else `Auto`.
pub fn infer_claim_type(lowered: &str) -> (r: String)
    ensures
        r@ == inferred_claim_type(lowered@),
{
    let h = chars_of(lowered);
    if contains_text(&h, "injury") || contains_text(&h, "injured") || contains_text(&h, "hospital") {
        owned("Injury")
    } else if contains_text(&h, "collision") {
        owned("Collision")
    } else {
        owned("Auto")
    }
}

/// Reads every field of a document out of its text. Never fails: a field
/// whose label is missing, or whose value does not have the field's shape,
/// is absent. The claim type is always present.
pub fn extract_fields(text: &str) -> (r: FnolData)
    ensures
        r@ == extracted(text@, lower_of(text@)),
        r.estimated_damage matches Some(a) ==> a@.wf(),
{
    let t = chars_of(text);
    let claim_type = match field_text(&t, Field::ClaimTypeLabel) {
        Some(v) => v,
        None => {
            let lowered = lowercase(text);
            infer_claim_type(lowered.as_str())
        },
    };
    FnolData {
        policy_number: field_text(&t, Field::PolicyNumber),
        policyholder_name: field_text(&t, Field::PolicyholderName),
        insured_address: field_text(&t, Field::InsuredAddress),
        incident_date: field_text(&t, Field::IncidentDate),
        incident_time: field_text(&t, Field::IncidentTime),
        location: field_text(&t, Field::Location),
        description: description_in(&t),
        estimated_damage: damage_in(&t),
        claim_type: Some(claim_type),
        vehicle_vin: field_text(&t, Field::Vin),
        vehicle_year: field_text(&t, Field::VehicleYear),
        vehicle_make: field_text(&t, Field::VehicleMake),
        vehicle_model: field_text(&t, Field::VehicleModel),
        driver_name: field_text(&t, Field::DriverName),
        owner_name: field_text(&t, Field::OwnerName),
        police_report_number: field_text(&t, Field::PoliceReport),
    }
}

} // verus!
