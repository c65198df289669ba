//! RFC 9457 problem details with field-level violations, as returned when a
//! request fails validation.

use vstd::prelude::*;
use vstd::multiset::Multiset;
use crate::text::owned;

verus! {

/// Where in the request a violation was found.
#[derive(Clone, Copy, Debug, PartialEq, Eq, Structural)]
pub enum ViolationLocation {
    Body,
    Query,
    Path,
    Form,
    Header,
}

/// One field that failed validation.
pub struct Violation {
    pub field: String,
    pub message: String,
    pub location: ViolationLocation,
}

/// A violation as mathematical values.
pub struct ViolationView {
    pub field: Seq<char>,
    pub message: Seq<char>,
    pub location: ViolationLocation,
}

impl View for Violation {
    type V = ViolationView;

    open spec fn view(&self) -> ViolationView {
        ViolationView { field: self.field@, message: self.message@, location: self.location }
    }
}

/// An error response: its HTTP status, an optional explanation, and the
/// fields that failed validation.
pub struct ProblemDetails {
    pub status: u16,
    pub detail: Option<String>,
    pub violations: Vec<Violation>,
}

/// A problem response as mathematical values.
pub struct ProblemView {
    pub status: u16,
    pub detail: Option<Seq<char>>,
    pub violations: Seq<ViolationView>,
}

impl View for ProblemDetails {
    type V = ProblemView;

    open spec fn view(&self) -> ProblemView {
        ProblemView {
            status: self.status,
            detail: match self.detail {
                Some(d) => Some(d@),
                None => None,
            },
            violations: self.violations@.map_values(|v: Violation| v@),
        }
    }
}

/// A violation made of plain values.
pub open spec fn violation(field: Seq<char>, message: Seq<char>, location: ViolationLocation) -> ViolationView {
    ViolationView { field, message, location }
}

/// A response with the given status and nothing else.
pub open spec fn status_only(status: u16) -> ProblemView {
    ProblemView { status, detail: None, violations: Seq::empty() }
}

/// A 400 response listing violations.
pub open spec fn invalid_fields(violations: Seq<ViolationView>) -> ProblemView {
    ProblemView { status: 400, detail: None, violations }
}

/// A 400 response with an explanation and no violations.
pub open spec fn invalid_request(detail: Seq<char>) -> ProblemView {
    ProblemView { status: 400, detail: Some(detail), violations: Seq::empty() }
}

impl Violation {
    /// A violation at the given location.
    pub fn at(location: ViolationLocation, field: &str, message: &str) -> (v: Violation)
        ensures
            v@ == violation(field@, message@, location),
    {
        Violation { field: owned(field), message: owned(message), location }
    }

    /// A violation in the request body.
    pub fn body(field: &str, message: &str) -> (v: Violation)
        ensures
            v@ == violation(field@, message@, ViolationLocation::Body),
    {
        Self::at(ViolationLocation::Body, field, message)
    }

    /// A violation in the query string.
    pub fn query(field: &str, message: &str) -> (v: Violation)
        ensures
            v@ == violation(field@, message@, ViolationLocation::Query),
    {
        Self::at(ViolationLocation::Query, field, message)
    }

    /// A violation in the path parameters.
    pub fn path(field: &str, message: &str) -> (v: Violation)
        ensures
            v@ == violation(field@, message@, ViolationLocation::Path),
    {
        Self::at(ViolationLocation::Path, field, message)
    }
}

impl ProblemDetails {
    /// A response with the given status and nothing else.
    pub fn new(status: u16) -> (p: ProblemDetails)
        ensures
            p@ == status_only(status),
    {
        let p = ProblemDetails { status, detail: None, violations: Vec::new() };
        assert(p@.violations =~= Seq::<ViolationView>::empty());
        p
    }

    /// The same response with an explanation.
    pub fn with_detail(self, detail: String) -> (p: ProblemDetails)
        ensures
            p@ == (ProblemView { detail: Some(detail@), ..self@ }),
    {
        ProblemDetails { status: self.status, detail: Some(detail), violations: self.violations }
    }

    /// A 400 response listing violations.
    pub fn validation_error(violations: Vec<Violation>) -> (p: ProblemDetails)
        ensures
            p@ == invalid_fields(violations@.map_values(|v: Violation| v@)),
    {
        ProblemDetails { status: 400, detail: None, violations }
    }

    /// A 400 response with an explanation and no violations.
    pub fn validation_error_simple(detail: &str) -> (p: ProblemDetails)
        ensures
            p@ == invalid_request(detail@),
    {
        let p = ProblemDetails { status: 400, detail: Some(owned(detail)), violations: Vec::new() };
        assert(p@.violations =~= Seq::<ViolationView>::empty());
        p
    }
}

#[verifier::external_type_specification]
#[verifier::external_body]
pub struct ExGardeReport(garde::Report);

#[verifier::external_type_specification]
#[verifier::external_body]
pub struct ExValidationErrors(validator::ValidationErrors);

/// What a garde report holds: its `(path, error)` pairs in the order they
/// were appended, each as the path's display form and the error's message.
pub uninterp spec fn garde_report_entries(report: garde::Report) -> Seq<(Seq<char>, Seq<char>)>;

/// What a validator error set holds at field level: one
/// `(field, code, message)` triple per field error.
pub uninterp spec fn validation_field_errors(errors: validator::ValidationErrors) -> Multiset<
    (Seq<char>, Seq<char>, Option<Seq<char>>),
>;

/// Walks `garde::Report::iter`, turning each pair into the path's
/// `Display` form and `Error::message`; the result lists the report's
/// entries in order.
#[verifier::external_body]
fn report_entries(report: &garde::Report) -> (r: Vec<(String, String)>)
    ensures
        r@.map_values(|e: (String, String)| (e.0@, e.1@)) == garde_report_entries(*report),
{
    report.iter().map(|(path, error)| (path.to_string(), error.message().to_string())).collect()
}

/// A list of `(field, code, message)` entries as mathematical values.
pub open spec fn entry_views(
    es: Seq<(String, String, Option<String>)>,
) -> Seq<(Seq<char>, Seq<char>, Option<Seq<char>>)> {
    es.map_values(
        |e: (String, String, Option<String>)|
            (
                e.0@,
                e.1@,
                match e.2 {
                    Some(m) => Some(m@),
                    None => None,
                },
            ),
    )
}

/// Walks `ValidationErrors::field_errors` and each field's error list,
/// giving each error's field, `code` and `message`. The field map is a hash
/// map, so the order of fields is left open: only the multiset is stated.
#[verifier::external_body]
fn field_error_entries(errors: &validator::ValidationErrors) -> (r: Vec<(String, String, Option<String>)>)
    ensures
        entry_views(r@).to_multiset() == validation_field_errors(*errors),
{
    let mut out = Vec::new();
    for (field, list) in errors.field_errors() {
        for e in list.iter() {
            out.push((field.to_string(), e.code.to_string(), e.message.as_ref().map(|m| m.to_string())));
        }
    }
    out
}

/// The violation for one garde report entry.
pub open spec fn garde_violation(e: (Seq<char>, Seq<char>), location: ViolationLocation) -> ViolationView {
    violation(e.0, e.1, location)
}

/// The violation for one validator field error: its message when it has
/// one, else its code.
pub open spec fn validator_violation(
    e: (Seq<char>, Seq<char>, Option<Seq<char>>),
    location: ViolationLocation,
) -> ViolationView {
    violation(
        e.0,
        match e.2 {
            Some(m) => m,
            None => e.1,
        },
        location,
    )
}

impl ProblemDetails {
    /// A 400 response with one violation per garde report entry, in order.
    pub fn from_garde_report(report: &garde::Report, location: ViolationLocation) -> (p: ProblemDetails)
        ensures
            p@ == invalid_fields(
                garde_report_entries(*report).map_values(
                    |e: (Seq<char>, Seq<char>)| garde_violation(e, location),
                ),
            ),
    {
        let entries = report_entries(report);
        Self::from_garde_entries(&entries, location)
    }

    /// A 400 response with one violation per `(path, message)` entry of a
    /// garde report, in order.
    pub fn from_garde_entries(entries: &Vec<(String, String)>, location: ViolationLocation) -> (p:
        ProblemDetails)
        ensures
            p@ == invalid_fields(
                entries@.map_values(|e: (String, String)| (e.0@, e.1@)).map_values(
                    |e: (Seq<char>, Seq<char>)| garde_violation(e, location),
                ),
            ),
    {
        let ghost es = entries@.map_values(|e: (String, String)| (e.0@, e.1@));
        let mut violations: Vec<Violation> = Vec::new();
        let mut i: usize = 0;
        while i < entries.len()
            invariant
                i <= entries.len(),
                violations.len() == i,
                es == entries@.map_values(|e: (String, String)| (e.0@, e.1@)),
                violations@.map_values(|v: Violation| v@) == es.take(i as int).map_values(
                    |e: (Seq<char>, Seq<char>)| garde_violation(e, location),
                ),
            decreases entries.len() - i,
        {
            let (field, message) = &entries[i];
            let ghost before = violations@;
            violations.push(Violation::at(location, field.as_str(), message.as_str()));
            assert(es[i as int] == (field@, message@));
            assert forall|k: int| 0 <= k < i + 1 implies #[trigger] violations@[k]@ == garde_violation(
                es[k],
                location,
            ) by {
                if k < i {
                    assert(before[k] == violations@[k]);
                    assert(before.map_values(|v: Violation| v@)[k] == es.take(i as int).map_values(
                        |e: (Seq<char>, Seq<char>)| garde_violation(e, location),
                    )[k]);
                }
            }
            assert(violations@.map_values(|v: Violation| v@) =~= es.take(i + 1).map_values(
                |e: (Seq<char>, Seq<char>)| garde_violation(e, location),
            ));
            i = i + 1;
        }
        assert(es.take(entries.len() as int) =~= es);
        Self::validation_error(violations)
    }

    /// A 400 response with one violation per field-level validator error,
    /// carrying the error's message, or its code when it has none. The order
    /// of the violations is not stated.
    pub fn from_validation_errors(errors: &validator::ValidationErrors, location: ViolationLocation) -> (p: ProblemDetails)
        ensures
            p@.status == 400,
            p@.detail is None,
            exists|es: Seq<(Seq<char>, Seq<char>, Option<Seq<char>>)>|
                {
                    &&& es.to_multiset() == validation_field_errors(*errors)
                    &&& p@.violations == es.map_values(
                        |e: (Seq<char>, Seq<char>, Option<Seq<char>>)| validator_violation(e, location),
                    )
                },
    {
        let entries = field_error_entries(errors);
        let p = Self::from_validator_entries(&entries, location);
        assert(p@.violations == entry_views(entries@).map_values(
            |e: (Seq<char>, Seq<char>, Option<Seq<char>>)| validator_violation(e, location),
        ));
        p
    }

    /// A 400 response with one violation per `(field, code, message)` entry
    /// of a validator error set, in order, carrying the message or, when
    /// there is none, the code.
    pub fn from_validator_entries(
        entries: &Vec<(String, String, Option<String>)>,
        location: ViolationLocation,
    ) -> (p: ProblemDetails)
        ensures
            p@ == invalid_fields(
                entry_views(entries@).map_values(
                    |e: (Seq<char>, Seq<char>, Option<Seq<char>>)| validator_violation(e, location),
                ),
            ),
    {
        let ghost es = entries@.map_values(
            |e: (String, String, Option<String>)|
                (
                    e.0@,
                    e.1@,
                    match e.2 {
                        Some(m) => Some(m@),
                        None => None,
                    },
                ),
        );
        let mut violations: Vec<Violation> = Vec::new();
        let mut i: usize = 0;
        while i < entries.len()
            invariant
                i <= entries.len(),
                violations.len() == i,
                es.len() == entries.len(),
                forall|k: int| 0 <= k < entries.len() ==> #[trigger] es[k] == (
                    entries@[k].0@,
                    entries@[k].1@,
                    match entries@[k].2 {
                        Some(m) => Some(m@),
                        None => None,
                    },
                ),
                violations@.map_values(|v: Violation| v@) == es.take(i as int).map_values(
                    |e: (Seq<char>, Seq<char>, Option<Seq<char>>)| validator_violation(e, location),
                ),
            decreases entries.len() - i,
        {
            let (field, code, message) = &entries[i];
            let text = match message {
                Some(m) => m.as_str(),
                None => code.as_str(),
            };
            let ghost before = violations@;
            violations.push(Violation::at(location, field.as_str(), text));
            assert forall|k: int| 0 <= k < i + 1 implies #[trigger] violations@[k]@
                == validator_violation(es[k], location) by {
                if k < i {
                    assert(before[k] == violations@[k]);
                    assert(before.map_values(|v: Violation| v@)[k] == es.take(i as int).map_values(
                        |e: (Seq<char>, Seq<char>, Option<Seq<char>>)| validator_violation(e, location),
                    )[k]);
                }
            }
            assert(es[i as int] == (
                entries@[i as int].0@,
                entries@[i as int].1@,
                match entries@[i as int].2 {
                    Some(m) => Some(m@),
                    None => None,
                },
            ));
            assert(violations@.map_values(|v: Violation| v@) =~= es.take(i + 1).map_values(
                |e: (Seq<char>, Seq<char>, Option<Seq<char>>)| validator_violation(e, location),
            ));
            i = i + 1;
        }
        assert(es.take(entries.len() as int) =~= es);
        Self::validation_error(violations)
    }
}

} // verus!
