//! Turning request-extraction failures into problem details.
//!
//! The messages parsed here are the `body_text` of axum's JSON, query and
//! path rejections (axum 0.8 wording); when a message does not have the
//! expected shape, a generic violation is reported instead.

use vstd::prelude::*;
use axum::extract::rejection::JsonRejection;
use crate::problem::{
    invalid_fields, invalid_request, violation, ProblemDetails, ProblemView, Violation,
    ViolationLocation,
};
use crate::text::{chars_of, find, find_chars, owned, push_char, starts_with, starts_with_chars, str_eq};

verus! {

/// `s` without the prefix `p` when it starts with it, else `s`.
pub open spec fn strip_prefix(s: Seq<char>, p: Seq<char>) -> Seq<char> {
    if starts_with(s, p) {
        s.skip(p.len() as int)
    } else {
        s
    }
}

/// The text before and after the first `": "`; without one, an empty field
/// and the whole text.
pub open spec fn spec_split_field_message(s: Seq<char>) -> (Seq<char>, Seq<char>) {
    match find(s, ": "@) {
        Some(pos) => (s.take(pos), s.skip(pos + 2)),
        None => (Seq::empty(), s),
    }
}

/// Splits `field: message` at the first `": "`.
pub fn split_field_message(s: &str) -> (r: (&str, &str))
    ensures
        (r.0@, r.1@) == spec_split_field_message(s@),
{
    proof {
        reveal_strlit(": ");
        reveal_strlit("");
        assert(""@ =~= Seq::<char>::empty());
    }
    let cs = chars_of(s);
    let sep = chars_of(": ");
    match find_chars(&cs, &sep) {
        Some(pos) => {
            proof {
                crate::text::lemma_find_from(s@, ": "@, 0);
            }
            let n = s.unicode_len();
            let field = s.substring_char(0, pos);
            let rest = s.substring_char(pos + 2, n);
            assert(field@ =~= s@.take(pos as int));
            assert(rest@ =~= s@.skip(pos + 2));
            (field, rest)
        },
        None => ("", s),
    }
}

/// The text between `prefix` (first occurrence) and the next backtick.
pub open spec fn spec_extract_backtick_value(msg: Seq<char>, prefix: Seq<char>) -> Option<
    Seq<char>,
> {
    match find(msg, prefix) {
        None => None,
        Some(start) => {
            let rest = msg.skip(start + prefix.len());
            match find(rest, seq!['`']) {
                None => None,
                Some(end) => Some(rest.take(end)),
            }
        },
    }
}

/// The value between backticks after `prefix`: for the message
/// ``missing field `name` `` and the prefix ``missing field ` `` it is `name`.
pub fn extract_backtick_value<'a>(msg: &'a str, prefix: &str) -> (r: Option<&'a str>)
    ensures
        r matches Some(v) ==> spec_extract_backtick_value(msg@, prefix@) == Some(v@),
        r is None ==> spec_extract_backtick_value(msg@, prefix@) is None,
{
    let cs = chars_of(msg);
    let p = chars_of(prefix);
    let start = match find_chars(&cs, &p) {
        Some(start) => start,
        None => return None,
    };
    proof {
        crate::text::lemma_find_from(msg@, prefix@, 0);
    }
    let n = msg.unicode_len();
    let rest = msg.substring_char(start + p.len(), n);
    assert(rest@ =~= msg@.skip(start + prefix@.len()));
    let rest_chars = chars_of(rest);
    let mut tick: Vec<char> = Vec::new();
    tick.push('`');
    assert(tick@ =~= seq!['`']);
    match find_chars(&rest_chars, &tick) {
        Some(end) => {
            proof {
                crate::text::lemma_find_from(rest@, seq!['`'], 0);
            }
            let v = rest.substring_char(0, end);
            assert(v@ =~= rest@.take(end as int));
            Some(v)
        },
        None => None,
    }
}

/// A serde message made readable: the position suffix dropped, missing
/// fields named, type errors prefixed.
pub open spec fn spec_humanize_serde_message(raw: Seq<char>) -> Seq<char> {
    let clean = match find(raw, " at line "@) {
        Some(pos) => raw.take(pos),
        None => raw,
    };
    let missing = if starts_with(clean, "missing field"@) {
        spec_extract_backtick_value(clean, "missing field `"@)
    } else {
        None
    };
    match missing {
        Some(name) => "field '"@ + name + "' is required"@,
        None => if starts_with(clean, "invalid type:"@) {
            "invalid type: "@ + strip_prefix(clean, "invalid type: "@)
        } else {
            clean
        },
    }
}

fn strip_prefix_exec<'a>(s: &'a str, p: &str) -> (r: &'a str)
    ensures
        r@ == strip_prefix(s@, p@),
{
    let cs = chars_of(s);
    let pc = chars_of(p);
    if starts_with_chars(&cs, &pc) {
        let r = s.substring_char(p.unicode_len(), s.unicode_len());
        assert(r@ =~= s@.skip(p@.len() as int));
        r
    } else {
        s
    }
}

fn starts_with_str(s: &str, p: &str) -> (r: bool)
    ensures
        r == starts_with(s@, p@),
{
    let cs = chars_of(s);
    let pc = chars_of(p);
    starts_with_chars(&cs, &pc)
}

/// Turns serde's raw error text into a human-friendly sentence.
pub fn humanize_serde_message(raw: &str) -> (r: String)
    ensures
        r@ == spec_humanize_serde_message(raw@),
{
    let cs = chars_of(raw);
    let at_line = chars_of(" at line ");
    let clean = match find_chars(&cs, &at_line) {
        Some(pos) => {
            proof {
                crate::text::lemma_find_from(raw@, " at line "@, 0);
            }
            let c = raw.substring_char(0, pos);
            assert(c@ =~= raw@.take(pos as int));
            c
        },
        None => raw,
    };
    if starts_with_str(clean, "missing field") {
        if let Some(name) = extract_backtick_value(clean, "missing field `") {
            let mut out = owned("field '");
            out.append(name);
            out.append("' is required");
            return out;
        }
    }
    if starts_with_str(clean, "invalid type:") {
        let detail = strip_prefix_exec(clean, "invalid type: ");
        let mut out = owned("invalid type: ");
        out.append(detail);
        return out;
    }
    owned(clean)
}

/// Which kind of JSON rejection occurred.
#[derive(Clone, Copy, Debug, PartialEq, Eq, Structural)]
pub enum JsonRejectionKind {
    /// The body is JSON but does not fit the target type.
    DataError,
    /// The body is not valid JSON.
    SyntaxError,
    /// The request lacks `Content-Type: application/json`.
    MissingContentType,
    /// Any other failure to read the body.
    Other,
}

/// The response for a JSON body that could not be extracted.
pub open spec fn spec_json_problem(kind: JsonRejectionKind, msg: Seq<char>) -> ProblemView {
    match kind {
        JsonRejectionKind::DataError => {
            let stripped = strip_prefix(
                msg,
                "Failed to deserialize the JSON body into the target type: "@,
            );
            let (field, detail) = spec_split_field_message(stripped);
            if field.len() > 0 && field != "."@ {
                invalid_fields(
                    seq![violation(field, spec_humanize_serde_message(detail), ViolationLocation::Body)],
                )
            } else {
                match spec_extract_backtick_value(stripped, "missing field `"@) {
                    Some(name) => invalid_fields(
                        seq![violation(name, "this field is required"@, ViolationLocation::Body)],
                    ),
                    None => invalid_request(spec_humanize_serde_message(stripped)),
                }
            }
        },
        JsonRejectionKind::SyntaxError => invalid_request("request body is not valid JSON"@),
        JsonRejectionKind::MissingContentType => ProblemView {
            status: 415,
            detail: Some("expected Content-Type: application/json"@),
            violations: Seq::empty(),
        },
        JsonRejectionKind::Other => invalid_request("failed to read request body"@),
    }
}

fn one_violation(v: Violation) -> (r: Vec<Violation>)
    ensures
        r@.map_values(|x: Violation| x@) == seq![v@],
{
    let mut r: Vec<Violation> = Vec::new();
    r.push(v);
    assert(r@.map_values(|x: Violation| x@) =~= seq![v@]);
    r
}

/// The response for a JSON body that could not be extracted, from the kind of
/// failure and its message.
pub fn json_problem(kind: JsonRejectionKind, msg: &str) -> (p: ProblemDetails)
    ensures
        p@ == spec_json_problem(kind, msg@),
{
    match kind {
        JsonRejectionKind::DataError => {
            let stripped = strip_prefix_exec(
                msg,
                "Failed to deserialize the JSON body into the target type: ",
            );
            let (field, detail) = split_field_message(stripped);
            if field.unicode_len() > 0 && !str_eq(field, ".") {
                let message = humanize_serde_message(detail);
                ProblemDetails::validation_error(
                    one_violation(Violation::body(field, message.as_str())),
                )
            } else if let Some(name) = extract_backtick_value(stripped, "missing field `") {
                ProblemDetails::validation_error(
                    one_violation(Violation::body(name, "this field is required")),
                )
            } else {
                let message = humanize_serde_message(stripped);
                ProblemDetails::validation_error_simple(message.as_str())
            }
        },
        JsonRejectionKind::SyntaxError => ProblemDetails::validation_error_simple(
            "request body is not valid JSON",
        ),
        JsonRejectionKind::MissingContentType => ProblemDetails::new(415).with_detail(
            owned("expected Content-Type: application/json"),
        ),
        JsonRejectionKind::Other => ProblemDetails::validation_error_simple(
            "failed to read request body",
        ),
    }
}

/// The response for a query string that could not be extracted.
pub open spec fn spec_query_problem(msg: Seq<char>) -> ProblemView {
    let stripped = strip_prefix(msg, "Failed to deserialize query string: "@);
    match spec_extract_backtick_value(stripped, "missing field `"@) {
        Some(name) => invalid_fields(
            seq![violation(name, "this query parameter is required"@, ViolationLocation::Query)],
        ),
        None => {
            let (field, detail) = spec_split_field_message(stripped);
            if field.len() > 0 {
                invalid_fields(
                    seq![violation(field, spec_humanize_serde_message(detail), ViolationLocation::Query)],
                )
            } else {
                invalid_fields(
                    seq![violation("query"@, spec_humanize_serde_message(stripped), ViolationLocation::Query)],
                )
            }
        },
    }
}

/// The response for a query string that could not be extracted, from the
/// rejection's message.
pub fn query_problem(msg: &str) -> (p: ProblemDetails)
    ensures
        p@ == spec_query_problem(msg@),
{
    let stripped = strip_prefix_exec(msg, "Failed to deserialize query string: ");
    if let Some(name) = extract_backtick_value(stripped, "missing field `") {
        ProblemDetails::validation_error(
            one_violation(Violation::query(name, "this query parameter is required")),
        )
    } else {
        let (field, detail) = split_field_message(stripped);
        if field.unicode_len() > 0 {
            let message = humanize_serde_message(detail);
            ProblemDetails::validation_error(one_violation(Violation::query(field, message.as_str())))
        } else {
            let message = humanize_serde_message(stripped);
            ProblemDetails::validation_error(
                one_violation(Violation::query("query", message.as_str())),
            )
        }
    }
}

/// The response for path parameters that could not be extracted.
pub open spec fn spec_path_problem(msg: Seq<char>) -> ProblemView {
    match spec_extract_backtick_value(msg, "Cannot parse `"@) {
        Some(name) => {
            let expected = match spec_extract_backtick_value(msg, "to a `"@) {
                Some(t) => t,
                None => "valid value"@,
            };
            invalid_fields(
                seq![violation(name, "must be a valid "@ + expected, ViolationLocation::Path)],
            )
        },
        None => invalid_fields(
            seq![violation("path"@, "invalid path parameter"@, ViolationLocation::Path)],
        ),
    }
}

/// The response for path parameters that could not be extracted, from the
/// rejection's message.
pub fn path_problem(msg: &str) -> (p: ProblemDetails)
    ensures
        p@ == spec_path_problem(msg@),
{
    if let Some(name) = extract_backtick_value(msg, "Cannot parse `") {
        let expected = match extract_backtick_value(msg, "to a `") {
            Some(t) => t,
            None => "valid value",
        };
        let mut message = owned("must be a valid ");
        message.append(expected);
        ProblemDetails::validation_error(one_violation(Violation::path(name, message.as_str())))
    } else {
        ProblemDetails::validation_error(
            one_violation(Violation::path("path", "invalid path parameter")),
        )
    }
}


#[verifier::external_type_specification]
#[verifier::external_body]
pub struct ExJsonRejection(axum::extract::rejection::JsonRejection);

#[verifier::external_type_specification]
#[verifier::external_body]
pub struct ExQueryRejection(axum::extract::rejection::QueryRejection);

#[verifier::external_type_specification]
#[verifier::external_body]
pub struct ExPathRejection(axum::extract::rejection::PathRejection);

/// Which kind of JSON rejection a rejection is, by its variant.
pub uninterp spec fn json_rejection_variant(rejection: axum::extract::rejection::JsonRejection) -> JsonRejectionKind;

/// The text axum's `body_text` gives for a JSON rejection.
pub uninterp spec fn json_rejection_body(rejection: axum::extract::rejection::JsonRejection) -> Seq<char>;

/// The text axum's `body_text` gives for a query rejection.
pub uninterp spec fn query_rejection_body(rejection: axum::extract::rejection::QueryRejection) -> Seq<char>;

/// The text axum's `body_text` gives for a path rejection.
pub uninterp spec fn path_rejection_body(rejection: axum::extract::rejection::PathRejection) -> Seq<char>;

/// Tells the variants of axum's `JsonRejection` apart: data errors, syntax
/// errors, a missing content type, and every other variant. The result is
/// named `json_rejection_variant`.
#[verifier::external_body]
fn json_rejection_kind(rejection: &axum::extract::rejection::JsonRejection) -> (r: JsonRejectionKind)
    ensures
        r == json_rejection_variant(*rejection),
{
    match rejection {
        JsonRejection::JsonDataError(_) => JsonRejectionKind::DataError,
        JsonRejection::JsonSyntaxError(_) => JsonRejectionKind::SyntaxError,
        JsonRejection::MissingJsonContentType(_) => JsonRejectionKind::MissingContentType,
        _ => JsonRejectionKind::Other,
    }
}

/// Calls `JsonRejection::body_text`, the message axum responds with; the
/// text is named `json_rejection_body`.
#[verifier::external_body]
fn json_rejection_text(rejection: &axum::extract::rejection::JsonRejection) -> (r: String)
    ensures
        r@ == json_rejection_body(*rejection),
{
    rejection.body_text()
}

/// Calls `QueryRejection::body_text`, the message axum responds with; the
/// text is named `query_rejection_body`.
#[verifier::external_body]
fn query_rejection_text(rejection: &axum::extract::rejection::QueryRejection) -> (r: String)
    ensures
        r@ == query_rejection_body(*rejection),
{
    rejection.body_text()
}

/// Calls `PathRejection::body_text`, the message axum responds with; the
/// text is named `path_rejection_body`.
#[verifier::external_body]
fn path_rejection_text(rejection: &axum::extract::rejection::PathRejection) -> (r: String)
    ensures
        r@ == path_rejection_body(*rejection),
{
    rejection.body_text()
}

/// The problem details for a failed JSON body extraction: the response that
/// `json_problem` gives for the rejection's kind and message.
pub fn json_rejection_to_problem(rejection: axum::extract::rejection::JsonRejection) -> (p: ProblemDetails)
    ensures
        p@ == spec_json_problem(json_rejection_variant(rejection), json_rejection_body(rejection)),
{
    let msg = json_rejection_text(&rejection);
    let kind = json_rejection_kind(&rejection);
    let p = json_problem(kind, msg.as_str());
    assert(p@ == spec_json_problem(kind, msg@));
    p
}

/// The problem details for a failed query extraction: the response that
/// `query_problem` gives for the rejection's message.
pub fn query_rejection_to_problem(rejection: axum::extract::rejection::QueryRejection) -> (p: ProblemDetails)
    ensures
        p@ == spec_query_problem(query_rejection_body(rejection)),
{
    let msg = query_rejection_text(&rejection);
    let p = query_problem(msg.as_str());
    assert(p@ == spec_query_problem(msg@));
    p
}

/// The problem details for a failed path extraction: the response that
/// `path_problem` gives for the rejection's message.
pub fn path_rejection_to_problem(rejection: axum::extract::rejection::PathRejection) -> (p: ProblemDetails)
    ensures
        p@ == spec_path_problem(path_rejection_body(rejection)),
{
    let msg = path_rejection_text(&rejection);
    let p = path_problem(msg.as_str());
    assert(p@ == spec_path_problem(msg@));
    p
}

} // verus!
