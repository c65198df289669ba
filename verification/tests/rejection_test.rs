use axum::extract::rejection::{JsonRejection, MissingJsonContentType, MissingPathParams, PathRejection};
use summer_web::problem::ViolationLocation;
use summer_web::rejection::{
    extract_backtick_value, humanize_serde_message, json_problem, json_rejection_to_problem,
    path_problem, path_rejection_to_problem, query_problem, split_field_message,
    JsonRejectionKind,
};

#[test]
fn split_field_message_at_first_separator() {
    assert_eq!(split_field_message("age: invalid type: string"), ("age", "invalid type: string"));
    assert_eq!(split_field_message("no separator"), ("", "no separator"));
    assert_eq!(split_field_message(": x"), ("", "x"));
}

#[test]
fn extract_backtick_value_after_prefix() {
    assert_eq!(
        extract_backtick_value("missing field `name` at line 1", "missing field `"),
        Some("name")
    );
    assert_eq!(extract_backtick_value("nothing here", "missing field `"), None);
    assert_eq!(extract_backtick_value("missing field `unterminated", "missing field `"), None);
    assert_eq!(
        extract_backtick_value("Cannot parse `id` with value `abc` to a `u32`", "to a `"),
        Some("u32")
    );
}

#[test]
fn humanize_serde_messages() {
    assert_eq!(
        humanize_serde_message("missing field `email` at line 1 column 20"),
        "field 'email' is required"
    );
    assert_eq!(
        humanize_serde_message("invalid type: string \"x\", expected u32 at line 1 column 9"),
        "invalid type: string \"x\", expected u32"
    );
    assert_eq!(humanize_serde_message("something else"), "something else");
    assert_eq!(humanize_serde_message("trailing at line 3 column 1"), "trailing");
}

#[test]
fn json_data_error_with_field() {
    let p = json_problem(
        JsonRejectionKind::DataError,
        "Failed to deserialize the JSON body into the target type: age: invalid type: string \"x\", expected u32 at line 1 column 10",
    );
    assert_eq!(p.status, 400);
    assert_eq!(p.violations.len(), 1);
    assert_eq!(p.violations[0].field, "age");
    assert_eq!(p.violations[0].message, "invalid type: string \"x\", expected u32");
    assert_eq!(p.violations[0].location, ViolationLocation::Body);
}

#[test]
fn json_data_error_missing_field() {
    let p = json_problem(
        JsonRejectionKind::DataError,
        "Failed to deserialize the JSON body into the target type: missing field `name` at line 1 column 2",
    );
    assert_eq!(p.status, 400);
    assert_eq!(p.violations.len(), 1);
    assert_eq!(p.violations[0].field, "name");
    assert_eq!(p.violations[0].message, "this field is required");
}

#[test]
fn json_data_error_without_field() {
    let p = json_problem(JsonRejectionKind::DataError, "invalid length 3 at line 1 column 5");
    assert_eq!(p.status, 400);
    assert!(p.violations.is_empty());
    assert_eq!(p.detail.as_deref(), Some("invalid length 3"));

    let p = json_problem(JsonRejectionKind::DataError, ".: bad value");
    assert!(p.violations.is_empty());
    assert_eq!(p.detail.as_deref(), Some(".: bad value"));
}

#[test]
fn json_other_rejections() {
    let p = json_problem(JsonRejectionKind::SyntaxError, "whatever");
    assert_eq!(p.status, 400);
    assert_eq!(p.detail.as_deref(), Some("request body is not valid JSON"));

    let p = json_problem(JsonRejectionKind::MissingContentType, "whatever");
    assert_eq!(p.status, 415);
    assert_eq!(p.detail.as_deref(), Some("expected Content-Type: application/json"));

    let p = json_problem(JsonRejectionKind::Other, "whatever");
    assert_eq!(p.status, 400);
    assert_eq!(p.detail.as_deref(), Some("failed to read request body"));
}

#[test]
fn query_rejections() {
    let p = query_problem("Failed to deserialize query string: missing field `page`");
    assert_eq!(p.violations.len(), 1);
    assert_eq!(p.violations[0].field, "page");
    assert_eq!(p.violations[0].message, "this query parameter is required");
    assert_eq!(p.violations[0].location, ViolationLocation::Query);

    let p = query_problem("Failed to deserialize query string: page: invalid digit found in string");
    assert_eq!(p.violations[0].field, "page");
    assert_eq!(p.violations[0].message, "invalid digit found in string");

    let p = query_problem("Failed to deserialize query string: expected a map");
    assert_eq!(p.status, 400);
    assert_eq!(p.violations[0].field, "query");
    assert_eq!(p.violations[0].message, "expected a map");
}

#[test]
fn path_rejections() {
    let p = path_problem("Invalid URL: Cannot parse `id` with value `abc` to a `u32`");
    assert_eq!(p.status, 400);
    assert_eq!(p.violations[0].field, "id");
    assert_eq!(p.violations[0].message, "must be a valid u32");
    assert_eq!(p.violations[0].location, ViolationLocation::Path);

    let p = path_problem("Cannot parse `id` somehow");
    assert_eq!(p.violations[0].field, "id");
    assert_eq!(p.violations[0].message, "must be a valid valid value");

    let p = path_problem("Wrong number of path arguments");
    assert_eq!(p.violations[0].field, "path");
    assert_eq!(p.violations[0].message, "invalid path parameter");
}

#[test]
fn axum_rejections_are_mapped() {
    let p = json_rejection_to_problem(JsonRejection::MissingJsonContentType(
        MissingJsonContentType::default(),
    ));
    assert_eq!(p.status, 415);
    assert_eq!(p.detail.as_deref(), Some("expected Content-Type: application/json"));

    let p = path_rejection_to_problem(PathRejection::MissingPathParams(MissingPathParams::default()));
    assert_eq!(p.status, 400);
    assert_eq!(p.violations[0].field, "path");
    assert_eq!(p.violations[0].message, "invalid path parameter");
}
