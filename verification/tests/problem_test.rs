use summer_web::extract::{GardeInternalError, ValidatorInternalError};
use summer_web::problem::{ProblemDetails, Violation, ViolationLocation};

#[test]
fn internal_validation_report_converts_to_problem_details() {
    let mut report = garde::Report::new();
    report.append(garde::Path::new("name"), garde::Error::new("too short"));

    let problem = ProblemDetails::from_garde_error(GardeInternalError::ValidationReport(
        report,
        ViolationLocation::Body,
    ));

    assert_eq!(problem.status, 400);
    assert_eq!(problem.violations.len(), 1);
    assert_eq!(problem.violations[0].field, "name");
    assert_eq!(problem.violations[0].message, "too short");
}

#[test]
fn internal_validation_errors_convert_to_problem_details() {
    let mut errors = validator::ValidationErrors::new();
    errors.add("name", validator::ValidationError::new("required"));

    let problem = ProblemDetails::from_validator_error(ValidatorInternalError::ValidationErrors(
        errors,
        ViolationLocation::Body,
    ));

    assert_eq!(problem.status, 400);
    assert_eq!(problem.violations.len(), 1);
    assert_eq!(problem.violations[0].field, "name");
    assert_eq!(problem.violations[0].location, ViolationLocation::Body);
}

#[test]
fn validator_form_rejection_maps_to_form_violation() {
    let mut errors = validator::ValidationErrors::new();
    errors.add(
        "email",
        validator::ValidationError::new("email").with_message("must be a valid email address".into()),
    );

    let problem = ProblemDetails::from_validation_errors(&errors, ViolationLocation::Form);

    assert_eq!(problem.status, 400);
    assert_eq!(problem.violations.len(), 1);
    assert_eq!(problem.violations[0].field, "email");
    assert_eq!(problem.violations[0].location, ViolationLocation::Form);
    assert_eq!(problem.violations[0].message, "must be a valid email address");
}

#[test]
fn garde_form_rejection_maps_to_form_violation() {
    let mut report = garde::Report::new();
    report.append(
        garde::Path::new("items").join(0).join("name"),
        garde::Error::new("must not be blank"),
    );

    let problem = ProblemDetails::from_garde_report(&report, ViolationLocation::Form);

    assert_eq!(problem.status, 400);
    assert_eq!(problem.violations.len(), 1);
    assert_eq!(problem.violations[0].field, "items[0].name");
    assert_eq!(problem.violations[0].location, ViolationLocation::Form);
    assert_eq!(problem.violations[0].message, "must not be blank");
}

#[test]
fn validator_typed_header_rejection_maps_to_header_violation() {
    let mut errors = validator::ValidationErrors::new();
    errors.add(
        "value",
        validator::ValidationError::new("length").with_message("invalid demo header".into()),
    );

    let problem = ProblemDetails::from_validation_errors(&errors, ViolationLocation::Header);

    assert_eq!(problem.status, 400);
    assert_eq!(problem.violations.len(), 1);
    assert_eq!(problem.violations[0].field, "value");
    assert_eq!(problem.violations[0].location, ViolationLocation::Header);
    assert_eq!(problem.violations[0].message, "invalid demo header");
}

#[test]
fn garde_typed_header_rejection_maps_to_header_violation() {
    let mut report = garde::Report::new();
    report.append(garde::Path::new("value"), garde::Error::new("invalid demo header"));

    let problem = ProblemDetails::from_garde_report(&report, ViolationLocation::Header);

    assert_eq!(problem.status, 400);
    assert_eq!(problem.violations.len(), 1);
    assert_eq!(problem.violations[0].field, "value");
    assert_eq!(problem.violations[0].location, ViolationLocation::Header);
    assert_eq!(problem.violations[0].message, "invalid demo header");
}

#[test]
fn garde_report_keeps_entry_order() {
    let mut report = garde::Report::new();
    report.append(garde::Path::new("a"), garde::Error::new("first"));
    report.append(garde::Path::new("b"), garde::Error::new("second"));

    let problem = ProblemDetails::from_garde_report(&report, ViolationLocation::Query);

    assert_eq!(problem.status, 400);
    assert_eq!(problem.detail, None);
    assert_eq!(problem.violations.len(), 2);
    assert_eq!(problem.violations[0].field, "a");
    assert_eq!(problem.violations[0].message, "first");
    assert_eq!(problem.violations[1].field, "b");
    assert_eq!(problem.violations[1].message, "second");
    assert_eq!(problem.violations[1].location, ViolationLocation::Query);
}

#[test]
fn validator_error_without_message_uses_code() {
    let mut errors = validator::ValidationErrors::new();
    errors.add("page_size", validator::ValidationError::new("page_size_too_large"));

    let problem = ProblemDetails::from_validation_errors(&errors, ViolationLocation::Path);

    assert_eq!(problem.violations.len(), 1);
    assert_eq!(problem.violations[0].field, "page_size");
    assert_eq!(problem.violations[0].message, "page_size_too_large");
    assert_eq!(problem.violations[0].location, ViolationLocation::Path);
}

#[test]
fn empty_reports_give_no_violations() {
    let report = garde::Report::new();
    let problem = ProblemDetails::from_garde_report(&report, ViolationLocation::Body);
    assert_eq!(problem.status, 400);
    assert!(problem.violations.is_empty());

    let errors = validator::ValidationErrors::new();
    let problem = ProblemDetails::from_validation_errors(&errors, ViolationLocation::Body);
    assert_eq!(problem.status, 400);
    assert!(problem.violations.is_empty());
}

#[test]
fn missing_registry_is_a_server_error() {
    let problem = ProblemDetails::from_garde_error(GardeInternalError::MissingRegistry);
    assert_eq!(problem.status, 500);
    assert_eq!(
        problem.detail.as_deref(),
        Some("Server validation configuration is unavailable.")
    );
    assert!(problem.violations.is_empty());

    let problem = ProblemDetails::from_validator_error(ValidatorInternalError::MissingRegistry);
    assert_eq!(problem.status, 500);
    assert_eq!(
        problem.detail.as_deref(),
        Some("Server validation configuration is unavailable.")
    );
}

#[test]
fn missing_context_names_its_type() {
    let problem =
        ProblemDetails::from_garde_error(GardeInternalError::MissingContext("app::UserRules"));
    assert_eq!(problem.status, 500);
    assert_eq!(
        problem.detail.as_deref(),
        Some("Server validation configuration for 'app::UserRules' is unavailable.")
    );

    let problem =
        ProblemDetails::from_validator_error(ValidatorInternalError::MissingArgs("app::PageRules"));
    assert_eq!(problem.status, 500);
    assert_eq!(
        problem.detail.as_deref(),
        Some("Server validation configuration for 'app::PageRules' is unavailable.")
    );
    assert!(problem.violations.is_empty());
}

#[test]
fn problem_builders() {
    let p = ProblemDetails::new(404);
    assert_eq!(p.status, 404);
    assert_eq!(p.detail, None);
    assert!(p.violations.is_empty());

    let p = ProblemDetails::new(500).with_detail("boom".to_string());
    assert_eq!(p.status, 500);
    assert_eq!(p.detail.as_deref(), Some("boom"));

    let p = ProblemDetails::validation_error_simple("bad input");
    assert_eq!(p.status, 400);
    assert_eq!(p.detail.as_deref(), Some("bad input"));
    assert!(p.violations.is_empty());

    let p = ProblemDetails::validation_error(vec![
        Violation::body("name", "too short"),
        Violation::query("page", "too small"),
        Violation::path("id", "not a number"),
    ]);
    assert_eq!(p.status, 400);
    assert_eq!(p.violations.len(), 3);
    assert_eq!(p.violations[0].location, ViolationLocation::Body);
    assert_eq!(p.violations[1].location, ViolationLocation::Query);
    assert_eq!(p.violations[2].location, ViolationLocation::Path);
    assert_eq!(p.violations[2].field, "id");
    assert_eq!(p.violations[2].message, "not a number");

    let v = Violation::at(ViolationLocation::Header, "x-demo", "missing");
    assert_eq!(v.location, ViolationLocation::Header);
    assert_eq!(v.field, "x-demo");
}

#[test]
fn problem_from_plain_entries() {
    let p = ProblemDetails::from_garde_entries(
        &vec![("items[0].name".to_string(), "must not be blank".to_string())],
        ViolationLocation::Form,
    );
    assert_eq!(p.status, 400);
    assert_eq!(p.violations.len(), 1);
    assert_eq!(p.violations[0].field, "items[0].name");
    assert_eq!(p.violations[0].message, "must not be blank");
    assert_eq!(p.violations[0].location, ViolationLocation::Form);

    let p = ProblemDetails::from_validator_entries(
        &vec![
            ("email".to_string(), "email".to_string(), Some("must be a valid email address".to_string())),
            ("name".to_string(), "required".to_string(), None),
        ],
        ViolationLocation::Body,
    );
    assert_eq!(p.violations.len(), 2);
    assert_eq!(p.violations[0].message, "must be a valid email address");
    assert_eq!(p.violations[1].field, "name");
    assert_eq!(p.violations[1].message, "required");
}
