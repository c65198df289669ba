use summer_web::context::ValidationContextRegistry;
use summer_web::extract::{
    garde_fetch_registry, garde_validate_data, garde_validate_found, validator_fetch_registry,
    validator_validate_data, validator_validate_data_with_args, validator_validate_found_args, Garde, GardeInternalError,
    HasValidateArgs, Validator, ValidatorEx, ValidatorInternalError,
};
use summer_web::problem::{ProblemDetails, ViolationLocation};

#[derive(Clone, Debug)]
struct PageRules {
    max_page_size: usize,
}

#[derive(Clone, Debug)]
struct NameRules {
    min_len: usize,
}

fn validate_page_size(value: usize, ctx: &PageRules) -> Result<(), validator::ValidationErrors> {
    if value > ctx.max_page_size {
        let mut errors = validator::ValidationErrors::new();
        errors.add("page_size", validator::ValidationError::new("page_size_too_large"));
        return Err(errors);
    }
    Ok(())
}

fn validate_name(name: &str, ctx: &NameRules) -> Result<(), garde::Report> {
    if name.len() < ctx.min_len {
        let mut report = garde::Report::new();
        report.append(garde::Path::new("name"), garde::Error::new("too short"));
        return Err(report);
    }
    Ok(())
}

#[test]
fn garde_registry_is_not_needed_for_unit_context() {
    assert!(matches!(garde_fetch_registry(true, None), Ok(None)));
    assert!(matches!(
        garde_fetch_registry(true, Some(ValidationContextRegistry::new())),
        Ok(None)
    ));
}

#[test]
fn garde_registry_is_required_for_custom_context() {
    assert!(matches!(
        garde_fetch_registry(false, None),
        Err(GardeInternalError::MissingRegistry)
    ));
    let mut registry = ValidationContextRegistry::new();
    registry.insert(NameRules { min_len: 3 });
    match garde_fetch_registry(false, Some(registry)) {
        Ok(Some(found)) => assert!(found.contains::<NameRules>()),
        _ => panic!("registry expected"),
    }
}

#[test]
fn garde_unit_context_validates_without_registry() {
    let ok = garde_validate_data::<NameRules, _, _>(
        true,
        None,
        "NameRules",
        ViolationLocation::Body,
        || Ok(()),
        |_ctx: &NameRules| panic!("context not used"),
    );
    assert!(ok.is_ok());

    let failed = garde_validate_data::<NameRules, _, _>(
        true,
        None,
        "NameRules",
        ViolationLocation::Query,
        || validate_name("a", &NameRules { min_len: 3 }),
        |_ctx: &NameRules| Ok(()),
    );
    match failed {
        Err(GardeInternalError::ValidationReport(report, location)) => {
            assert_eq!(location, ViolationLocation::Query);
            let problem = ProblemDetails::from_garde_report(&report, location);
            assert_eq!(problem.violations[0].field, "name");
        }
        _ => panic!("validation report expected"),
    }
}

#[test]
fn garde_header_missing_registry_returns_server_error_without_registry() {
    let r = garde_validate_data::<NameRules, _, _>(
        false,
        None,
        "NameRules",
        ViolationLocation::Header,
        || Ok(()),
        |_ctx: &NameRules| Ok(()),
    );
    assert!(matches!(r, Err(GardeInternalError::MissingRegistry)));
    let problem = ProblemDetails::from_garde_error(r.unwrap_err());
    assert_eq!(problem.status, 500);
}

#[test]
fn garde_missing_context_is_named() {
    let registry = ValidationContextRegistry::new();
    let r = garde_validate_data::<NameRules, _, _>(
        false,
        Some(&registry),
        "NameRules",
        ViolationLocation::Body,
        || Ok(()),
        |_ctx: &NameRules| Ok(()),
    );
    match r {
        Err(GardeInternalError::MissingContext(name)) => assert_eq!(name, "NameRules"),
        _ => panic!("missing context expected"),
    }
}

#[test]
fn garde_context_from_registry_drives_validation() {
    let mut registry = ValidationContextRegistry::new();
    registry.insert(NameRules { min_len: 3 });

    let ok = garde_validate_data::<NameRules, _, _>(
        false,
        Some(&registry),
        "NameRules",
        ViolationLocation::Header,
        || panic!("unit path not used"),
        |ctx: &NameRules| validate_name("abcd", ctx),
    );
    assert!(ok.is_ok());

    let failed = garde_validate_data::<NameRules, _, _>(
        false,
        Some(&registry),
        "NameRules",
        ViolationLocation::Header,
        || Ok(()),
        |ctx: &NameRules| validate_name("ab", ctx),
    );
    let problem = ProblemDetails::from_garde_error(failed.unwrap_err());
    assert_eq!(problem.status, 400);
    assert_eq!(problem.violations.len(), 1);
    assert_eq!(problem.violations[0].location, ViolationLocation::Header);
    assert_eq!(problem.violations[0].message, "too short");
}

#[test]
fn validator_registry_is_required() {
    assert!(matches!(
        validator_fetch_registry(None),
        Err(ValidatorInternalError::MissingRegistry)
    ));
    let mut registry = ValidationContextRegistry::new();
    registry.insert(PageRules { max_page_size: 100 });
    let found = validator_fetch_registry(Some(registry)).ok().expect("registry");
    assert_eq!(found.get::<PageRules>().unwrap().max_page_size, 100);
}

#[test]
fn validator_plain_validation_maps_errors_to_location() {
    assert!(validator_validate_data(ViolationLocation::Body, || Ok(())).is_ok());
    let r = validator_validate_data(ViolationLocation::Form, || {
        validate_page_size(20, &PageRules { max_page_size: 10 })
    });
    let problem = ProblemDetails::from_validator_error(r.unwrap_err());
    assert_eq!(problem.status, 400);
    assert_eq!(problem.violations.len(), 1);
    assert_eq!(problem.violations[0].field, "page_size");
    assert_eq!(problem.violations[0].location, ViolationLocation::Form);
}

#[test]
fn validator_args_use_registered_context() {
    let mut registry = ValidationContextRegistry::new();
    registry.insert(PageRules { max_page_size: 100 });
    let r = validator_validate_data_with_args::<PageRules, _>(
        &registry,
        "PageRules",
        ViolationLocation::Body,
        |ctx: &PageRules| validate_page_size(20, ctx),
    );
    assert!(r.is_ok());
}

#[test]
fn validator_args_validation_error_maps_to_body_violation() {
    let mut registry = ValidationContextRegistry::new();
    registry.insert(PageRules { max_page_size: 10 });
    let r = validator_validate_data_with_args::<PageRules, _>(
        &registry,
        "PageRules",
        ViolationLocation::Body,
        |ctx: &PageRules| validate_page_size(20, ctx),
    );
    let problem = ProblemDetails::from_validator_error(r.unwrap_err());
    assert_eq!(problem.status, 400);
    assert_eq!(problem.violations.len(), 1);
    assert_eq!(problem.violations[0].field, "page_size");
    assert_eq!(problem.violations[0].location, ViolationLocation::Body);
}

#[test]
fn validator_args_missing_concrete_args_is_server_error() {
    let registry = ValidationContextRegistry::new();
    let r = validator_validate_data_with_args::<PageRules, _>(
        &registry,
        "PageRules",
        ViolationLocation::Query,
        |ctx: &PageRules| validate_page_size(20, ctx),
    );
    match r {
        Err(ValidatorInternalError::MissingArgs(name)) => assert_eq!(name, "PageRules"),
        _ => panic!("missing args expected"),
    }
    let problem = ProblemDetails::from_validator_error(ValidatorInternalError::MissingArgs(
        "PageRules",
    ));
    assert_eq!(problem.status, 500);
}

#[test]
fn extractor_wrappers_give_access_to_the_inner_value() {
    let mut g = Garde(5u32);
    assert_eq!(*g, 5);
    *g = 7;
    assert_eq!(g.0, 7);

    let mut v = Validator(String::from("a"));
    v.push('b');
    assert_eq!(v.as_str(), "ab");

    let e = ValidatorEx(vec![1, 2, 3]);
    assert_eq!(e.len(), 3);

    let d: Garde<u8> = Garde::default();
    assert_eq!(d.0, 0);
}

#[test]
fn extractors_expose_their_validated_value() {
    let json = axum::Json(PageRules { max_page_size: 3 });
    assert_eq!(json.get_validate_args().max_page_size, 3);
    let query = axum::extract::Query(7u32);
    assert_eq!(*query.get_validate_args(), 7);
    let path = axum::extract::Path(String::from("id"));
    assert_eq!(path.get_validate_args(), "id");
    let form = axum::extract::Form(vec![1u8]);
    assert_eq!(form.get_validate_args().len(), 1);
    let header = axum_extra::TypedHeader(9i64);
    assert_eq!(*header.get_validate_args(), 9);
}

#[test]
fn garde_found_context_drives_validation() {
    let rules = NameRules { min_len: 5 };
    let r = garde_validate_found(Some(&rules), "NameRules", ViolationLocation::Header, |ctx: &NameRules| {
        validate_name("abcd", ctx)
    });
    match r {
        Err(GardeInternalError::ValidationReport(_, location)) => {
            assert_eq!(location, ViolationLocation::Header)
        }
        _ => panic!("validation report expected"),
    }
    let ok = garde_validate_found(Some(&rules), "NameRules", ViolationLocation::Header, |ctx: &NameRules| {
        validate_name("abcdef", ctx)
    });
    assert!(ok.is_ok());
    let missing = garde_validate_found::<NameRules, _>(None, "NameRules", ViolationLocation::Header, |_ctx: &NameRules| Ok(()));
    assert!(matches!(missing, Err(GardeInternalError::MissingContext("NameRules"))));
}

#[test]
fn validator_found_args_drive_validation() {
    let rules = PageRules { max_page_size: 100 };
    let ok = validator_validate_found_args(Some(&rules), "PageRules", ViolationLocation::Body, |ctx: &PageRules| {
        validate_page_size(20, ctx)
    });
    assert!(ok.is_ok());
    let failed = validator_validate_found_args(Some(&rules), "PageRules", ViolationLocation::Query, |ctx: &PageRules| {
        validate_page_size(200, ctx)
    });
    let problem = ProblemDetails::from_validator_error(failed.unwrap_err());
    assert_eq!(problem.violations[0].location, ViolationLocation::Query);
    let missing = validator_validate_found_args::<PageRules, _>(None, "PageRules", ViolationLocation::Body, |_ctx: &PageRules| Ok(()));
    assert!(matches!(missing, Err(ValidatorInternalError::MissingArgs("PageRules"))));
}
