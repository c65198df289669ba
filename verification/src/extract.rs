//! Validating extractor wrappers and the decisions they make.
//!
//! `Garde<E>` validates with `garde::Validate`, `Validator<E>` with
//! `validator::Validate`, and `ValidatorEx<E>` with `validator::ValidateArgs`
//! whose arguments come from the [`ValidationContextRegistry`]. Each failure
//! becomes problem details: configuration gaps are server errors (500),
//! validation failures list the offending fields (400).

use vstd::prelude::*;
use crate::context::ValidationContextRegistry;
use crate::problem::{
    garde_report_entries, garde_violation, invalid_fields, validation_field_errors,
    validator_violation, ProblemDetails, ProblemView, ViolationLocation,
};
use crate::text::owned;

verus! {

/// A wrapper for extractors whose inner type implements `garde::Validate`.
#[derive(Debug, Clone, Copy, Default)]
pub struct Garde<E>(pub E);

/// A wrapper for extractors whose inner type implements `validator::Validate`.
#[derive(Debug, Clone, Copy, Default)]
pub struct Validator<E>(pub E);

/// A wrapper for extractors whose inner type implements
/// `validator::ValidateArgs`, with arguments taken from the registry.
#[derive(Debug, Clone, Copy, Default)]
pub struct ValidatorEx<E>(pub E);

impl<E> std::ops::Deref for Garde<E> {
    type Target = E;

    fn deref(&self) -> (r: &E)
        ensures
            *r == self.0,
    {
        &self.0
    }
}

impl<E> std::ops::DerefMut for Garde<E> {
    fn deref_mut(&mut self) -> (r: &mut E)
        ensures
            *r == old(self).0,
            final(self).0 == *final(r),
    {
        &mut self.0
    }
}

impl<E> std::ops::Deref for Validator<E> {
    type Target = E;

    fn deref(&self) -> (r: &E)
        ensures
            *r == self.0,
    {
        &self.0
    }
}

impl<E> std::ops::DerefMut for Validator<E> {
    fn deref_mut(&mut self) -> (r: &mut E)
        ensures
            *r == old(self).0,
            final(self).0 == *final(r),
    {
        &mut self.0
    }
}

impl<E> std::ops::Deref for ValidatorEx<E> {
    type Target = E;

    fn deref(&self) -> (r: &E)
        ensures
            *r == self.0,
    {
        &self.0
    }
}

impl<E> std::ops::DerefMut for ValidatorEx<E> {
    fn deref_mut(&mut self) -> (r: &mut E)
        ensures
            *r == old(self).0,
            final(self).0 == *final(r),
    {
        &mut self.0
    }
}

/// Runtime metadata for validator types that use `ValidateArgs`: the type of
/// context their arguments borrow.
pub trait ValidatorContextType {
    type Context: Send + Sync + 'static;
}

/// Access to the inner value validated via `ValidateArgs`.
pub trait HasValidateArgs {
    type ValidateArgs;

    fn get_validate_args(&self) -> &Self::ValidateArgs;
}

#[verifier::external_type_specification]
#[verifier::external_body]
#[verifier::reject_recursive_types(T)]
pub struct ExJson<T>(axum::Json<T>);

#[verifier::external_type_specification]
#[verifier::external_body]
#[verifier::reject_recursive_types(T)]
pub struct ExQuery<T>(axum::extract::Query<T>);

#[verifier::external_type_specification]
#[verifier::external_body]
#[verifier::reject_recursive_types(T)]
pub struct ExPath<T>(axum::extract::Path<T>);

#[verifier::external_type_specification]
#[verifier::external_body]
#[verifier::reject_recursive_types(T)]
pub struct ExForm<T>(axum::extract::Form<T>);

#[verifier::external_type_specification]
#[verifier::external_body]
#[verifier::reject_recursive_types(T)]
pub struct ExTypedHeader<T>(axum_extra::TypedHeader<T>);

/// Borrows the body value that `axum::Json` wraps (its field `0`).
#[verifier::external_body]
fn json_inner<T>(extractor: &axum::Json<T>) -> &T {
    &extractor.0
}

/// Borrows the query value that `axum::extract::Query` wraps (its field `0`).
#[verifier::external_body]
fn query_inner<T>(extractor: &axum::extract::Query<T>) -> &T {
    &extractor.0
}

/// Borrows the path value that `axum::extract::Path` wraps (its field `0`).
#[verifier::external_body]
fn path_inner<T>(extractor: &axum::extract::Path<T>) -> &T {
    &extractor.0
}

/// Borrows the form value that `axum::extract::Form` wraps (its field `0`).
#[verifier::external_body]
fn form_inner<T>(extractor: &axum::extract::Form<T>) -> &T {
    &extractor.0
}

/// Borrows the header value that `axum_extra::TypedHeader` wraps (its field
/// `0`).
#[verifier::external_body]
fn typed_header_inner<T>(extractor: &axum_extra::TypedHeader<T>) -> &T {
    &extractor.0
}

impl<T> HasValidateArgs for axum::Json<T> {
    type ValidateArgs = T;

    fn get_validate_args(&self) -> &T {
        json_inner(self)
    }
}

impl<T> HasValidateArgs for axum::extract::Query<T> {
    type ValidateArgs = T;

    fn get_validate_args(&self) -> &T {
        query_inner(self)
    }
}

impl<T> HasValidateArgs for axum::extract::Path<T> {
    type ValidateArgs = T;

    fn get_validate_args(&self) -> &T {
        path_inner(self)
    }
}

impl<T> HasValidateArgs for axum::extract::Form<T> {
    type ValidateArgs = T;

    fn get_validate_args(&self) -> &T {
        form_inner(self)
    }
}

impl<T> HasValidateArgs for axum_extra::TypedHeader<T> {
    type ValidateArgs = T;

    fn get_validate_args(&self) -> &T {
        typed_header_inner(self)
    }
}

/// Why a garde-validated extraction failed once the inner extractor had
/// succeeded.
pub enum GardeInternalError {
    /// The validated type needs a context and no registry is registered.
    MissingRegistry,
    /// The registry holds no context of the named type.
    MissingContext(&'static str),
    /// Validation ran and reported errors found at the given location.
    ValidationReport(garde::Report, ViolationLocation),
}

/// Why a validator-validated extraction failed once the inner extractor had
/// succeeded.
pub enum ValidatorInternalError {
    /// Arguments are needed and no registry is registered.
    MissingRegistry,
    /// The registry holds no arguments of the named type.
    MissingArgs(&'static str),
    /// Validation ran and reported errors found at the given location.
    ValidationErrors(validator::ValidationErrors, ViolationLocation),
}

/// The server error for a missing registry.
pub open spec fn configuration_unavailable() -> ProblemView {
    ProblemView {
        status: 500,
        detail: Some("Server validation configuration is unavailable."@),
        violations: Seq::empty(),
    }
}

/// The server error for a context or argument type missing from the
/// registry.
pub open spec fn configuration_unavailable_for(name: Seq<char>) -> ProblemView {
    ProblemView {
        status: 500,
        detail: Some(
            "Server validation configuration for '"@ + name + "' is unavailable."@,
        ),
        violations: Seq::empty(),
    }
}

/// The 400 response for a garde report found at `location`.
pub open spec fn garde_report_problem(report: garde::Report, location: ViolationLocation) -> ProblemView {
    invalid_fields(
        garde_report_entries(report).map_values(
            |e: (Seq<char>, Seq<char>)| garde_violation(e, location),
        ),
    )
}

/// Whether `p` is the 400 response for validator errors found at `location`:
/// one violation per field-level error, in some order.
pub open spec fn is_validator_errors_problem(
    p: ProblemView,
    errors: validator::ValidationErrors,
    location: ViolationLocation,
) -> bool {
    &&& p.status == 400
    &&& p.detail is None
    &&& exists|es: Seq<(Seq<char>, Seq<char>, Option<Seq<char>>)>|
        {
            &&& es.to_multiset() == validation_field_errors(errors)
            &&& p.violations == es.map_values(
                |e: (Seq<char>, Seq<char>, Option<Seq<char>>)| validator_violation(e, location),
            )
        }
}

/// A validator problem has exactly one violation per field-level error,
/// each at the given location.
pub proof fn validator_problem_counts(
    p: ProblemView,
    errors: validator::ValidationErrors,
    location: ViolationLocation,
)
    requires
        is_validator_errors_problem(p, errors, location),
    ensures
        p.violations.len() == validation_field_errors(errors).len(),
        forall|i: int| 0 <= i < p.violations.len() ==> (#[trigger] p.violations[i]).location == location,
{
    let es = choose|es: Seq<(Seq<char>, Seq<char>, Option<Seq<char>>)>|
        {
            &&& es.to_multiset() == validation_field_errors(errors)
            &&& p.violations == es.map_values(
                |e: (Seq<char>, Seq<char>, Option<Seq<char>>)| validator_violation(e, location),
            )
        };
    vstd::seq_lib::to_multiset_len(es);
}

fn configuration_unavailable_message(name: &str) -> (r: String)
    ensures
        r@ == "Server validation configuration for '"@ + name@ + "' is unavailable."@,
{
    let mut r = owned("Server validation configuration for '");
    r.append(name);
    r.append("' is unavailable.");
    r
}

impl ProblemDetails {
    /// The response for a failed garde extraction: a server error when the
    /// registry or a context is missing, else the report's violations.
    pub fn from_garde_error(error: GardeInternalError) -> (p: ProblemDetails)
        ensures
            p@ == match error {
                GardeInternalError::MissingRegistry => configuration_unavailable(),
                GardeInternalError::MissingContext(t) => configuration_unavailable_for(t@),
                GardeInternalError::ValidationReport(report, location) => garde_report_problem(
                    report,
                    location,
                ),
            },
    {
        match error {
            GardeInternalError::MissingRegistry => {
                ProblemDetails::new(500).with_detail(
                    owned("Server validation configuration is unavailable."),
                )
            },
            GardeInternalError::MissingContext(t) => {
                ProblemDetails::new(500).with_detail(configuration_unavailable_message(t))
            },
            GardeInternalError::ValidationReport(report, location) => {
                ProblemDetails::from_garde_report(&report, location)
            },
        }
    }

    /// The response for a failed validator extraction: a server error when
    /// the registry or the arguments are missing, else one violation per
    /// field-level error.
    pub fn from_validator_error(error: ValidatorInternalError) -> (p: ProblemDetails)
        ensures
            match error {
                ValidatorInternalError::MissingRegistry => p@ == configuration_unavailable(),
                ValidatorInternalError::MissingArgs(t) => p@ == configuration_unavailable_for(t@),
                ValidatorInternalError::ValidationErrors(errors, location) => is_validator_errors_problem(
                    p@,
                    errors,
                    location,
                ),
            },
    {
        match error {
            ValidatorInternalError::MissingRegistry => {
                ProblemDetails::new(500).with_detail(
                    owned("Server validation configuration is unavailable."),
                )
            },
            ValidatorInternalError::MissingArgs(t) => {
                ProblemDetails::new(500).with_detail(configuration_unavailable_message(t))
            },
            ValidatorInternalError::ValidationErrors(errors, location) => {
                ProblemDetails::from_validation_errors(&errors, location)
            },
        }
    }
}

/// The outcome of a garde validation run at `location`.
pub open spec fn garde_outcome(
    result: Result<(), garde::Report>,
    location: ViolationLocation,
) -> Result<(), GardeInternalError> {
    match result {
        Ok(_) => Ok(()),
        Err(report) => Err(GardeInternalError::ValidationReport(report, location)),
    }
}

/// The outcome of a validator validation run at `location`.
pub open spec fn validator_outcome(
    result: Result<(), validator::ValidationErrors>,
    location: ViolationLocation,
) -> Result<(), ValidatorInternalError> {
    match result {
        Ok(_) => Ok(()),
        Err(errors) => Err(ValidatorInternalError::ValidationErrors(errors, location)),
    }
}

/// The registry a garde extraction works with: none when the validated type
/// takes the unit context, else the registry registered as a component,
/// whose absence is an error.
pub fn garde_fetch_registry(
    context_is_unit: bool,
    component: Option<ValidationContextRegistry>,
) -> (r: Result<Option<ValidationContextRegistry>, GardeInternalError>)
    ensures
        context_is_unit ==> r matches Ok(None),
        !context_is_unit && component is None ==> r matches Err(GardeInternalError::MissingRegistry),
        !context_is_unit && component is Some ==> r == Ok::<
            Option<ValidationContextRegistry>,
            GardeInternalError,
        >(component),
{
    if context_is_unit {
        Ok(None)
    } else {
        match component {
            Some(registry) => Ok(Some(registry)),
            None => Err(GardeInternalError::MissingRegistry),
        }
    }
}

/// What validating with the garde context a lookup found gives: the
/// missing context's error when none was found, else the outcome of
/// validating with the context found.
pub open spec fn garde_found_outcome<C, G: FnOnce(&C) -> Result<(), garde::Report>>(
    found: Option<&C>,
    context_name: &'static str,
    location: ViolationLocation,
    validate_with_context: G,
    r: Result<(), GardeInternalError>,
) -> bool {
    match found {
        None => r == Err::<(), GardeInternalError>(GardeInternalError::MissingContext(context_name)),
        Some(c) => exists|res: Result<(), garde::Report>|
            call_ensures(validate_with_context, (c,), res) && r == garde_outcome(res, location),
    }
}

/// Validates with the garde context that a registry lookup found: a missing
/// context is an error naming `context_name`, and a found one is handed to
/// the validation, whose errors are reported at `location`.
pub fn garde_validate_found<C, G>(
    found: Option<&C>,
    context_name: &'static str,
    location: ViolationLocation,
    validate_with_context: G,
) -> (r: Result<(), GardeInternalError>) where
    G: FnOnce(&C) -> Result<(), garde::Report>,

    requires
        forall|c: &C| found == Some(c) ==> call_requires(validate_with_context, (c,)),
    ensures
        garde_found_outcome(found, context_name, location, validate_with_context, r),
{
    match found {
        None => Err(GardeInternalError::MissingContext(context_name)),
        Some(ctx) => {
            let result = validate_with_context(ctx);
            let r = match result {
                Ok(()) => Ok(()),
                Err(report) => Err(GardeInternalError::ValidationReport(report, location)),
            };
            assert(r == garde_outcome(result, location));
            r
        },
    }
}

/// Validates with garde. A type whose context is the unit type is validated
/// without a registry; any other needs the registry, and what the registry's
/// `get::<C>()` returns decides: nothing is an error naming `context_name`,
/// a context is handed to the validation.
/// Validation errors are reported at `location`.
pub fn garde_validate_data<C, F, G>(
    context_is_unit: bool,
    registry: Option<&ValidationContextRegistry>,
    context_name: &'static str,
    location: ViolationLocation,
    validate_without_context: F,
    validate_with_context: G,
) -> (r: Result<(), GardeInternalError>) where
    C: Send + Sync + 'static,
    F: FnOnce() -> Result<(), garde::Report>,
    G: FnOnce(&C) -> Result<(), garde::Report>,

    requires
        context_is_unit ==> call_requires(validate_without_context, ()),
        forall|c: &C| call_requires(validate_with_context, (c,)),
    ensures
        context_is_unit ==> exists|res: Result<(), garde::Report>|
            call_ensures(validate_without_context, (), res) && r == garde_outcome(res, location),
        !context_is_unit && registry is None ==> r matches Err(GardeInternalError::MissingRegistry),
        !context_is_unit && registry is Some ==> exists|found: Option<&C>|
            call_ensures(ValidationContextRegistry::get::<C>, (registry->0,), found)
                && garde_found_outcome(
                found,
                context_name,
                location,
                validate_with_context,
                r,
            ),
        !context_is_unit && registry is Some && registry->0@.is_empty() ==> r == Err::<
            (),
            GardeInternalError,
        >(GardeInternalError::MissingContext(context_name)),
{
    if context_is_unit {
        let result = validate_without_context();
        let r = match result {
            Ok(()) => Ok(()),
            Err(report) => Err(GardeInternalError::ValidationReport(report, location)),
        };
        assert(r == garde_outcome(result, location));
        r
    } else {
        let registry = match registry {
            Some(registry) => registry,
            None => {
                return Err(GardeInternalError::MissingRegistry);
            },
        };
        let found = registry.get::<C>();
        garde_validate_found(found, context_name, location, validate_with_context)
    }
}

/// The registry a validator extraction with arguments works with: the one
/// registered as a component, whose absence is an error.
pub fn validator_fetch_registry(component: Option<ValidationContextRegistry>) -> (r: Result<
    ValidationContextRegistry,
    ValidatorInternalError,
>)
    ensures
        component matches Some(reg) ==> r == Ok::<ValidationContextRegistry, ValidatorInternalError>(
            reg,
        ),
        component is None ==> r matches Err(ValidatorInternalError::MissingRegistry),
{
    match component {
        Some(registry) => Ok(registry),
        None => Err(ValidatorInternalError::MissingRegistry),
    }
}

/// Validates with `validator::Validate`; errors are reported at `location`.
pub fn validator_validate_data<F>(location: ViolationLocation, validate: F) -> (r: Result<
    (),
    ValidatorInternalError,
>) where F: FnOnce() -> Result<(), validator::ValidationErrors>
    requires
        call_requires(validate, ()),
    ensures
        exists|res: Result<(), validator::ValidationErrors>|
            call_ensures(validate, (), res) && r == validator_outcome(res, location),
{
    let result = validate();
    let r = match result {
        Ok(()) => Ok(()),
        Err(errors) => Err(ValidatorInternalError::ValidationErrors(errors, location)),
    };
    assert(r == validator_outcome(result, location));
    r
}

/// What validating with the arguments a lookup found gives: the missing
/// arguments' error when none were found, else the outcome of validating
/// with the arguments found.
pub open spec fn validator_found_outcome<C, G: FnOnce(&C) -> Result<(), validator::ValidationErrors>>(
    found: Option<&C>,
    args_name: &'static str,
    location: ViolationLocation,
    validate_with_args: G,
    r: Result<(), ValidatorInternalError>,
) -> bool {
    match found {
        None => r == Err::<(), ValidatorInternalError>(ValidatorInternalError::MissingArgs(args_name)),
        Some(c) => exists|res: Result<(), validator::ValidationErrors>|
            call_ensures(validate_with_args, (c,), res) && r == validator_outcome(res, location),
    }
}

/// Validates with the arguments that a registry lookup found: missing
/// arguments are an error naming `args_name`, and found ones are handed to
/// the validation, whose errors are reported at `location`.
pub fn validator_validate_found_args<C, G>(
    found: Option<&C>,
    args_name: &'static str,
    location: ViolationLocation,
    validate_with_args: G,
) -> (r: Result<(), ValidatorInternalError>) where
    G: FnOnce(&C) -> Result<(), validator::ValidationErrors>,

    requires
        forall|c: &C| found == Some(c) ==> call_requires(validate_with_args, (c,)),
    ensures
        validator_found_outcome(found, args_name, location, validate_with_args, r),
{
    match found {
        None => Err(ValidatorInternalError::MissingArgs(args_name)),
        Some(args) => {
            let result = validate_with_args(args);
            let r = match result {
                Ok(()) => Ok(()),
                Err(errors) => Err(ValidatorInternalError::ValidationErrors(errors, location)),
            };
            assert(r == validator_outcome(result, location));
            r
        },
    }
}

/// Validates with `validator::ValidateArgs`; what the registry's `get::<C>()`
/// returns decides: nothing is an error naming `args_name`, arguments are
/// handed to the validation. Errors are reported at `location`.
pub fn validator_validate_data_with_args<C, G>(
    registry: &ValidationContextRegistry,
    args_name: &'static str,
    location: ViolationLocation,
    validate_with_args: G,
) -> (r: Result<(), ValidatorInternalError>) where
    C: Send + Sync + 'static,
    G: FnOnce(&C) -> Result<(), validator::ValidationErrors>,

    requires
        forall|c: &C| call_requires(validate_with_args, (c,)),
    ensures
        exists|found: Option<&C>|
            call_ensures(ValidationContextRegistry::get::<C>, (registry,), found)
                && validator_found_outcome(
                found,
                args_name,
                location,
                validate_with_args,
                r,
            ),
        registry@.is_empty() ==> r == Err::<(), ValidatorInternalError>(
            ValidatorInternalError::MissingArgs(args_name),
        ),
{
    let found = registry.get::<C>();
    validator_validate_found_args(found, args_name, location, validate_with_args)
}

} // verus!
