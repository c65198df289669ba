//! Planning the `JsonSchema` implementation that `GardeSchema` and
//! `ValidatorSchema` derive: a helper struct keeps schemars' own schema for
//! the input, and the constraints found in validation attributes are then
//! patched into that schema's properties and `required` list.

use vstd::prelude::*;
use crate::constraints::{
    read_constraints, spec_constraints, spec_is_empty, ConstraintsView, Flavor, SchemaConstraints,
};
use crate::literal::{NumericLit, NumericView};
use crate::meta::{AttrModel, DataModel, DeriveModel, FieldModel, FieldsModel};
use crate::naming::{
    filter_attrs, kept_indices, schema_field_name, spec_schema_field_name, spec_struct_rename_all,
    struct_rename_all,
};
use crate::rename::RenameRule;
use crate::text::{owned, str_eq};

verus! {

/// Why a schema cannot be derived for an input.
pub enum SchemaDeriveError {
    /// The input is an enum or a union; reported at the input's name.
    NotAStruct { message: String },
    /// The struct's fields are not named; reported at the fields.
    FieldsNotNamed { message: String },
}

/// The error for inputs that are not structs.
pub open spec fn not_a_struct_message(macro_name: Seq<char>) -> Seq<char> {
    macro_name + " can only be derived for structs"@
}

/// The error for structs without named fields.
pub open spec fn fields_not_named_message() -> Seq<char> {
    "derive macro requires named fields"@
}

fn fields_not_named() -> (e: SchemaDeriveError)
    ensures
        e matches SchemaDeriveError::FieldsNotNamed { message } && message@
            == fields_not_named_message(),
{
    SchemaDeriveError::FieldsNotNamed { message: owned("derive macro requires named fields") }
}

/// What schema derivation knows of one field.
pub struct FieldInfo {
    pub ident: String,
    pub schema_name: String,
    /// Positions of the field attributes carried over to the helper struct.
    pub kept_attrs: Vec<usize>,
    pub constraints: SchemaConstraints,
}

/// What schema derivation knows of one field, as mathematical values.
pub struct FieldInfoView {
    pub ident: Seq<char>,
    pub schema_name: Seq<char>,
    pub kept_attrs: Seq<usize>,
    pub constraints: ConstraintsView,
}

impl View for FieldInfo {
    type V = FieldInfoView;

    open spec fn view(&self) -> FieldInfoView {
        FieldInfoView {
            ident: self.ident@,
            schema_name: self.schema_name@,
            kept_attrs: self.kept_attrs@,
            constraints: self.constraints@,
        }
    }
}

/// What schema derivation knows of a field.
pub open spec fn spec_field_info(
    f: FieldModel,
    validation_attr: Seq<char>,
    rename_all: Option<RenameRule>,
    flavor: Flavor,
) -> FieldInfoView {
    FieldInfoView {
        ident: f.ident@,
        schema_name: spec_schema_field_name(f, rename_all),
        kept_attrs: kept_indices(f.attrs@, validation_attr),
        constraints: spec_constraints(flavor, f.attrs@, true),
    }
}

/// Reads every named field; structs without named fields are refused.
pub fn collect_field_info(
    fields: &FieldsModel,
    validation_attr: &str,
    rename_all: Option<RenameRule>,
    flavor: Flavor,
) -> (r: Result<Vec<FieldInfo>, SchemaDeriveError>)
    ensures
        match *fields {
            FieldsModel::Named(fs) => r matches Ok(infos) && infos.len() == fs.len() && (forall|
                i: int,
            |
                0 <= i < fs.len() ==> #[trigger] infos@[i]@ == spec_field_info(
                    fs@[i],
                    validation_attr@,
                    rename_all,
                    flavor,
                )),
            _ => r matches Err(SchemaDeriveError::FieldsNotNamed { message }) && message@
                == fields_not_named_message(),
        },
{
    let named = match fields {
        FieldsModel::Named(named) => named,
        _ => return Err(fields_not_named()),
    };
    let mut infos: Vec<FieldInfo> = Vec::new();
    let mut i: usize = 0;
    while i < named.len()
        invariant
            i <= named.len(),
            infos.len() == i,
            forall|k: int|
                0 <= k < i ==> #[trigger] infos@[k]@ == spec_field_info(
                    named@[k],
                    validation_attr@,
                    rename_all,
                    flavor,
                ),
        decreases named.len() - i,
    {
        let field = &named[i];
        let schema_name = schema_field_name(field, rename_all);
        let constraints = read_constraints(flavor, &field.attrs, true);
        let kept_attrs = filter_attrs(&field.attrs, validation_attr);
        infos.push(FieldInfo { ident: field.ident.clone(), schema_name, kept_attrs, constraints });
        i = i + 1;
    }
    Ok(infos)
}

/// One statement that patches a property schema.
pub enum ConstraintStmt {
    /// `minLength`, or `minItems` when the property is an array.
    MinLength(u64),
    /// `maxLength`, or `maxItems` when the property is an array.
    MaxLength(u64),
    Minimum(NumericLit),
    Maximum(NumericLit),
    Format(String),
    Pattern(String),
}

/// A patch statement as a mathematical value.
pub enum StmtView {
    MinLength(u64),
    MaxLength(u64),
    Minimum(NumericView),
    Maximum(NumericView),
    Format(Seq<char>),
    Pattern(Seq<char>),
}

impl View for ConstraintStmt {
    type V = StmtView;

    open spec fn view(&self) -> StmtView {
        match self {
            ConstraintStmt::MinLength(n) => StmtView::MinLength(*n),
            ConstraintStmt::MaxLength(n) => StmtView::MaxLength(*n),
            ConstraintStmt::Minimum(n) => StmtView::Minimum(n@),
            ConstraintStmt::Maximum(n) => StmtView::Maximum(n@),
            ConstraintStmt::Format(s) => StmtView::Format(s@),
            ConstraintStmt::Pattern(s) => StmtView::Pattern(s@),
        }
    }
}

/// A one-element sequence for `Some`, an empty one for `None`.
pub open spec fn opt_seq<A>(o: Option<A>) -> Seq<A> {
    match o {
        Some(a) => seq![a],
        None => Seq::empty(),
    }
}

/// The patch statements for a set of constraints, in the order length
/// bounds, numeric bounds, format, pattern.
pub open spec fn spec_constraint_stmts(c: ConstraintsView) -> Seq<StmtView> {
    opt_seq(
        match c.min_length {
            Some(n) => Some(StmtView::MinLength(n)),
            None => None,
        },
    ) + opt_seq(
        match c.max_length {
            Some(n) => Some(StmtView::MaxLength(n)),
            None => None,
        },
    ) + opt_seq(
        match c.minimum {
            Some(n) => Some(StmtView::Minimum(n)),
            None => None,
        },
    ) + opt_seq(
        match c.maximum {
            Some(n) => Some(StmtView::Maximum(n)),
            None => None,
        },
    ) + opt_seq(
        match c.format {
            Some(s) => Some(StmtView::Format(s)),
            None => None,
        },
    ) + opt_seq(
        match c.pattern {
            Some(s) => Some(StmtView::Pattern(s)),
            None => None,
        },
    )
}

fn copy_numeric(n: &NumericLit) -> (r: NumericLit)
    ensures
        r@ == n@,
{
    match n {
        NumericLit::Int(v) => NumericLit::Int(*v),
        NumericLit::Float { digits, negative } => NumericLit::Float {
            digits: digits.clone(),
            negative: *negative,
        },
    }
}

fn push_stmt(out: &mut Vec<ConstraintStmt>, s: ConstraintStmt)
    ensures
        final(out)@.len() == old(out)@.len() + 1,
        forall|i: int| 0 <= i < old(out)@.len() ==> #[trigger] final(out)@[i]@ == old(out)@[i]@,
        final(out)@[old(out)@.len() as int]@ == s@,
{
    out.push(s);
}

/// The patch statements for a field's constraints.
pub fn generate_constraint_stmts(c: &SchemaConstraints) -> (stmts: Vec<ConstraintStmt>)
    ensures
        stmts@.map_values(|s: ConstraintStmt| s@) == spec_constraint_stmts(c@),
{
    let mut out: Vec<ConstraintStmt> = Vec::new();
    let ghost mut expected: Seq<StmtView> = Seq::empty();
    if let Some(n) = c.min_length {
        push_stmt(&mut out, ConstraintStmt::MinLength(n));
    }
    proof {
        expected = expected + opt_seq(
            match c@.min_length {
                Some(n) => Some(StmtView::MinLength(n)),
                None => None,
            },
        );
        assert(out@.map_values(|s: ConstraintStmt| s@) =~= expected);
    }
    if let Some(n) = c.max_length {
        push_stmt(&mut out, ConstraintStmt::MaxLength(n));
    }
    proof {
        expected = expected + opt_seq(
            match c@.max_length {
                Some(n) => Some(StmtView::MaxLength(n)),
                None => None,
            },
        );
        assert(out@.map_values(|s: ConstraintStmt| s@) =~= expected);
    }
    if let Some(n) = &c.minimum {
        push_stmt(&mut out, ConstraintStmt::Minimum(copy_numeric(n)));
    }
    proof {
        expected = expected + opt_seq(
            match c@.minimum {
                Some(n) => Some(StmtView::Minimum(n)),
                None => None,
            },
        );
        assert(out@.map_values(|s: ConstraintStmt| s@) =~= expected);
    }
    if let Some(n) = &c.maximum {
        push_stmt(&mut out, ConstraintStmt::Maximum(copy_numeric(n)));
    }
    proof {
        expected = expected + opt_seq(
            match c@.maximum {
                Some(n) => Some(StmtView::Maximum(n)),
                None => None,
            },
        );
        assert(out@.map_values(|s: ConstraintStmt| s@) =~= expected);
    }
    if let Some(s) = &c.format {
        push_stmt(&mut out, ConstraintStmt::Format(s.clone()));
    }
    proof {
        expected = expected + opt_seq(
            match c@.format {
                Some(s) => Some(StmtView::Format(s)),
                None => None,
            },
        );
        assert(out@.map_values(|s: ConstraintStmt| s@) =~= expected);
    }
    if let Some(s) = &c.pattern {
        push_stmt(&mut out, ConstraintStmt::Pattern(s.clone()));
    }
    proof {
        expected = expected + opt_seq(
            match c@.pattern {
                Some(s) => Some(StmtView::Pattern(s)),
                None => None,
            },
        );
        assert(out@.map_values(|s: ConstraintStmt| s@) =~= expected);
        assert(expected =~= spec_constraint_stmts(c@));
    }
    out
}


/// The helper struct that carries the input's schemars and serde metadata.
pub struct HelperStruct {
    /// `__SummerSchemaBase_` followed by the input's name.
    pub ident: String,
    /// Positions of the struct attributes carried over.
    pub attrs: Vec<usize>,
    /// Each field by name, with the positions of its attributes carried over.
    pub fields: Vec<(String, Vec<usize>)>,
}

/// The name of the helper struct for an input named `ident`.
pub open spec fn helper_ident_of(ident: Seq<char>) -> Seq<char> {
    "__SummerSchemaBase_"@ + ident
}

/// Lays out the helper struct: the input's fields with their validation
/// attributes dropped. Structs without named fields are refused.
pub fn generate_helper_struct(
    helper_ident: &str,
    struct_attrs: &Vec<usize>,
    fields: &FieldsModel,
    field_info: &Vec<FieldInfo>,
) -> (r: Result<HelperStruct, SchemaDeriveError>)
    ensures
        match *fields {
            FieldsModel::Named(_) => r matches Ok(h) && h.ident@ == helper_ident@ && h.attrs@
                == struct_attrs@ && h.fields.len() == field_info.len() && (forall|i: int|
                0 <= i < field_info.len() ==> (#[trigger] h.fields@[i]).0@ == field_info@[i].ident@
                    && h.fields@[i].1@ == field_info@[i].kept_attrs@),
            _ => r matches Err(SchemaDeriveError::FieldsNotNamed { message }) && message@
                == fields_not_named_message(),
        },
{
    match fields {
        FieldsModel::Named(_) => {},
        _ => return Err(fields_not_named()),
    }
    let mut out: Vec<(String, Vec<usize>)> = Vec::new();
    let mut i: usize = 0;
    while i < field_info.len()
        invariant
            i <= field_info.len(),
            out.len() == i,
            forall|k: int|
                0 <= k < i ==> (#[trigger] out@[k]).0@ == field_info@[k].ident@ && out@[k].1@
                    == field_info@[k].kept_attrs@,
        decreases field_info.len() - i,
    {
        out.push((field_info[i].ident.clone(), field_info[i].kept_attrs.clone()));
        i = i + 1;
    }
    Ok(HelperStruct { ident: owned(helper_ident), attrs: struct_attrs.clone(), fields: out })
}

/// The patches for the fields that carry constraints, in field order: each
/// field's schema name and its statements.
pub open spec fn spec_patches(infos: Seq<FieldInfoView>) -> Seq<(Seq<char>, Seq<StmtView>)>
    decreases infos.len(),
{
    if infos.len() == 0 {
        Seq::empty()
    } else {
        let before = spec_patches(infos.drop_last());
        let f = infos.last();
        if spec_is_empty(f.constraints) {
            before
        } else {
            before.push((f.schema_name, spec_constraint_stmts(f.constraints)))
        }
    }
}

/// The schema names of the fields marked required, in field order.
pub open spec fn spec_required_fields(infos: Seq<FieldInfoView>) -> Seq<Seq<char>>
    decreases infos.len(),
{
    if infos.len() == 0 {
        Seq::empty()
    } else {
        let before = spec_required_fields(infos.drop_last());
        let f = infos.last();
        if f.constraints.required {
            before.push(f.schema_name)
        } else {
            before
        }
    }
}

/// The statements patching one property.
pub struct FieldPatch {
    pub schema_name: String,
    pub stmts: Vec<ConstraintStmt>,
}

/// Everything the generated `JsonSchema` implementation needs.
pub struct SchemaDerivePlan {
    pub struct_ident: String,
    pub helper: HelperStruct,
    pub fields: Vec<FieldInfo>,
    /// Patches for the fields with constraints, in field order.
    pub patches: Vec<FieldPatch>,
    /// Schema names of the fields that must appear in `required`.
    pub required_fields: Vec<String>,
}

/// The field views of a list of field infos.
pub open spec fn info_views(infos: Seq<FieldInfo>) -> Seq<FieldInfoView> {
    infos.map_values(|f: FieldInfo| f@)
}

/// The patch views of a list of patches.
pub open spec fn patch_views(ps: Seq<FieldPatch>) -> Seq<(Seq<char>, Seq<StmtView>)> {
    ps.map_values(|p: FieldPatch| (p.schema_name@, p.stmts@.map_values(|s: ConstraintStmt| s@)))
}

/// Plans the schema implementation for an input, or says why there is none.
///
/// `macro_name` names the derive in messages; `validation_attr` is the
/// validation attribute (`garde` or `validate`) that the helper struct drops;
/// `flavor` says how that attribute's items are read.
pub fn expand_derive_with(
    input: &DeriveModel,
    macro_name: &str,
    validation_attr: &str,
    flavor: Flavor,
) -> (r: Result<SchemaDerivePlan, SchemaDeriveError>)
    ensures
        match input.data {
            DataModel::Struct(FieldsModel::Named(fs)) => r matches Ok(plan) && {
                let rename_all = spec_struct_rename_all(input.attrs@);
                &&& plan.struct_ident@ == input.ident@
                &&& plan.helper.ident@ == helper_ident_of(input.ident@)
                &&& plan.helper.attrs@ == kept_indices(input.attrs@, validation_attr@)
                &&& plan.fields.len() == fs.len()
                &&& forall|i: int|
                    0 <= i < fs.len() ==> #[trigger] plan.fields@[i]@ == spec_field_info(
                        fs@[i],
                        validation_attr@,
                        rename_all,
                        flavor,
                    )
                &&& plan.helper.fields.len() == fs.len()
                &&& forall|i: int|
                    0 <= i < fs.len() ==> (#[trigger] plan.helper.fields@[i]).0@ == fs@[i].ident@
                        && plan.helper.fields@[i].1@ == kept_indices(fs@[i].attrs@, validation_attr@)
                &&& patch_views(plan.patches@) == spec_patches(info_views(plan.fields@))
                &&& plan.required_fields.deep_view() == spec_required_fields(
                    info_views(plan.fields@),
                )
            },
            DataModel::Struct(_) => r matches Err(SchemaDeriveError::FieldsNotNamed { message })
                && message@ == fields_not_named_message(),
            _ => r matches Err(SchemaDeriveError::NotAStruct { message }) && message@
                == not_a_struct_message(macro_name@),
        },
{
    let fields = match &input.data {
        DataModel::Struct(fields) => fields,
        _ => {
            let mut message = owned(macro_name);
            message.append(" can only be derived for structs");
            return Err(SchemaDeriveError::NotAStruct { message });
        },
    };
    let rename_all = struct_rename_all(&input.attrs);
    let struct_attrs = filter_attrs(&input.attrs, validation_attr);
    let field_info = match collect_field_info(fields, validation_attr, rename_all, flavor) {
        Ok(infos) => infos,
        Err(e) => return Err(e),
    };
    let mut helper_ident = owned("__SummerSchemaBase_");
    helper_ident.append(input.ident.as_str());
    let helper = match generate_helper_struct(
        helper_ident.as_str(),
        &struct_attrs,
        fields,
        &field_info,
    ) {
        Ok(h) => h,
        Err(e) => return Err(e),
    };
    let mut patches: Vec<FieldPatch> = Vec::new();
    let mut required_fields: Vec<String> = Vec::new();
    let mut i: usize = 0;
    while i < field_info.len()
        invariant
            i <= field_info.len(),
            patch_views(patches@) == spec_patches(info_views(field_info@.take(i as int))),
            required_fields.deep_view() == spec_required_fields(
                info_views(field_info@.take(i as int)),
            ),
        decreases field_info.len() - i,
    {
        let f = &field_info[i];
        assert(info_views(field_info@.take(i + 1)).drop_last() =~= info_views(
            field_info@.take(i as int),
        ));
        assert(info_views(field_info@.take(i + 1)).last() == f@);
        if !f.constraints.is_empty() {
            let stmts = generate_constraint_stmts(&f.constraints);
            patches.push(FieldPatch { schema_name: f.schema_name.clone(), stmts });
            assert(patch_views(patches@) =~= spec_patches(info_views(field_info@.take(i + 1))));
        } else {
            assert(patch_views(patches@) =~= spec_patches(info_views(field_info@.take(i + 1))));
        }
        if f.constraints.required {
            required_fields.push(f.schema_name.clone());
        }
        assert(required_fields.deep_view() =~= spec_required_fields(
            info_views(field_info@.take(i + 1)),
        ));
        i = i + 1;
    }
    assert(field_info@.take(field_info.len() as int) =~= field_info@);
    assert forall|k: int| 0 <= k < field_info.len() implies (#[trigger] helper.fields@[k]).1@
        == field_info@[k]@.kept_attrs by {
        assert(field_info@[k]@.kept_attrs == field_info@[k].kept_attrs@);
    }
    Ok(SchemaDerivePlan {
        struct_ident: input.ident.clone(),
        helper,
        fields: field_info,
        patches,
        required_fields,
    })
}


/// The `type` entry of a property schema, as the generated code finds it.
pub enum SchemaTypeValue {
    Missing,
    Str(String),
    /// An array of types; `None` for items that are not strings.
    Array(Vec<Option<String>>),
    Other,
}

/// Whether a property's `type` says it is an array.
pub open spec fn spec_is_array_type(t: SchemaTypeValue) -> bool {
    match t {
        SchemaTypeValue::Str(s) => s@ == "array"@,
        SchemaTypeValue::Array(items) => exists|i: int|
            0 <= i < items.len() && (#[trigger] items@[i] matches Some(x) && x@ == "array"@),
        _ => false,
    }
}

/// Whether a property's `type` says it is an array, so that length bounds
/// become `minItems`/`maxItems`.
pub fn is_array_type(t: &SchemaTypeValue) -> (r: bool)
    ensures
        r == spec_is_array_type(*t),
{
    match t {
        SchemaTypeValue::Str(s) => str_eq(s.as_str(), "array"),
        SchemaTypeValue::Array(items) => {
            let mut i: usize = 0;
            while i < items.len()
                invariant
                    i <= items.len(),
                    *t == SchemaTypeValue::Array(*items),
                    forall|k: int|
                        0 <= k < i ==> !(#[trigger] items@[k] matches Some(x) && x@ == "array"@),
                decreases items.len() - i,
            {
                if let Some(x) = &items[i] {
                    if str_eq(x.as_str(), "array") {
                        assert(items@[i as int] matches Some(y) && y@ == "array"@);
                        return true;
                    }
                }
                i = i + 1;
            }
            false
        },
        _ => false,
    }
}

/// The schema keyword a statement sets.
pub open spec fn spec_stmt_key(s: StmtView, is_array: bool) -> Seq<char> {
    match s {
        StmtView::MinLength(_) => if is_array {
            "minItems"@
        } else {
            "minLength"@
        },
        StmtView::MaxLength(_) => if is_array {
            "maxItems"@
        } else {
            "maxLength"@
        },
        StmtView::Minimum(_) => "minimum"@,
        StmtView::Maximum(_) => "maximum"@,
        StmtView::Format(_) => "format"@,
        StmtView::Pattern(_) => "pattern"@,
    }
}

/// The schema keyword a statement sets on a property; length bounds on an
/// array property bound its items.
pub fn stmt_key(stmt: &ConstraintStmt, is_array: bool) -> (r: &'static str)
    ensures
        r@ == spec_stmt_key(stmt@, is_array),
{
    match stmt {
        ConstraintStmt::MinLength(_) => if is_array {
            "minItems"
        } else {
            "minLength"
        },
        ConstraintStmt::MaxLength(_) => if is_array {
            "maxItems"
        } else {
            "maxLength"
        },
        ConstraintStmt::Minimum(_) => "minimum",
        ConstraintStmt::Maximum(_) => "maximum",
        ConstraintStmt::Format(_) => "format",
        ConstraintStmt::Pattern(_) => "pattern",
    }
}

/// The `required` list after adding each name that is not yet in it, in
/// order; items that are not strings are `None`.
pub open spec fn spec_merge_required(
    existing: Seq<Option<Seq<char>>>,
    required: Seq<Seq<char>>,
) -> Seq<Option<Seq<char>>>
    decreases required.len(),
{
    if required.len() == 0 {
        existing
    } else {
        let m = spec_merge_required(existing, required.drop_last());
        if m.contains(Some(required.last())) {
            m
        } else {
            m.push(Some(required.last()))
        }
    }
}

/// Adds to a schema's `required` list each required field name that it does
/// not already hold.
pub fn merge_required(existing: &mut Vec<Option<String>>, required: &Vec<String>)
    ensures
        final(existing).deep_view() == spec_merge_required(
            old(existing).deep_view(),
            required.deep_view(),
        ),
{
    let mut i: usize = 0;
    while i < required.len()
        invariant
            i <= required.len(),
            existing.deep_view() == spec_merge_required(
                old(existing).deep_view(),
                required.deep_view().take(i as int),
            ),
        decreases required.len() - i,
    {
        let name = &required[i];
        assert(required.deep_view().take(i + 1).drop_last() =~= required.deep_view().take(
            i as int,
        ));
        assert(required.deep_view().take(i + 1).last() == name@);
        let mut found = false;
        let mut j: usize = 0;
        while j < existing.len()
            invariant
                j <= existing.len(),
                found == exists|k: int|
                    0 <= k < j && #[trigger] existing.deep_view()[k] == Some(name@),
            decreases existing.len() - j,
        {
            if let Some(x) = &existing[j] {
                if str_eq(x.as_str(), name.as_str()) {
                    found = true;
                }
            }
            assert(existing.deep_view()[j as int] == match existing@[j as int] {
                Some(x) => Some(x@),
                None => None,
            });
            j = j + 1;
        }
        if !found {
            let ghost before = existing.deep_view();
            existing.push(Some(name.clone()));
            assert(existing.deep_view() =~= before.push(Some(name@)));
        } else {
            proof {
                let k = choose|k: int|
                    0 <= k < existing.len() && #[trigger] existing.deep_view()[k] == Some(name@);
                assert(existing.deep_view().contains(Some(name@)));
            }
        }
        i = i + 1;
    }
    assert(required.deep_view().take(required.len() as int) =~= required.deep_view());
}

proof fn lemma_merge_keeps(existing: Seq<Option<Seq<char>>>, required: Seq<Seq<char>>)
    ensures
        spec_merge_required(existing, required).len() >= existing.len(),
        spec_merge_required(existing, required).take(existing.len() as int) == existing,
        forall|j: int|
            0 <= j < required.len() ==> spec_merge_required(existing, required).contains(
                Some(#[trigger] required[j]),
            ),
        forall|k: int|
            existing.len() <= k < spec_merge_required(existing, required).len() ==> exists|j: int|
                0 <= j < required.len() && #[trigger] spec_merge_required(existing, required)[k]
                    == Some(required[j]),
    decreases required.len(),
{
    if required.len() == 0 {
        assert(existing.take(existing.len() as int) =~= existing);
    } else {
        let r0 = required.drop_last();
        lemma_merge_keeps(existing, r0);
        let m = spec_merge_required(existing, r0);
        let last = required.last();
        if !m.contains(Some(last)) {
            let m2 = m.push(Some(last));
            assert(m2.take(existing.len() as int) =~= m.take(existing.len() as int));
            assert forall|j: int| 0 <= j < required.len() implies m2.contains(
                Some(#[trigger] required[j]),
            ) by {
                if j < required.len() - 1 {
                    assert(required[j] == r0[j]);
                    let w = choose|w: int| 0 <= w < m.len() && m[w] == Some(r0[j]);
                    assert(m2[w] == Some(required[j]));
                } else {
                    assert(m2[m.len() as int] == Some(required[j]));
                }
            }
            assert forall|k: int| existing.len() <= k < m2.len() implies exists|j: int|
                0 <= j < required.len() && #[trigger] m2[k] == Some(required[j]) by {
                if k < m.len() {
                    let j = choose|j: int| 0 <= j < r0.len() && m[k] == Some(r0[j]);
                    assert(required[j] == r0[j]);
                } else {
                    assert(m2[k] == Some(required[required.len() - 1]));
                }
            }
        } else {
            assert forall|j: int| 0 <= j < required.len() implies m.contains(
                Some(#[trigger] required[j]),
            ) by {
                if j < required.len() - 1 {
                    assert(required[j] == r0[j]);
                }
            }
            assert forall|k: int| existing.len() <= k < m.len() implies exists|j: int|
                0 <= j < required.len() && #[trigger] m[k] == Some(required[j]) by {
                let j = choose|j: int| 0 <= j < r0.len() && m[k] == Some(r0[j]);
                assert(required[j] == r0[j]);
            }
        }
    }
}

proof fn lemma_merge_noop(x: Seq<Option<Seq<char>>>, required: Seq<Seq<char>>)
    requires
        forall|j: int| 0 <= j < required.len() ==> x.contains(Some(#[trigger] required[j])),
    ensures
        spec_merge_required(x, required) == x,
    decreases required.len(),
{
    if required.len() > 0 {
        let r0 = required.drop_last();
        assert forall|j: int| 0 <= j < r0.len() implies x.contains(Some(#[trigger] r0[j])) by {
            assert(r0[j] == required[j]);
        }
        lemma_merge_noop(x, r0);
        assert(x.contains(Some(required[required.len() - 1])));
    }
}

/// Merging required field names into a schema's `required` list keeps what
/// was there, in place and in order; afterwards every required name is in
/// the list; everything added is one of the required names; and merging the
/// same names again changes nothing.
pub proof fn merge_required_laws(existing: Seq<Option<Seq<char>>>, required: Seq<Seq<char>>)
    ensures
        spec_merge_required(existing, required).take(existing.len() as int) == existing,
        forall|j: int|
            0 <= j < required.len() ==> spec_merge_required(existing, required).contains(
                Some(#[trigger] required[j]),
            ),
        forall|k: int|
            existing.len() <= k < spec_merge_required(existing, required).len() ==> exists|j: int|
                0 <= j < required.len() && #[trigger] spec_merge_required(existing, required)[k]
                    == Some(required[j]),
        spec_merge_required(spec_merge_required(existing, required), required)
            == spec_merge_required(existing, required),
{
    lemma_merge_keeps(existing, required);
    lemma_merge_noop(spec_merge_required(existing, required), required);
}


/// The constraints in a field's `#[garde(..)]` attributes, `required` included.
pub fn parse_garde_constraints(attrs: &Vec<AttrModel>) -> (c: SchemaConstraints)
    ensures
        c@ == spec_constraints(Flavor::Garde, attrs@, true),
{
    read_constraints(Flavor::Garde, attrs, true)
}

/// The constraints in a field's `#[validate(..)]` attributes, `required` included.
pub fn parse_validator_constraints(attrs: &Vec<AttrModel>) -> (c: SchemaConstraints)
    ensures
        c@ == spec_constraints(Flavor::Validator, attrs@, true),
{
    read_constraints(Flavor::Validator, attrs, true)
}

/// Constraints add nothing to a schema exactly when they yield no patch
/// statement and do not mark the field required.
pub proof fn empty_constraints_have_no_statements(c: ConstraintsView)
    ensures
        spec_is_empty(c) <==> (spec_constraint_stmts(c).len() == 0 && !c.required),
{
    let a = opt_seq(
        match c.min_length {
            Some(n) => Some(StmtView::MinLength(n)),
            None => None,
        },
    );
    let b = opt_seq(
        match c.max_length {
            Some(n) => Some(StmtView::MaxLength(n)),
            None => None,
        },
    );
    let d = opt_seq(
        match c.minimum {
            Some(n) => Some(StmtView::Minimum(n)),
            None => None,
        },
    );
    let e = opt_seq(
        match c.maximum {
            Some(n) => Some(StmtView::Maximum(n)),
            None => None,
        },
    );
    let f = opt_seq(
        match c.format {
            Some(s) => Some(StmtView::Format(s)),
            None => None,
        },
    );
    let g = opt_seq(
        match c.pattern {
            Some(s) => Some(StmtView::Pattern(s)),
            None => None,
        },
    );
    assert(a.len() == 0 <==> c.min_length is None);
    assert(b.len() == 0 <==> c.max_length is None);
    assert(d.len() == 0 <==> c.minimum is None);
    assert(e.len() == 0 <==> c.maximum is None);
    assert(f.len() == 0 <==> c.format is None);
    assert(g.len() == 0 <==> c.pattern is None);
    assert(spec_constraint_stmts(c) == a + b + d + e + f + g);
    assert((a + b + d + e + f + g).len() == a.len() + b.len() + d.len() + e.len() + f.len()
        + g.len());
}

/// A property's `type` is an array type exactly when it says "array": a
/// string says so when it is "array", and a list of types says so when any
/// entry, at any position, is "array". An empty list is no array type,
/// adding an entry keeps an array type one and makes a list one when the
/// entry is "array", and a missing or other `type` is none.
pub proof fn array_type_law(items: Seq<Option<String>>, x: Option<String>, s: String)
    ensures
        forall|v: Vec<Option<String>>| v@.len() == 0 ==> !#[trigger] spec_is_array_type(SchemaTypeValue::Array(v)),
        spec_is_array_type(SchemaTypeValue::Str(s)) <==> s@ == "array"@,
        !spec_is_array_type(SchemaTypeValue::Missing),
        !spec_is_array_type(SchemaTypeValue::Other),
        forall|v: Vec<Option<String>>, w: Vec<Option<String>>|
            v@ == items && w@ == items.push(x) ==> (spec_is_array_type(SchemaTypeValue::Array(w))
                <==> (spec_is_array_type(SchemaTypeValue::Array(v)) || (x matches Some(y) && y@
                == "array"@))),
        forall|v: Vec<Option<String>>, w: Vec<Option<String>>|
            v@ == items && w@ == seq![x] + items ==> (spec_is_array_type(SchemaTypeValue::Array(w))
                <==> (spec_is_array_type(SchemaTypeValue::Array(v)) || (x matches Some(y) && y@
                == "array"@))),
{
    assert forall|v: Vec<Option<String>>, w: Vec<Option<String>>|
        v@ == items && w@ == items.push(x) implies (spec_is_array_type(SchemaTypeValue::Array(w))
        <==> (spec_is_array_type(SchemaTypeValue::Array(v)) || (x matches Some(y) && y@
        == "array"@))) by {
        if spec_is_array_type(SchemaTypeValue::Array(w)) {
            let i = choose|i: int|
                0 <= i < w.len() && (#[trigger] w@[i] matches Some(z) && z@ == "array"@);
            if i < items.len() {
                assert(v@[i] == w@[i]);
            }
        }
        if spec_is_array_type(SchemaTypeValue::Array(v)) {
            let i = choose|i: int|
                0 <= i < v.len() && (#[trigger] v@[i] matches Some(z) && z@ == "array"@);
            assert(w@[i] == v@[i]);
        }
        if x matches Some(y) && y@ == "array"@ {
            assert(w@[items.len() as int] == x);
        }
    }
    assert forall|v: Vec<Option<String>>, w: Vec<Option<String>>|
        v@ == items && w@ == seq![x] + items implies (spec_is_array_type(SchemaTypeValue::Array(w))
        <==> (spec_is_array_type(SchemaTypeValue::Array(v)) || (x matches Some(y) && y@
        == "array"@))) by {
        if spec_is_array_type(SchemaTypeValue::Array(w)) {
            let i = choose|i: int|
                0 <= i < w.len() && (#[trigger] w@[i] matches Some(z) && z@ == "array"@);
            if i > 0 {
                assert(v@[i - 1] == w@[i]);
            }
        }
        if spec_is_array_type(SchemaTypeValue::Array(v)) {
            let i = choose|i: int|
                0 <= i < v.len() && (#[trigger] v@[i] matches Some(z) && z@ == "array"@);
            assert(w@[i + 1] == v@[i]);
        }
        if x matches Some(y) && y@ == "array"@ {
            assert(w@[0] == x);
        }
    }
}

} // verus!
