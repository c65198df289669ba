//! Planning a self-contained `JsonSchema` implementation: an object schema
//! whose properties are the fields' own schemas with the constraints of
//! their validation attributes added, and whose `required` list holds every
//! field that is not an `Option`.

use vstd::prelude::*;
use crate::constraints::{read_constraints, spec_constraints, spec_is_empty, ConstraintsView, Flavor, SchemaConstraints};
use crate::meta::{ident_named, AttrModel, DataModel, DeriveModel, FieldsModel, TypeModel};
use crate::patched_schema::{
    fields_not_named_message, generate_constraint_stmts, not_a_struct_message, spec_constraint_stmts,
    spec_stmt_key, ConstraintStmt, SchemaDeriveError, StmtView,
};
use crate::text::{ident_is, owned};

verus! {

/// The constraints in a field's `#[garde(..)]` attributes.
pub fn parse_garde_constraints(attrs: &Vec<AttrModel>) -> (c: SchemaConstraints)
    ensures
        c@ == spec_constraints(Flavor::Garde, attrs@, false),
{
    read_constraints(Flavor::Garde, attrs, false)
}

/// The constraints in a field's `#[validate(..)]` attributes.
pub fn parse_validator_constraints(attrs: &Vec<AttrModel>) -> (c: SchemaConstraints)
    ensures
        c@ == spec_constraints(Flavor::Validator, attrs@, false),
{
    read_constraints(Flavor::Validator, attrs, false)
}

/// Whether a type is an `Option` (its path ends in a segment named `Option`).
pub open spec fn spec_is_option_type(ty: TypeModel) -> bool {
    ty matches TypeModel::Path { last_segment } && ident_named(last_segment, "Option"@)
}

/// Whether a field's type is an `Option`, which keeps it out of `required`.
pub fn is_option_type(ty: &TypeModel) -> (r: bool)
    ensures
        r == spec_is_option_type(*ty),
{
    proof {
        reveal_strlit("Option");
    }
    match ty {
        TypeModel::Path { last_segment } => ident_is(last_segment, "Option"),
        TypeModel::Other => false,
    }
}

/// One field of the schema.
pub struct FlatFieldInfo {
    pub name: String,
    pub is_option: bool,
    pub constraints: SchemaConstraints,
}

/// Reads every named field; structs without named fields are refused.
pub fn collect_field_info(fields: &FieldsModel, flavor: Flavor) -> (r: Result<Vec<FlatFieldInfo>, SchemaDeriveError>)
    ensures
        match *fields {
            FieldsModel::Named(fs) => r matches Ok(infos) && infos.len() == fs.len() && (forall|
                i: int,
            |
                0 <= i < fs.len() ==> {
                    &&& (#[trigger] infos@[i]).name@ == fs@[i].ident@
                    &&& infos@[i].is_option == spec_is_option_type(fs@[i].ty)
                    &&& infos@[i].constraints@ == spec_constraints(flavor, fs@[i].attrs@, false)
                }),
            _ => r matches Err(SchemaDeriveError::FieldsNotNamed { message }) && message@
                == fields_not_named_message(),
        },
{
    let named = match fields {
        FieldsModel::Named(named) => named,
        _ => {
            return Err(
                SchemaDeriveError::FieldsNotNamed {
                    message: owned("derive macro requires named fields"),
                },
            )
        },
    };
    let mut infos: Vec<FlatFieldInfo> = Vec::new();
    let mut i: usize = 0;
    while i < named.len()
        invariant
            i <= named.len(),
            infos.len() == i,
            forall|k: int|
                0 <= k < i ==> {
                    &&& (#[trigger] infos@[k]).name@ == named@[k].ident@
                    &&& infos@[k].is_option == spec_is_option_type(named@[k].ty)
                    &&& infos@[k].constraints@ == spec_constraints(flavor, named@[k].attrs@, false)
                },
        decreases named.len() - i,
    {
        let f = &named[i];
        let constraints = read_constraints(flavor, &f.attrs, false);
        infos.push(
            FlatFieldInfo { name: f.ident.clone(), is_option: is_option_type(&f.ty), constraints },
        );
        i = i + 1;
    }
    Ok(infos)
}

/// One property of the schema: the field's name and, when it carries
/// constraints, the statements that add them to the field's own schema.
pub struct PropertyPlan {
    pub name: String,
    pub stmts: Option<Vec<ConstraintStmt>>,
}

/// The object schema to generate.
pub struct JsonSchemaPlan {
    /// The schema's name: the struct's name.
    pub schema_name: String,
    /// The names of the fields that are not `Option`s, in field order.
    pub required: Vec<String>,
    /// One property per field, in field order.
    pub properties: Vec<PropertyPlan>,
}

/// The names of the fields that are not `Option`s, in order.
pub open spec fn spec_required_names(infos: Seq<FlatFieldInfo>) -> Seq<Seq<char>>
    decreases infos.len(),
{
    if infos.len() == 0 {
        Seq::empty()
    } else {
        let before = spec_required_names(infos.drop_last());
        if infos.last().is_option {
            before
        } else {
            before.push(infos.last().name@)
        }
    }
}

/// The statements for a property, when its constraints add anything.
pub open spec fn spec_property_stmts(c: ConstraintsView) -> Option<Seq<StmtView>> {
    if spec_is_empty(c) {
        None
    } else {
        Some(spec_constraint_stmts(c))
    }
}

/// Lays out the object schema for the fields.
pub fn generate_json_schema(struct_ident: &str, fields: &Vec<FlatFieldInfo>) -> (plan: JsonSchemaPlan)
    ensures
        plan.schema_name@ == struct_ident@,
        plan.required.deep_view() == spec_required_names(fields@),
        plan.properties.len() == fields.len(),
        forall|i: int|
            0 <= i < fields.len() ==> {
                &&& (#[trigger] plan.properties@[i]).name@ == fields@[i].name@
                &&& match plan.properties@[i].stmts {
                    Some(v) => spec_property_stmts(fields@[i].constraints@) == Some(
                        v@.map_values(|s: ConstraintStmt| s@),
                    ),
                    None => spec_property_stmts(fields@[i].constraints@) is None,
                }
            },
{
    let mut required: Vec<String> = Vec::new();
    let mut properties: Vec<PropertyPlan> = Vec::new();
    let mut i: usize = 0;
    while i < fields.len()
        invariant
            i <= fields.len(),
            required.deep_view() == spec_required_names(fields@.take(i as int)),
            properties.len() == i,
            forall|k: int|
                0 <= k < i ==> {
                    &&& (#[trigger] properties@[k]).name@ == fields@[k].name@
                    &&& match properties@[k].stmts {
                        Some(v) => spec_property_stmts(fields@[k].constraints@) == Some(
                            v@.map_values(|s: ConstraintStmt| s@),
                        ),
                        None => spec_property_stmts(fields@[k].constraints@) is None,
                    }
                },
        decreases fields.len() - i,
    {
        let f = &fields[i];
        assert(fields@.take(i + 1).drop_last() =~= fields@.take(i as int));
        if !f.is_option {
            required.push(f.name.clone());
        }
        assert(required.deep_view() =~= spec_required_names(fields@.take(i + 1)));
        let stmts = if f.constraints.is_empty() {
            None
        } else {
            Some(generate_constraint_stmts(&f.constraints))
        };
        properties.push(PropertyPlan { name: f.name.clone(), stmts });
        i = i + 1;
    }
    assert(fields@.take(fields.len() as int) =~= fields@);
    JsonSchemaPlan { schema_name: owned(struct_ident), required, properties }
}

/// Plans the schema implementation for an input, or says why there is none.
pub fn expand_derive_with(input: &DeriveModel, macro_name: &str, flavor: Flavor) -> (r: Result<JsonSchemaPlan, SchemaDeriveError>)
    ensures
        match input.data {
            DataModel::Struct(FieldsModel::Named(fs)) => r matches Ok(plan) && {
                &&& plan.schema_name@ == input.ident@
                &&& plan.properties.len() == fs.len()
                &&& forall|i: int|
                    0 <= i < fs.len() ==> {
                        &&& (#[trigger] plan.properties@[i]).name@ == fs@[i].ident@
                        &&& match plan.properties@[i].stmts {
                            Some(v) => spec_property_stmts(
                                spec_constraints(flavor, fs@[i].attrs@, false),
                            ) == Some(v@.map_values(|s: ConstraintStmt| s@)),
                            None => spec_property_stmts(
                                spec_constraints(flavor, fs@[i].attrs@, false),
                            ) is None,
                        }
                    }
                &&& exists|infos: Seq<FlatFieldInfo>|
                    {
                        &&& infos.len() == fs.len()
                        &&& forall|i: int|
                            0 <= i < fs.len() ==> (#[trigger] infos[i]).name@ == fs@[i].ident@
                                && infos[i].is_option == spec_is_option_type(fs@[i].ty)
                        &&& plan.required.deep_view() == spec_required_names(infos)
                    }
            },
            DataModel::Struct(_) => r matches Err(SchemaDeriveError::FieldsNotNamed { message })
                && message@ == fields_not_named_message(),
            _ => r matches Err(SchemaDeriveError::NotAStruct { message }) && message@
                == not_a_struct_message(macro_name@),
        },
{
    let fields = match &input.data {
        DataModel::Struct(fields) => fields,
        _ => {
            let mut message = owned(macro_name);
            message.append(" can only be derived for structs");
            return Err(SchemaDeriveError::NotAStruct { message });
        },
    };
    let field_info = match collect_field_info(fields, flavor) {
        Ok(infos) => infos,
        Err(e) => return Err(e),
    };
    let plan = generate_json_schema(input.ident.as_str(), &field_info);
    Ok(plan)
}

/// The schema keyword a statement sets; length bounds are always
/// `minLength`/`maxLength` here.
pub fn flat_stmt_key(stmt: &ConstraintStmt) -> (r: &'static str)
    ensures
        r@ == spec_stmt_key(stmt@, false),
{
    crate::patched_schema::stmt_key(stmt, false)
}

} // verus!
