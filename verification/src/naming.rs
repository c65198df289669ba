//! How a field is named in the generated schema, and which attributes are
//! carried over to the schema helper.

use vstd::prelude::*;
use crate::literal::{expr_to_str, spec_expr_to_str};
use crate::meta::{ExprModel, LitModel};
use crate::meta::{ident_named, AttrModel, FieldModel, MetaModel};
use crate::rename::{
    apply_rename_rule, ascii_apply_rename_rule, parse_rename_rule, spec_apply_rename_rule,
    spec_parse_rename_rule, RenameRule,
};
use crate::seqs::{first_some, lemma_first_some_step};
use crate::text::{all_ascii, ident_is};

verus! {

/// Whether an attribute is carried over: neither the validation attribute
/// itself nor a `derive`.
pub open spec fn keeps_attr(a: AttrModel, validation_attr: Seq<char>) -> bool {
    !ident_named(a.ident, validation_attr) && !ident_named(a.ident, "derive"@)
}

/// The positions, in order, of the attributes that are carried over.
pub open spec fn kept_indices(attrs: Seq<AttrModel>, validation_attr: Seq<char>) -> Seq<usize>
    decreases attrs.len(),
{
    if attrs.len() == 0 {
        Seq::empty()
    } else {
        let before = kept_indices(attrs.drop_last(), validation_attr);
        if keeps_attr(attrs.last(), validation_attr) {
            before.push((attrs.len() - 1) as usize)
        } else {
            before
        }
    }
}

/// The positions of the attributes to carry over: all but the validation
/// attribute and `derive`.
pub fn filter_attrs(attrs: &Vec<AttrModel>, validation_attr: &str) -> (kept: Vec<usize>)
    ensures
        kept@ == kept_indices(attrs@, validation_attr@),
{
    let mut kept: Vec<usize> = Vec::new();
    let mut i: usize = 0;
    while i < attrs.len()
        invariant
            i <= attrs.len(),
            kept@ == kept_indices(attrs@.take(i as int), validation_attr@),
        decreases attrs.len() - i,
    {
        assert(attrs@.take(i + 1).drop_last() =~= attrs@.take(i as int));
        proof {
            reveal_strlit("derive");
        }
        if !ident_is(&attrs[i].ident, validation_attr) && !ident_is(&attrs[i].ident, "derive") {
            kept.push(i);
        }
        i = i + 1;
    }
    assert(attrs@.take(attrs.len() as int) =~= attrs@);
    kept
}

/// The string given by a `key = "value"` item with the given key.
pub open spec fn str_item(key: Seq<char>) -> spec_fn(MetaModel) -> Option<Seq<char>> {
    |m: MetaModel|
        match m {
            MetaModel::NameValue { ident, value } => if ident_named(ident, key) {
                spec_expr_to_str(value)
            } else {
                None
            },
            _ => None,
        }
}

/// The first string that a `key = "value"` item gives in an attribute named
/// `attr_name` whose arguments parse.
pub open spec fn attr_str_item(attr_name: Seq<char>, key: Seq<char>) -> spec_fn(AttrModel) -> Option<Seq<char>> {
    |a: AttrModel|
        if ident_named(a.ident, attr_name) && a.args is Some {
            first_some(a.args.unwrap()@, str_item(key))
        } else {
            None
        }
}

/// The first `rename = "..."` string in the attributes named `attr_name`.
pub open spec fn spec_field_rename(attrs: Seq<AttrModel>, attr_name: Seq<char>) -> Option<Seq<char>> {
    first_some(attrs, attr_str_item(attr_name, "rename"@))
}

fn first_str_item(attrs: &Vec<AttrModel>, attr_name: &str, key: &str) -> (r: Option<String>)
    ensures
        r matches Some(s) ==> first_some(attrs@, attr_str_item(attr_name@, key@)) == Some(s@),
        r is None ==> first_some(attrs@, attr_str_item(attr_name@, key@)) is None,
{
    let mut i: usize = 0;
    assert(attrs@.skip(0) =~= attrs@);
    while i < attrs.len()
        invariant
            i <= attrs.len(),
            first_some(attrs@, attr_str_item(attr_name@, key@)) == first_some(
                attrs@.skip(i as int),
                attr_str_item(attr_name@, key@),
            ),
        decreases attrs.len() - i,
    {
        proof {
            lemma_first_some_step(attrs@, attr_str_item(attr_name@, key@), i as int);
        }
        let a = &attrs[i];
        if ident_is(&a.ident, attr_name) {
            if let Some(ms) = &a.args {
                let mut j: usize = 0;
                assert(ms@.skip(0) =~= ms@);
                while j < ms.len()
                    invariant
                        j <= ms.len(),
                        i < attrs.len(),
                        *a == attrs@[i as int],
                        a.args == Some(*ms),
                        ident_named(a.ident, attr_name@),
                        first_some(attrs@, attr_str_item(attr_name@, key@)) == first_some(
                            attrs@.skip(i as int),
                            attr_str_item(attr_name@, key@),
                        ),
                        first_some(ms@, str_item(key@)) == first_some(ms@.skip(j as int), str_item(key@)),
                    decreases ms.len() - j,
                {
                    proof {
                        lemma_first_some_step(ms@, str_item(key@), j as int);
                    }
                    if let MetaModel::NameValue { ident, value } = &ms[j] {
                        if ident_is(ident, key) {
                            if let Some(v) = expr_to_str(value) {
                                assert(str_item(key@)(ms@[j as int]) == Some(v@));
                                assert(first_some(ms@, str_item(key@)) == Some(v@));
                                assert(attrs@[i as int] == *a);
                                assert(attr_str_item(attr_name@, key@)(attrs@[i as int]) == Some(v@));
                                proof {
                                    lemma_first_some_step(attrs@, attr_str_item(attr_name@, key@), i as int);
                                }
                                return Some(v);
                            }
                        }
                    }
                    j = j + 1;
                }
                assert(ms@.skip(ms.len() as int) =~= Seq::<MetaModel>::empty());
            }
        }
        i = i + 1;
    }
    assert(attrs@.skip(attrs.len() as int) =~= Seq::<AttrModel>::empty());
    None
}

/// The `rename = "..."` value given in an attribute named `attr_name`.
pub fn field_rename_from_attr(attrs: &Vec<AttrModel>, attr_name: &str) -> (r: Option<String>)
    ensures
        r matches Some(s) ==> spec_field_rename(attrs@, attr_name@) == Some(s@),
        r is None ==> spec_field_rename(attrs@, attr_name@) is None,
{
    proof {
        reveal_strlit("rename");
    }
    first_str_item(attrs, attr_name, "rename")
}

/// The first recognized `rename_all` rule in an attribute named `attr_name`.
pub open spec fn attr_rename_all(attr_name: Seq<char>) -> spec_fn(AttrModel) -> Option<RenameRule> {
    |a: AttrModel|
        if ident_named(a.ident, attr_name) && a.args is Some {
            first_some(
                a.args.unwrap()@,
                |m: MetaModel|
                    match str_item("rename_all"@)(m) {
                        Some(v) => spec_parse_rename_rule(v),
                        None => None,
                    },
            )
        } else {
            None
        }
}

/// The first recognized `rename_all` rule in the attributes named `attr_name`;
/// values that name no rule are passed over.
pub open spec fn spec_rename_all(attrs: Seq<AttrModel>, attr_name: Seq<char>) -> Option<RenameRule> {
    first_some(attrs, attr_rename_all(attr_name))
}

/// Finds the `rename_all` rule declared in an attribute named `attr_name`.
pub fn rename_all_from_attr(attrs: &Vec<AttrModel>, attr_name: &str) -> (r: Option<RenameRule>)
    ensures
        r == spec_rename_all(attrs@, attr_name@),
{
    proof {
        reveal_strlit("rename_all");
    }
    let ghost item = |m: MetaModel|
        match str_item("rename_all"@)(m) {
            Some(v) => spec_parse_rename_rule(v),
            None => None,
        };
    let mut i: usize = 0;
    assert(attrs@.skip(0) =~= attrs@);
    while i < attrs.len()
        invariant
            i <= attrs.len(),
            spec_rename_all(attrs@, attr_name@) == first_some(
                attrs@.skip(i as int),
                attr_rename_all(attr_name@),
            ),
            item == (|m: MetaModel|
                match str_item("rename_all"@)(m) {
                    Some(v) => spec_parse_rename_rule(v),
                    None => None,
                }),
        decreases attrs.len() - i,
    {
        proof {
            lemma_first_some_step(attrs@, attr_rename_all(attr_name@), i as int);
        }
        let a = &attrs[i];
        if ident_is(&a.ident, attr_name) {
            if let Some(ms) = &a.args {
                let mut j: usize = 0;
                assert(ms@.skip(0) =~= ms@);
                assert(attr_rename_all(attr_name@)(*a) == first_some(ms@, item));
                while j < ms.len()
                    invariant
                        j <= ms.len(),
                        i < attrs.len(),
                        *a == attrs@[i as int],
                        a.args == Some(*ms),
                        ident_named(a.ident, attr_name@),
                        spec_rename_all(attrs@, attr_name@) == first_some(
                            attrs@.skip(i as int),
                            attr_rename_all(attr_name@),
                        ),
                        first_some(ms@, item) == first_some(ms@.skip(j as int), item),
                        item == (|m: MetaModel|
                            match str_item("rename_all"@)(m) {
                                Some(v) => spec_parse_rename_rule(v),
                                None => None,
                            }),
                    decreases ms.len() - j,
                {
                    proof {
                        lemma_first_some_step(ms@, item, j as int);
                    }
                    if let MetaModel::NameValue { ident, value } = &ms[j] {
                        if ident_is(ident, "rename_all") {
                            if let Some(v) = expr_to_str(value) {
                                if let Some(rule) = parse_rename_rule(v.as_str()) {
                                    assert(str_item("rename_all"@)(ms@[j as int]) == Some(v@));
                                    assert(item(ms@[j as int]) == Some(rule));
                                    assert(first_some(ms@, item) == Some(rule));
                                    assert(attrs@[i as int] == *a);
                                    assert(attr_rename_all(attr_name@)(attrs@[i as int]) == Some(rule));
                                    proof {
                                        lemma_first_some_step(attrs@, attr_rename_all(attr_name@), i as int);
                                    }
                                    return Some(rule);
                                }
                            }
                        }
                    }
                    j = j + 1;
                }
                assert(ms@.skip(ms.len() as int) =~= Seq::<MetaModel>::empty());
            }
        }
        i = i + 1;
    }
    assert(attrs@.skip(attrs.len() as int) =~= Seq::<AttrModel>::empty());
    None
}

/// The struct-level `rename_all` rule: schemars first, then serde.
pub open spec fn spec_struct_rename_all(attrs: Seq<AttrModel>) -> Option<RenameRule> {
    match spec_rename_all(attrs, "schemars"@) {
        Some(r) => Some(r),
        None => spec_rename_all(attrs, "serde"@),
    }
}

/// The struct-level `rename_all` rule: `#[schemars(..)]` wins over `#[serde(..)]`.
pub fn struct_rename_all(attrs: &Vec<AttrModel>) -> (r: Option<RenameRule>)
    ensures
        r == spec_struct_rename_all(attrs@),
{
    proof {
        reveal_strlit("schemars");
        reveal_strlit("serde");
    }
    match rename_all_from_attr(attrs, "schemars") {
        Some(r) => Some(r),
        None => rename_all_from_attr(attrs, "serde"),
    }
}

/// The name a field has in the schema: an explicit schemars rename, else an
/// explicit serde rename, else the struct's `rename_all` rule applied to the
/// field name (with ASCII case mapping for an ASCII name), else the field
/// name itself.
pub open spec fn spec_schema_field_name(field: FieldModel, rename_all: Option<RenameRule>) -> Seq<char> {
    match spec_field_rename(field.attrs@, "schemars"@) {
        Some(s) => s,
        None => match spec_field_rename(field.attrs@, "serde"@) {
            Some(s) => s,
            None => match rename_all {
                Some(rule) => if all_ascii(field.ident@) {
                    ascii_apply_rename_rule(field.ident@, rule)
                } else {
                    spec_apply_rename_rule(field.ident@, rule)
                },
                None => field.ident@,
            },
        },
    }
}

/// The name a field has in the schema.
pub fn schema_field_name(field: &FieldModel, rename_all: Option<RenameRule>) -> (r: String)
    ensures
        r@ == spec_schema_field_name(*field, rename_all),
{
    proof {
        reveal_strlit("schemars");
        reveal_strlit("serde");
    }
    match field_rename_from_attr(&field.attrs, "schemars") {
        Some(s) => s,
        None => match field_rename_from_attr(&field.attrs, "serde") {
            Some(s) => s,
            None => match rename_all {
                Some(rule) => apply_rename_rule(field.ident.as_str(), rule),
                None => field.ident.clone(),
            },
        },
    }
}

/// Which name a field gets in the schema: a schemars rename wins; without
/// one a serde rename is used; without either the struct's `rename_all`
/// rule applies, and without that the field keeps its own name. A field
/// carrying only `#[serde(rename = "x")]` is named `x` whatever the rule.
pub proof fn schema_field_name_law(
    field: FieldModel,
    rename_all: Option<RenameRule>,
    x: String,
    key: String,
    attr: AttrModel,
)
    ensures
        spec_field_rename(field.attrs@, "schemars"@) matches Some(y) ==> spec_schema_field_name(
            field,
            rename_all,
        ) == y,
        spec_field_rename(field.attrs@, "schemars"@) is None && spec_field_rename(
            field.attrs@,
            "serde"@,
        ) is Some ==> spec_schema_field_name(field, rename_all) == spec_field_rename(
            field.attrs@,
            "serde"@,
        )->0,
        spec_field_rename(field.attrs@, "schemars"@) is None && spec_field_rename(
            field.attrs@,
            "serde"@,
        ) is None && rename_all is None ==> spec_schema_field_name(field, rename_all) == field.ident@,
        (key@ == "rename"@ && field.attrs@ == seq![attr] && ident_named(attr.ident, "serde"@) && attr.args is Some
            && attr.args->0@ == seq![
            MetaModel::NameValue {
                ident: Some(key),
                value: ExprModel::Lit(LitModel::Str(x)),
            },
        ]) ==> spec_schema_field_name(field, rename_all) == x@,
{
    reveal_strlit("serde");
    reveal_strlit("schemars");
    reveal_strlit("rename");
    if key@ == "rename"@ && field.attrs@ == seq![attr] && ident_named(attr.ident, "serde"@) && attr.args is Some
        && attr.args->0@ == seq![
        MetaModel::NameValue {
            ident: Some(key),
            value: ExprModel::Lit(LitModel::Str(x)),
        },
    ] {
        let attrs = field.attrs@;
        assert("serde"@.len() != "schemars"@.len());
        assert(attr_str_item("schemars"@, "rename"@)(attrs[0]) is None);
        assert(attrs.drop_first() =~= Seq::<AttrModel>::empty());
        assert(first_some(attrs.drop_first(), attr_str_item("schemars"@, "rename"@)) is None);
        assert(spec_field_rename(attrs, "schemars"@) is None);
        let ms = attr.args->0@;
        assert(ms.drop_first() =~= Seq::<MetaModel>::empty());
        assert(str_item("rename"@)(ms[0]) == Some(x@));
        assert(first_some(ms, str_item("rename"@)) == Some(x@));
        assert(attr_str_item("serde"@, "rename"@)(attrs[0]) == Some(x@));
        assert(spec_field_rename(attrs, "serde"@) == Some(x@));
    }
}

} // verus!
