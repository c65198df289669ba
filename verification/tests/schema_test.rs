use summer_web::constraints::{
    parse_length_params, parse_range_params, read_constraints, regex_escape, Flavor,
    SchemaConstraints,
};
use summer_web::flat_schema;
use summer_web::literal::{expr_to_numeric, expr_to_str, expr_to_u64, parse_digits, NumericLit};
use summer_web::meta::{
    AttrModel, DataModel, DeriveModel, ExprModel, FieldModel, FieldsModel, ListArgs, LitModel,
    MetaModel, NameValueArg, TypeModel,
};
use summer_web::naming::{
    field_rename_from_attr, filter_attrs, rename_all_from_attr, schema_field_name,
    struct_rename_all,
};
use summer_web::patched_schema::{
    expand_derive_with, generate_constraint_stmts, is_array_type, merge_required,
    parse_garde_constraints, parse_validator_constraints, stmt_key, ConstraintStmt,
    SchemaDeriveError, SchemaTypeValue,
};
use summer_web::rename::RenameRule;

fn int_lit(digits: &str) -> ExprModel {
    ExprModel::Lit(LitModel::Int { digits: digits.to_string() })
}

fn float(digits: &str) -> ExprModel {
    ExprModel::Lit(LitModel::Float { digits: digits.to_string() })
}

fn neg(e: ExprModel) -> ExprModel {
    ExprModel::Neg(Box::new(e))
}

fn string(s: &str) -> ExprModel {
    ExprModel::Lit(LitModel::Str(s.to_string()))
}

fn kv(key: &str, value: ExprModel) -> NameValueArg {
    NameValueArg { ident: Some(key.to_string()), value }
}

fn list(ident: &str, items: Vec<NameValueArg>) -> MetaModel {
    MetaModel::List {
        ident: Some(ident.to_string()),
        args: ListArgs { name_values: Some(items), single_str: None },
    }
}

fn list_str(ident: &str, s: &str) -> MetaModel {
    MetaModel::List {
        ident: Some(ident.to_string()),
        args: ListArgs { name_values: None, single_str: Some(s.to_string()) },
    }
}

fn path(ident: &str) -> MetaModel {
    MetaModel::Path { ident: Some(ident.to_string()) }
}

fn name_value(ident: &str, value: ExprModel) -> MetaModel {
    MetaModel::NameValue { ident: Some(ident.to_string()), value }
}

fn attr(ident: &str, args: Vec<MetaModel>) -> AttrModel {
    AttrModel { ident: Some(ident.to_string()), args: Some(args) }
}

fn field(ident: &str, ty: &str, attrs: Vec<AttrModel>) -> FieldModel {
    FieldModel {
        ident: ident.to_string(),
        ty: TypeModel::Path { last_segment: Some(ty.to_string()) },
        attrs,
    }
}

fn is_int(n: &Option<NumericLit>, v: i64) -> bool {
    matches!(n, Some(NumericLit::Int(x)) if *x == v)
}

#[test]
fn literals_are_read() {
    assert_eq!(parse_digits("150", u64::MAX), Some(150));
    assert_eq!(parse_digits("", u64::MAX), None);
    assert_eq!(parse_digits("12a", u64::MAX), None);
    assert_eq!(parse_digits("18446744073709551615", u64::MAX), Some(u64::MAX));
    assert_eq!(parse_digits("18446744073709551616", u64::MAX), None);
    assert_eq!(parse_digits("9223372036854775808", i64::MAX as u64), None);

    assert_eq!(expr_to_u64(&int_lit("100")), Some(100));
    assert_eq!(expr_to_u64(&neg(int_lit("1"))), None);
    assert_eq!(expr_to_u64(&string("1")), None);
    assert!(is_int(&expr_to_numeric(&neg(int_lit("5"))), -5));
    assert!(is_int(&expr_to_numeric(&neg(neg(int_lit("5")))), 5));
    assert!(matches!(
        expr_to_numeric(&neg(float("2.5"))),
        Some(NumericLit::Float { ref digits, negative: true }) if digits == "2.5"
    ));
    assert!(expr_to_numeric(&ExprModel::Other).is_none());
    assert_eq!(expr_to_str(&string("x")), Some("x".to_string()));
    assert_eq!(expr_to_str(&int_lit("1")), None);
}

#[test]
fn regex_escape_escapes_metacharacters() {
    assert_eq!(regex_escape("a.b"), "a\\.b");
    assert_eq!(regex_escape("x+(y)"), "x\\+\\(y\\)");
    assert_eq!(regex_escape("^$|?*[]{}\\"), "\\^\\$\\|\\?\\*\\[\\]\\{\\}\\\\");
    assert_eq!(regex_escape("plain"), "plain");
}

#[test]
fn length_and_range_params() {
    let mut c = SchemaConstraints::new();
    parse_length_params(
        &ListArgs { name_values: Some(vec![kv("min", int_lit("1")), kv("max", int_lit("100"))]), single_str: None },
        &mut c,
    );
    assert_eq!(c.min_length, Some(1));
    assert_eq!(c.max_length, Some(100));

    let mut c = SchemaConstraints::new();
    parse_length_params(
        &ListArgs { name_values: Some(vec![kv("equal", int_lit("8"))]), single_str: None },
        &mut c,
    );
    assert_eq!(c.min_length, Some(8));
    assert_eq!(c.max_length, Some(8));

    let mut c = SchemaConstraints::new();
    parse_range_params(
        &ListArgs {
            name_values: Some(vec![kv("min", neg(int_lit("5"))), kv("max", float("2.5")), kv("other", int_lit("3"))]),
            single_str: None,
        },
        &mut c,
    );
    assert!(is_int(&c.minimum, -5));
    assert!(matches!(&c.maximum, Some(NumericLit::Float { digits, negative: false }) if digits == "2.5"));
    assert!(!c.is_empty());
    assert!(SchemaConstraints::new().is_empty());
}

#[test]
fn garde_constraints() {
    let attrs = vec![
        attr("garde", vec![list("length", vec![kv("min", int_lit("1")), kv("max", int_lit("100"))]), path("email")]),
        attr("serde", vec![name_value("rename", string("x"))]),
    ];
    let c = parse_garde_constraints(&attrs);
    assert_eq!(c.min_length, Some(1));
    assert_eq!(c.max_length, Some(100));
    assert_eq!(c.format.as_deref(), Some("email"));
    assert!(!c.required);

    let c = parse_garde_constraints(&vec![attr("garde", vec![path("required"), path("url")])]);
    assert!(c.required);
    assert_eq!(c.format.as_deref(), Some("uri"));

    let c = parse_garde_constraints(&vec![attr("garde", vec![path("alphanumeric")])]);
    assert_eq!(c.pattern.as_deref(), Some("^[a-zA-Z0-9]*$"));
    let c = parse_garde_constraints(&vec![attr("garde", vec![list_str("prefix", "x+")])]);
    assert_eq!(c.pattern.as_deref(), Some("^x\\+"));
    let c = parse_garde_constraints(&vec![attr("garde", vec![list_str("suffix", ".rs")])]);
    assert_eq!(c.pattern.as_deref(), Some("\\.rs$"));
    let c = parse_garde_constraints(&vec![attr("garde", vec![list_str("contains", "a.b")])]);
    assert_eq!(c.pattern.as_deref(), Some("a\\.b"));
    let c = parse_garde_constraints(&vec![attr("garde", vec![list_str("pattern", "^[a-z]+$")])]);
    assert_eq!(c.pattern.as_deref(), Some("^[a-z]+$"));
    let c = parse_garde_constraints(&vec![attr("garde", vec![path("ip")])]);
    assert_eq!(c.format.as_deref(), Some("ip"));
    let c = parse_garde_constraints(&vec![attr(
        "garde",
        vec![list("byte_length", vec![kv("max", int_lit("16"))])],
    )]);
    assert_eq!(c.max_length, Some(16));

    let flat = flat_schema::parse_garde_constraints(&vec![attr("garde", vec![path("required")])]);
    assert!(!flat.required);
    assert!(flat.is_empty());
}

#[test]
fn validator_constraints() {
    let attrs = vec![attr(
        "validate",
        vec![
            list("range", vec![kv("min", int_lit("0")), kv("max", int_lit("150")), kv("message", string("age"))]),
            list("contains", vec![kv("pattern", string("a.b"))]),
            list("email", vec![kv("message", string("bad"))]),
        ],
    )];
    let c = parse_validator_constraints(&attrs);
    assert!(is_int(&c.minimum, 0));
    assert!(is_int(&c.maximum, 150));
    assert_eq!(c.pattern.as_deref(), Some("a\\.b"));
    assert_eq!(c.format.as_deref(), Some("email"));

    let c = parse_validator_constraints(&vec![attr("validate", vec![name_value("contains", string("?"))])]);
    assert_eq!(c.pattern.as_deref(), Some("\\?"));
    let c = parse_validator_constraints(&vec![attr("validate", vec![path("required"), path("url")])]);
    assert!(c.required);
    assert_eq!(c.format.as_deref(), Some("uri"));
    // garde-only items are ignored by the validator reader
    let c = parse_validator_constraints(&vec![attr("validate", vec![path("alphanumeric")])]);
    assert!(c.is_empty());
    // attributes that do not parse as meta lists are skipped
    let c = read_constraints(Flavor::Validator, &vec![AttrModel { ident: Some("validate".to_string()), args: None }], true);
    assert!(c.is_empty());
}

#[test]
fn constraint_statements_in_order() {
    let mut c = SchemaConstraints::new();
    c.min_length = Some(1);
    c.max_length = Some(2);
    c.maximum = Some(NumericLit::Int(9));
    c.format = Some("email".to_string());
    let stmts = generate_constraint_stmts(&c);
    assert_eq!(stmts.len(), 4);
    assert!(matches!(stmts[0], ConstraintStmt::MinLength(1)));
    assert!(matches!(stmts[1], ConstraintStmt::MaxLength(2)));
    assert!(matches!(stmts[2], ConstraintStmt::Maximum(NumericLit::Int(9))));
    assert!(matches!(&stmts[3], ConstraintStmt::Format(f) if f == "email"));
    assert_eq!(stmt_key(&stmts[0], false), "minLength");
    assert_eq!(stmt_key(&stmts[0], true), "minItems");
    assert_eq!(stmt_key(&stmts[1], true), "maxItems");
    assert_eq!(stmt_key(&stmts[2], true), "maximum");
    assert_eq!(flat_schema::flat_stmt_key(&stmts[1]), "maxLength");
}

#[test]
fn array_types() {
    assert!(is_array_type(&SchemaTypeValue::Str("array".to_string())));
    assert!(!is_array_type(&SchemaTypeValue::Str("string".to_string())));
    assert!(is_array_type(&SchemaTypeValue::Array(vec![None, Some("array".to_string())])));
    assert!(!is_array_type(&SchemaTypeValue::Array(vec![Some("null".to_string())])));
    assert!(!is_array_type(&SchemaTypeValue::Missing));
    assert!(!is_array_type(&SchemaTypeValue::Other));
}

#[test]
fn required_list_is_merged_without_duplicates() {
    let mut existing = vec![Some("a".to_string()), None];
    merge_required(&mut existing, &vec!["b".to_string(), "a".to_string(), "b".to_string()]);
    assert_eq!(existing, vec![Some("a".to_string()), None, Some("b".to_string())]);
    let before = existing.clone();
    merge_required(&mut existing, &vec!["a".to_string(), "b".to_string()]);
    assert_eq!(existing, before);
}

#[test]
fn naming_from_attributes() {
    let attrs = vec![
        attr("serde", vec![name_value("rename_all", string("camelCase"))]),
        attr("schemars", vec![name_value("rename_all", string("kebab-case"))]),
        attr("derive", vec![path("Debug")]),
        attr("garde", vec![path("email")]),
    ];
    assert_eq!(rename_all_from_attr(&attrs, "serde"), Some(RenameRule::Camel));
    assert_eq!(struct_rename_all(&attrs), Some(RenameRule::Kebab));
    assert_eq!(filter_attrs(&attrs, "garde"), vec![0, 1]);
    assert_eq!(filter_attrs(&attrs, "validate"), vec![0, 1, 3]);
    assert_eq!(rename_all_from_attr(&vec![attr("serde", vec![name_value("rename_all", string("bogus"))])], "serde"), None);

    let f = field("user_name", "String", vec![]);
    assert_eq!(schema_field_name(&f, Some(RenameRule::Camel)), "userName");
    assert_eq!(schema_field_name(&f, None), "user_name");
    let f = field("item_count", "u32", vec![]);
    assert_eq!(schema_field_name(&f, Some(RenameRule::Kebab)), "item-count");

    let f = field(
        "name",
        "String",
        vec![
            attr("serde", vec![name_value("rename", string("serdeName"))]),
            attr("schemars", vec![name_value("rename", string("schemaName"))]),
        ],
    );
    assert_eq!(field_rename_from_attr(&f.attrs, "serde"), Some("serdeName".to_string()));
    assert_eq!(schema_field_name(&f, Some(RenameRule::Kebab)), "schemaName");
}

fn user_input() -> DeriveModel {
    DeriveModel {
        ident: "CreateUser".to_string(),
        attrs: vec![attr("serde", vec![name_value("rename_all", string("camelCase"))])],
        data: DataModel::Struct(FieldsModel::Named(vec![
            field(
                "display_name",
                "String",
                vec![attr("garde", vec![path("required"), list("length", vec![kv("min", int_lit("1"))])])],
            ),
            field("nick_name", "Option", vec![attr("garde", vec![path("skip")])]),
        ])),
    }
}

#[test]
fn patched_schema_plan() {
    let plan = match expand_derive_with(&user_input(), "GardeSchema", "garde", Flavor::Garde) {
        Ok(plan) => plan,
        Err(_) => panic!("plan expected"),
    };
    assert_eq!(plan.struct_ident, "CreateUser");
    assert_eq!(plan.helper.ident, "__SummerSchemaBase_CreateUser");
    assert_eq!(plan.helper.attrs, vec![0]);
    assert_eq!(plan.helper.fields.len(), 2);
    assert_eq!(plan.helper.fields[0].0, "display_name");
    assert!(plan.helper.fields[0].1.is_empty());
    assert_eq!(plan.fields[0].schema_name, "displayName");
    assert_eq!(plan.fields[1].schema_name, "nickName");
    assert_eq!(plan.patches.len(), 1);
    assert_eq!(plan.patches[0].schema_name, "displayName");
    assert_eq!(plan.patches[0].stmts.len(), 1);
    assert!(matches!(plan.patches[0].stmts[0], ConstraintStmt::MinLength(1)));
    assert_eq!(plan.required_fields, vec!["displayName".to_string()]);
}

#[test]
fn patched_schema_refuses_other_inputs() {
    let enum_input = DeriveModel { ident: "E".to_string(), attrs: vec![], data: DataModel::Enum };
    match expand_derive_with(&enum_input, "ValidatorSchema", "validate", Flavor::Validator) {
        Err(SchemaDeriveError::NotAStruct { message }) => {
            assert_eq!(message, "ValidatorSchema can only be derived for structs")
        }
        _ => panic!("error expected"),
    }
    let tuple_input = DeriveModel {
        ident: "T".to_string(),
        attrs: vec![],
        data: DataModel::Struct(FieldsModel::Unnamed),
    };
    match expand_derive_with(&tuple_input, "GardeSchema", "garde", Flavor::Garde) {
        Err(SchemaDeriveError::FieldsNotNamed { message }) => {
            assert_eq!(message, "derive macro requires named fields")
        }
        _ => panic!("error expected"),
    }
}

#[test]
fn flat_schema_plan() {
    let plan = match flat_schema::expand_derive_with(&user_input(), "GardeSchema", Flavor::Garde) {
        Ok(plan) => plan,
        Err(_) => panic!("plan expected"),
    };
    assert_eq!(plan.schema_name, "CreateUser");
    assert_eq!(plan.required, vec!["display_name".to_string()]);
    assert_eq!(plan.properties.len(), 2);
    assert_eq!(plan.properties[0].name, "display_name");
    let stmts = plan.properties[0].stmts.as_ref().expect("constraints");
    assert_eq!(stmts.len(), 1);
    assert!(plan.properties[1].stmts.is_none());

    assert!(flat_schema::is_option_type(&TypeModel::Path { last_segment: Some("Option".to_string()) }));
    assert!(!flat_schema::is_option_type(&TypeModel::Path { last_segment: Some("Vec".to_string()) }));
    assert!(!flat_schema::is_option_type(&TypeModel::Other));

    let unit = DeriveModel { ident: "U".to_string(), attrs: vec![], data: DataModel::Struct(FieldsModel::Unit) };
    assert!(matches!(
        flat_schema::expand_derive_with(&unit, "GardeSchema", Flavor::Garde),
        Err(SchemaDeriveError::FieldsNotNamed { .. })
    ));
}

#[test]
fn empty_constraints_yield_no_statements() {
    let c = SchemaConstraints::new();
    assert!(c.is_empty());
    assert!(generate_constraint_stmts(&c).is_empty());

    let mut required_only = SchemaConstraints::new();
    required_only.required = true;
    assert!(!required_only.is_empty());
    assert!(generate_constraint_stmts(&required_only).is_empty());

    let mut patterned = SchemaConstraints::new();
    patterned.pattern = Some("^a$".to_string());
    assert!(!patterned.is_empty());
    assert_eq!(generate_constraint_stmts(&patterned).len(), 1);
}

#[test]
fn rename_all_reaches_schema_names_and_required() {
    let input = DeriveModel {
        ident: "RenameAllSchemars".to_string(),
        attrs: vec![attr("schemars", vec![name_value("rename_all", string("kebab-case"))])],
        data: DataModel::Struct(FieldsModel::Named(vec![field(
            "display_name",
            "Option",
            vec![attr("validate", vec![path("required")])],
        )])),
    };
    let plan = match expand_derive_with(&input, "ValidatorSchema", "validate", Flavor::Validator) {
        Ok(plan) => plan,
        Err(_) => panic!("plan expected"),
    };
    assert_eq!(plan.fields[0].schema_name, "display-name");
    assert_eq!(plan.required_fields, vec!["display-name".to_string()]);
}
