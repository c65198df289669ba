//! The attribute data that schema derivation reads from a derive input.
//!
//! A derive input is first turned into these plain values (what each
//! attribute, meta item and literal says); everything that decides schema
//! constraints and names then works on them.

use vstd::prelude::*;

verus! {

/// A literal as written in an attribute.
pub enum LitModel {
    /// An integer literal, by the decimal digits of its value: no sign, no
    /// suffix and no `_` separators (hex and other bases already converted).
    Int { digits: String },
    /// A floating-point literal, by its decimal text without suffix.
    Float { digits: String },
    /// A string literal, by its value.
    Str(String),
    /// Any other literal.
    Other,
}

/// An expression as far as schema derivation reads it.
pub enum ExprModel {
    Lit(LitModel),
    /// A unary minus applied to an expression.
    Neg(Box<ExprModel>),
    /// Anything else (paths, calls, runtime expressions).
    Other,
}

/// A `key = value` argument inside a list such as `length(min = 1)`.
pub struct NameValueArg {
    /// The key when it is a single identifier.
    pub ident: Option<String>,
    pub value: ExprModel,
}

/// The tokens inside a meta list such as `length(...)` or `pattern("...")`.
pub struct ListArgs {
    /// The `key = value` items, in order, when the tokens parse as a
    /// comma-separated list of meta items; `None` when they do not.
    pub name_values: Option<Vec<NameValueArg>>,
    /// The string value when the tokens are exactly one string literal.
    pub single_str: Option<String>,
}

/// One item of an attribute's argument list.
pub enum MetaModel {
    /// A bare path such as `email`; `ident` is set when it is one identifier.
    Path { ident: Option<String> },
    /// A list such as `length(min = 1)`.
    List { ident: Option<String>, args: ListArgs },
    /// A name-value item such as `rename = "x"`.
    NameValue { ident: Option<String>, value: ExprModel },
}

/// One attribute such as `#[garde(length(min = 1))]`.
pub struct AttrModel {
    /// The attribute's name when its path is one identifier.
    pub ident: Option<String>,
    /// The argument items, in order, when the arguments parse as a
    /// comma-separated list of meta items; `None` when they do not.
    pub args: Option<Vec<MetaModel>>,
}

/// The type of a field, as far as schema derivation reads it.
pub enum TypeModel {
    /// A path type, with the identifier of its last segment.
    Path { last_segment: Option<String> },
    /// Any other type.
    Other,
}

/// A named field of the derive input.
pub struct FieldModel {
    pub ident: String,
    pub ty: TypeModel,
    pub attrs: Vec<AttrModel>,
}

/// The fields of a struct.
pub enum FieldsModel {
    Named(Vec<FieldModel>),
    Unnamed,
    Unit,
}

/// What kind of item the derive is applied to.
pub enum DataModel {
    Struct(FieldsModel),
    Enum,
    Union,
}

/// A derive input.
pub struct DeriveModel {
    pub ident: String,
    pub attrs: Vec<AttrModel>,
    pub data: DataModel,
}

/// Whether an optional identifier is present and spells `name`.
pub open spec fn ident_named(ident: Option<String>, name: Seq<char>) -> bool {
    ident matches Some(s) && s@ == name
}

} // verus!
