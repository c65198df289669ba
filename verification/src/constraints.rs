//! Schema constraints read from `#[garde(...)]` and `#[validate(...)]`
//! attributes.
//!
//! | attribute item | constraint |
//! |---|---|
//! | `length(min/max/equal)` (garde also `byte_length`) | length bounds |
//! | `range(min/max)` | numeric bounds |
//! | `email` / `url` / `ip` (ip: garde only) | `format` |
//! | `alphanumeric`, `pattern`, `contains`, `prefix`, `suffix` | `pattern` |
//! | `required` (when recognized) | required field |
//!
//! Runtime expressions as bounds are skipped. When an item sets a constraint
//! that an earlier item set, the later one wins.

use vstd::prelude::*;
use crate::literal::{
    expr_to_numeric, expr_to_str, expr_to_u64, spec_expr_to_numeric, spec_expr_to_str,
    spec_expr_to_u64, NumericLit, NumericView,
};
use crate::meta::{ident_named, AttrModel, ExprModel, ListArgs, MetaModel, NameValueArg};
use crate::text::{ident_is, owned, push_char};

verus! {

/// The constraints one field carries into its schema.
pub struct SchemaConstraints {
    pub required: bool,
    pub min_length: Option<u64>,
    pub max_length: Option<u64>,
    pub minimum: Option<NumericLit>,
    pub maximum: Option<NumericLit>,
    pub format: Option<String>,
    pub pattern: Option<String>,
}

/// Schema constraints as mathematical values.
pub struct ConstraintsView {
    pub required: bool,
    pub min_length: Option<u64>,
    pub max_length: Option<u64>,
    pub minimum: Option<NumericView>,
    pub maximum: Option<NumericView>,
    pub format: Option<Seq<char>>,
    pub pattern: Option<Seq<char>>,
}

impl View for SchemaConstraints {
    type V = ConstraintsView;

    open spec fn view(&self) -> ConstraintsView {
        ConstraintsView {
            required: self.required,
            min_length: self.min_length,
            max_length: self.max_length,
            minimum: match self.minimum {
                Some(n) => Some(n@),
                None => None,
            },
            maximum: match self.maximum {
                Some(n) => Some(n@),
                None => None,
            },
            format: match self.format {
                Some(s) => Some(s@),
                None => None,
            },
            pattern: match self.pattern {
                Some(s) => Some(s@),
                None => None,
            },
        }
    }
}

/// No constraint at all.
pub open spec fn no_constraints() -> ConstraintsView {
    ConstraintsView {
        required: false,
        min_length: None,
        max_length: None,
        minimum: None,
        maximum: None,
        format: None,
        pattern: None,
    }
}

/// Whether nothing would be added to a schema for these constraints.
pub open spec fn spec_is_empty(c: ConstraintsView) -> bool {
    &&& c.min_length is None
    &&& c.max_length is None
    &&& c.minimum is None
    &&& c.maximum is None
    &&& c.format is None
    &&& c.pattern is None
    &&& !c.required
}

impl SchemaConstraints {
    /// No constraint at all.
    pub fn new() -> (r: SchemaConstraints)
        ensures
            r@ == no_constraints(),
    {
        SchemaConstraints {
            required: false,
            min_length: None,
            max_length: None,
            minimum: None,
            maximum: None,
            format: None,
            pattern: None,
        }
    }

    /// Whether nothing would be added to a schema for these constraints.
    pub fn is_empty(&self) -> (r: bool)
        ensures
            r == spec_is_empty(self@),
    {
        self.min_length.is_none() && self.max_length.is_none() && self.minimum.is_none()
            && self.maximum.is_none() && self.format.is_none() && self.pattern.is_none()
            && !self.required
    }
}

/// Characters that have a meaning in a regular expression.
pub open spec fn is_regex_meta(c: char) -> bool {
    c == '\\' || c == '^' || c == '$' || c == '.' || c == '|' || c == '?' || c == '*' || c == '+'
        || c == '(' || c == ')' || c == '[' || c == ']' || c == '{' || c == '}'
}

/// `s` with a backslash before each regular-expression metacharacter.
pub open spec fn spec_regex_escape(s: Seq<char>) -> Seq<char>
    decreases s.len(),
{
    if s.len() == 0 {
        Seq::empty()
    } else if is_regex_meta(s.last()) {
        spec_regex_escape(s.drop_last()).push('\\').push(s.last())
    } else {
        spec_regex_escape(s.drop_last()).push(s.last())
    }
}

/// Escapes regular-expression metacharacters so that `s` matches literally.
pub fn regex_escape(s: &str) -> (out: String)
    ensures
        out@ == spec_regex_escape(s@),
{
    let n = s.unicode_len();
    let mut out = String::new();
    let mut i: usize = 0;
    while i < n
        invariant
            n == s@.len(),
            i <= n,
            out@ == spec_regex_escape(s@.take(i as int)),
        decreases n - i,
    {
        let c = s.get_char(i);
        assert(s@.take(i + 1).drop_last() =~= s@.take(i as int));
        if c == '\\' || c == '^' || c == '$' || c == '.' || c == '|' || c == '?' || c == '*' || c
            == '+' || c == '(' || c == ')' || c == '[' || c == ']' || c == '{' || c == '}' {
            push_char(&mut out, '\\');
        }
        push_char(&mut out, c);
        i = i + 1;
    }
    assert(s@.take(n as int) =~= s@);
    out
}

/// One `length(...)` argument: `min`, `max` or `equal` with an integer.
pub open spec fn length_step(c: ConstraintsView, a: NameValueArg) -> ConstraintsView {
    match spec_expr_to_u64(a.value) {
        Some(n) => if ident_named(a.ident, "min"@) {
            ConstraintsView { min_length: Some(n as u64), ..c }
        } else if ident_named(a.ident, "max"@) {
            ConstraintsView { max_length: Some(n as u64), ..c }
        } else if ident_named(a.ident, "equal"@) {
            ConstraintsView { min_length: Some(n as u64), max_length: Some(n as u64), ..c }
        } else {
            c
        },
        None => c,
    }
}

/// One `range(...)` argument: `min` or `max` with a numeric literal.
pub open spec fn range_step(c: ConstraintsView, a: NameValueArg) -> ConstraintsView {
    match spec_expr_to_numeric(a.value) {
        Some(n) => if ident_named(a.ident, "min"@) {
            ConstraintsView { minimum: Some(n), ..c }
        } else if ident_named(a.ident, "max"@) {
            ConstraintsView { maximum: Some(n), ..c }
        } else {
            c
        },
        None => c,
    }
}

/// One validator `contains(...)` argument: `pattern` with a string.
pub open spec fn contains_step(c: ConstraintsView, a: NameValueArg) -> ConstraintsView {
    match spec_expr_to_str(a.value) {
        Some(s) => if ident_named(a.ident, "pattern"@) {
            ConstraintsView { pattern: Some(spec_regex_escape(s)), ..c }
        } else {
            c
        },
        None => c,
    }
}

/// Which argument list is being read.
pub enum ArgKind {
    Length,
    Range,
    Contains,
}

/// One argument of a list of the given kind.
pub open spec fn arg_step(kind: ArgKind, c: ConstraintsView, a: NameValueArg) -> ConstraintsView {
    match kind {
        ArgKind::Length => length_step(c, a),
        ArgKind::Range => range_step(c, a),
        ArgKind::Contains => contains_step(c, a),
    }
}

/// The arguments of a list, read in order.
pub open spec fn args_fold(kind: ArgKind, c: ConstraintsView, args: Seq<NameValueArg>) -> ConstraintsView
    decreases args.len(),
{
    if args.len() == 0 {
        c
    } else {
        arg_step(kind, args_fold(kind, c, args.drop_last()), args.last())
    }
}

/// A list's arguments, or nothing when its tokens do not parse.
pub open spec fn list_fold(kind: ArgKind, c: ConstraintsView, args: ListArgs) -> ConstraintsView {
    match args.name_values {
        Some(v) => args_fold(kind, c, v@),
        None => c,
    }
}

fn read_args(kind: ArgKind, args: &ListArgs, c: &mut SchemaConstraints)
    ensures
        final(c)@ == list_fold(kind, old(c)@, *args),
{
    let items = match &args.name_values {
        Some(v) => v,
        None => return ,
    };
    let mut i: usize = 0;
    while i < items.len()
        invariant
            args.name_values == Some(*items),
            i <= items.len(),
            c@ == args_fold(kind, old(c)@, items@.take(i as int)),
        decreases items.len() - i,
    {
        let a = &items[i];
        assert(items@.take(i + 1).drop_last() =~= items@.take(i as int));
        match kind {
            ArgKind::Length => {
                if let Some(n) = expr_to_u64(&a.value) {
                    if ident_is(&a.ident, "min") {
                        c.min_length = Some(n);
                    } else if ident_is(&a.ident, "max") {
                        c.max_length = Some(n);
                    } else if ident_is(&a.ident, "equal") {
                        c.min_length = Some(n);
                        c.max_length = Some(n);
                    }
                }
            },
            ArgKind::Range => {
                if let Some(n) = expr_to_numeric(&a.value) {
                    if ident_is(&a.ident, "min") {
                        c.minimum = Some(n);
                    } else if ident_is(&a.ident, "max") {
                        c.maximum = Some(n);
                    }
                }
            },
            ArgKind::Contains => {
                if ident_is(&a.ident, "pattern") {
                    if let Some(s) = expr_to_str(&a.value) {
                        c.pattern = Some(regex_escape(s.as_str()));
                    }
                }
            },
        }
        proof {
            reveal_strlit("min");
            reveal_strlit("max");
            reveal_strlit("equal");
            reveal_strlit("pattern");
        }
        assert(c@ == arg_step(kind, args_fold(kind, old(c)@, items@.take(i as int)), items@[i as int]));
        i = i + 1;
    }
    assert(items@.take(items.len() as int) =~= items@);
}

/// Reads `length(min = .., max = .., equal = ..)` arguments into `c`.
pub fn parse_length_params(args: &ListArgs, c: &mut SchemaConstraints)
    ensures
        final(c)@ == list_fold(ArgKind::Length, old(c)@, *args),
{
    read_args(ArgKind::Length, args, c);
}

/// Reads `range(min = .., max = ..)` arguments into `c`.
pub fn parse_range_params(args: &ListArgs, c: &mut SchemaConstraints)
    ensures
        final(c)@ == list_fold(ArgKind::Range, old(c)@, *args),
{
    read_args(ArgKind::Range, args, c);
}


/// Which attribute family is being read.
#[derive(Clone, Copy, Debug, PartialEq, Eq, Structural)]
pub enum Flavor {
    /// `#[garde(...)]`
    Garde,
    /// `#[validate(...)]`
    Validator,
}

/// The attribute name of a family.
pub open spec fn flavor_attr(f: Flavor) -> Seq<char> {
    match f {
        Flavor::Garde => "garde"@,
        Flavor::Validator => "validate"@,
    }
}

/// A single-string list item (`pattern("..")` and the like) applied to `c`.
pub open spec fn with_pattern(c: ConstraintsView, s: Option<String>, f: spec_fn(Seq<char>) -> Seq<char>) -> ConstraintsView {
    match s {
        Some(v) => ConstraintsView { pattern: Some(f(v@)), ..c },
        None => c,
    }
}

/// One garde item.
pub open spec fn garde_meta_step(c: ConstraintsView, m: MetaModel, with_required: bool) -> ConstraintsView {
    match m {
        MetaModel::Path { ident } => if with_required && ident_named(ident, "required"@) {
            ConstraintsView { required: true, ..c }
        } else if ident_named(ident, "email"@) {
            ConstraintsView { format: Some("email"@), ..c }
        } else if ident_named(ident, "url"@) {
            ConstraintsView { format: Some("uri"@), ..c }
        } else if ident_named(ident, "ip"@) {
            ConstraintsView { format: Some("ip"@), ..c }
        } else if ident_named(ident, "alphanumeric"@) {
            ConstraintsView { pattern: Some("^[a-zA-Z0-9]*$"@), ..c }
        } else {
            c
        },
        MetaModel::List { ident, args } => if ident_named(ident, "length"@) || ident_named(
            ident,
            "byte_length"@,
        ) {
            list_fold(ArgKind::Length, c, args)
        } else if ident_named(ident, "range"@) {
            list_fold(ArgKind::Range, c, args)
        } else if ident_named(ident, "pattern"@) {
            with_pattern(c, args.single_str, |v: Seq<char>| v)
        } else if ident_named(ident, "contains"@) {
            with_pattern(c, args.single_str, |v: Seq<char>| spec_regex_escape(v))
        } else if ident_named(ident, "prefix"@) {
            with_pattern(c, args.single_str, |v: Seq<char>| seq!['^'] + spec_regex_escape(v))
        } else if ident_named(ident, "suffix"@) {
            with_pattern(c, args.single_str, |v: Seq<char>| spec_regex_escape(v).push('$'))
        } else {
            c
        },
        MetaModel::NameValue { .. } => c,
    }
}

/// One validator item.
pub open spec fn validator_meta_step(c: ConstraintsView, m: MetaModel, with_required: bool) -> ConstraintsView {
    match m {
        MetaModel::Path { ident } => if with_required && ident_named(ident, "required"@) {
            ConstraintsView { required: true, ..c }
        } else if ident_named(ident, "email"@) {
            ConstraintsView { format: Some("email"@), ..c }
        } else if ident_named(ident, "url"@) {
            ConstraintsView { format: Some("uri"@), ..c }
        } else {
            c
        },
        MetaModel::List { ident, args } => if ident_named(ident, "length"@) {
            list_fold(ArgKind::Length, c, args)
        } else if ident_named(ident, "range"@) {
            list_fold(ArgKind::Range, c, args)
        } else if ident_named(ident, "contains"@) {
            list_fold(ArgKind::Contains, c, args)
        } else if ident_named(ident, "email"@) {
            ConstraintsView { format: Some("email"@), ..c }
        } else if ident_named(ident, "url"@) {
            ConstraintsView { format: Some("uri"@), ..c }
        } else {
            c
        },
        MetaModel::NameValue { ident, value } => if ident_named(ident, "contains"@) {
            match spec_expr_to_str(value) {
                Some(s) => ConstraintsView { pattern: Some(spec_regex_escape(s)), ..c },
                None => c,
            }
        } else {
            c
        },
    }
}

/// One item of the given family.
pub open spec fn meta_step(f: Flavor, c: ConstraintsView, m: MetaModel, with_required: bool) -> ConstraintsView {
    match f {
        Flavor::Garde => garde_meta_step(c, m, with_required),
        Flavor::Validator => validator_meta_step(c, m, with_required),
    }
}

/// The items of one attribute, read in order.
pub open spec fn metas_fold(f: Flavor, c: ConstraintsView, ms: Seq<MetaModel>, with_required: bool) -> ConstraintsView
    decreases ms.len(),
{
    if ms.len() == 0 {
        c
    } else {
        meta_step(f, metas_fold(f, c, ms.drop_last(), with_required), ms.last(), with_required)
    }
}

/// The attributes of a field, read in order; only attributes of the family
/// whose arguments parse contribute.
pub open spec fn attrs_fold(f: Flavor, c: ConstraintsView, attrs: Seq<AttrModel>, with_required: bool) -> ConstraintsView
    decreases attrs.len(),
{
    if attrs.len() == 0 {
        c
    } else {
        let before = attrs_fold(f, c, attrs.drop_last(), with_required);
        let a = attrs.last();
        if ident_named(a.ident, flavor_attr(f)) && a.args is Some {
            metas_fold(f, before, a.args.unwrap()@, with_required)
        } else {
            before
        }
    }
}

/// The constraints a field's attributes of one family declare.
pub open spec fn spec_constraints(f: Flavor, attrs: Seq<AttrModel>, with_required: bool) -> ConstraintsView {
    attrs_fold(f, no_constraints(), attrs, with_required)
}

fn set_pattern_from(c: &mut SchemaConstraints, s: &Option<String>, how: u8)
    requires
        how < 4,
    ensures
        final(c)@ == with_pattern(
            old(c)@,
            *s,
            if how == 0 {
                |v: Seq<char>| v
            } else if how == 1 {
                |v: Seq<char>| spec_regex_escape(v)
            } else if how == 2 {
                |v: Seq<char>| seq!['^'] + spec_regex_escape(v)
            } else {
                |v: Seq<char>| spec_regex_escape(v).push('$')
            },
        ),
{
    if let Some(v) = s {
        let p = if how == 0 {
            v.clone()
        } else if how == 1 {
            regex_escape(v.as_str())
        } else if how == 2 {
            let mut p = String::new();
            push_char(&mut p, '^');
            let e = regex_escape(v.as_str());
            p.append(e.as_str());
            assert(p@ =~= seq!['^'] + spec_regex_escape(v@));
            p
        } else {
            let mut p = regex_escape(v.as_str());
            push_char(&mut p, '$');
            p
        };
        c.pattern = Some(p);
    }
}

fn read_garde_meta(m: &MetaModel, with_required: bool, c: &mut SchemaConstraints)
    ensures
        final(c)@ == garde_meta_step(old(c)@, *m, with_required),
{
    proof {
        reveal_strlit("required");
        reveal_strlit("email");
        reveal_strlit("url");
        reveal_strlit("ip");
        reveal_strlit("alphanumeric");
        reveal_strlit("length");
        reveal_strlit("byte_length");
        reveal_strlit("range");
        reveal_strlit("pattern");
        reveal_strlit("contains");
        reveal_strlit("prefix");
        reveal_strlit("suffix");
    }
    match m {
        MetaModel::Path { ident } => {
            if with_required && ident_is(ident, "required") {
                c.required = true;
            } else if ident_is(ident, "email") {
                c.format = Some(owned("email"));
            } else if ident_is(ident, "url") {
                c.format = Some(owned("uri"));
            } else if ident_is(ident, "ip") {
                c.format = Some(owned("ip"));
            } else if ident_is(ident, "alphanumeric") {
                c.pattern = Some(owned("^[a-zA-Z0-9]*$"));
            }
        },
        MetaModel::List { ident, args } => {
            if ident_is(ident, "length") || ident_is(ident, "byte_length") {
                parse_length_params(args, c);
            } else if ident_is(ident, "range") {
                parse_range_params(args, c);
            } else if ident_is(ident, "pattern") {
                set_pattern_from(c, &args.single_str, 0);
            } else if ident_is(ident, "contains") {
                set_pattern_from(c, &args.single_str, 1);
            } else if ident_is(ident, "prefix") {
                set_pattern_from(c, &args.single_str, 2);
            } else if ident_is(ident, "suffix") {
                set_pattern_from(c, &args.single_str, 3);
            }
        },
        MetaModel::NameValue { .. } => {},
    }
}

fn read_validator_meta(m: &MetaModel, with_required: bool, c: &mut SchemaConstraints)
    ensures
        final(c)@ == validator_meta_step(old(c)@, *m, with_required),
{
    proof {
        reveal_strlit("required");
        reveal_strlit("email");
        reveal_strlit("url");
        reveal_strlit("length");
        reveal_strlit("range");
        reveal_strlit("contains");
    }
    match m {
        MetaModel::Path { ident } => {
            if with_required && ident_is(ident, "required") {
                c.required = true;
            } else if ident_is(ident, "email") {
                c.format = Some(owned("email"));
            } else if ident_is(ident, "url") {
                c.format = Some(owned("uri"));
            }
        },
        MetaModel::List { ident, args } => {
            if ident_is(ident, "length") {
                parse_length_params(args, c);
            } else if ident_is(ident, "range") {
                parse_range_params(args, c);
            } else if ident_is(ident, "contains") {
                read_args(ArgKind::Contains, args, c);
            } else if ident_is(ident, "email") {
                c.format = Some(owned("email"));
            } else if ident_is(ident, "url") {
                c.format = Some(owned("uri"));
            }
        },
        MetaModel::NameValue { ident, value } => {
            if ident_is(ident, "contains") {
                if let Some(s) = expr_to_str(value) {
                    c.pattern = Some(regex_escape(s.as_str()));
                }
            }
        },
    }
}

/// Reads the constraints that a field's `#[garde(..)]` (`Flavor::Garde`) or
/// `#[validate(..)]` (`Flavor::Validator`) attributes declare. The bare item
/// `required` marks the field required only when `with_required` is set.
pub fn read_constraints(flavor: Flavor, attrs: &Vec<AttrModel>, with_required: bool) -> (c: SchemaConstraints)
    ensures
        c@ == spec_constraints(flavor, attrs@, with_required),
{
    let mut c = SchemaConstraints::new();
    let mut i: usize = 0;
    while i < attrs.len()
        invariant
            i <= attrs.len(),
            c@ == attrs_fold(flavor, no_constraints(), attrs@.take(i as int), with_required),
        decreases attrs.len() - i,
    {
        let a = &attrs[i];
        assert(attrs@.take(i + 1).drop_last() =~= attrs@.take(i as int));
        let family = match flavor {
            Flavor::Garde => "garde",
            Flavor::Validator => "validate",
        };
        proof {
            reveal_strlit("garde");
            reveal_strlit("validate");
        }
        if ident_is(&a.ident, family) {
            if let Some(ms) = &a.args {
                let ghost start = c@;
                let mut j: usize = 0;
                while j < ms.len()
                    invariant
                        j <= ms.len(),
                        c@ == metas_fold(flavor, start, ms@.take(j as int), with_required),
                    decreases ms.len() - j,
                {
                    assert(ms@.take(j + 1).drop_last() =~= ms@.take(j as int));
                    match flavor {
                        Flavor::Garde => read_garde_meta(&ms[j], with_required, &mut c),
                        Flavor::Validator => read_validator_meta(&ms[j], with_required, &mut c),
                    }
                    j = j + 1;
                }
                assert(ms@.take(ms.len() as int) =~= ms@);
            }
        }
        i = i + 1;
    }
    assert(attrs@.take(attrs.len() as int) =~= attrs@);
    c
}

/// Whether `m` is the list item `name(min = a, max = b)`: exactly the two
/// arguments `min` and `max`, in that order.
pub open spec fn is_min_max_item(m: MetaModel, name: Seq<char>, a: ExprModel, b: ExprModel) -> bool {
    &&& m matches MetaModel::List { ident, args } && ident_named(ident, name)
    &&& m->args.name_values matches Some(v) && v@.len() == 2
    &&& ident_named(m->args.name_values->0@[0].ident, "min"@)
    &&& m->args.name_values->0@[0].value == a
    &&& ident_named(m->args.name_values->0@[1].ident, "max"@)
    &&& m->args.name_values->0@[1].value == b
}

proof fn lemma_two_args(kind: ArgKind, c: ConstraintsView, v: Seq<NameValueArg>)
    requires
        v.len() == 2,
    ensures
        args_fold(kind, c, v) == arg_step(kind, arg_step(kind, c, v[0]), v[1]),
{
    let v1 = v.drop_last();
    assert(v1.drop_last() =~= Seq::<NameValueArg>::empty());
    assert(args_fold(kind, c, v1.drop_last()) == c);
    assert(v1.last() == v[0]);
    assert(args_fold(kind, c, v1) == arg_step(kind, c, v[0]));
    assert(v.last() == v[1]);
}

proof fn lemma_single_attr(f: Flavor, attr: AttrModel, m: MetaModel, with_required: bool)
    requires
        ident_named(attr.ident, flavor_attr(f)),
        attr.args is Some,
        attr.args->0@ == seq![m],
    ensures
        spec_constraints(f, seq![attr], with_required) == meta_step(f, no_constraints(), m, with_required),
{
    let attrs = seq![attr];
    assert(attrs.drop_last() =~= Seq::<AttrModel>::empty());
    assert(attrs.last() == attr);
    let ms = attr.args->0@;
    assert(ms.drop_last() =~= Seq::<MetaModel>::empty());
    assert(metas_fold(f, no_constraints(), ms.drop_last(), with_required) == no_constraints());
    assert(ms.last() == m);
    assert(metas_fold(f, no_constraints(), ms, with_required) == meta_step(f, no_constraints(), m, with_required));
    assert(attrs_fold(f, no_constraints(), attrs.drop_last(), with_required) == no_constraints());
    assert(attrs_fold(f, no_constraints(), attrs, with_required) == metas_fold(
        f,
        no_constraints(),
        attrs.last().args.unwrap()@,
        with_required,
    ));
}

proof fn lemma_garde_range_step(
    c: ConstraintsView,
    m: MetaModel,
    a: ExprModel,
    b: ExprModel,
    na: NumericView,
    nb: NumericView,
    with_required: bool,
)
    requires
        is_min_max_item(m, "range"@, a, b),
        spec_expr_to_numeric(a) == Some(na),
        spec_expr_to_numeric(b) == Some(nb),
    ensures
        garde_meta_step(c, m, with_required) == (ConstraintsView {
            minimum: Some(na),
            maximum: Some(nb),
            ..c
        }),
{
    reveal_strlit("range");
    reveal_strlit("length");
    reveal_strlit("byte_length");
    reveal_strlit("min");
    reveal_strlit("max");
    let v = m->args.name_values->0@;
    assert("range"@.len() != "length"@.len());
    assert("range"@.len() != "byte_length"@.len());
    assert("max"@[1] != "min"@[1]);
    assert(!ident_named(m->List_ident, "length"@) && !ident_named(m->List_ident, "byte_length"@));
    assert(!ident_named(v[1].ident, "min"@));
    lemma_two_args(ArgKind::Range, c, v);
}

proof fn lemma_validator_length_step(
    c: ConstraintsView,
    m: MetaModel,
    a: ExprModel,
    b: ExprModel,
    na: int,
    nb: int,
    with_required: bool,
)
    requires
        is_min_max_item(m, "length"@, a, b),
        spec_expr_to_u64(a) == Some(na),
        spec_expr_to_u64(b) == Some(nb),
    ensures
        validator_meta_step(c, m, with_required) == (ConstraintsView {
            min_length: Some(na as u64),
            max_length: Some(nb as u64),
            ..c
        }),
{
    reveal_strlit("length");
    reveal_strlit("min");
    reveal_strlit("max");
    let v = m->args.name_values->0@;
    assert("max"@[1] != "min"@[1]);
    assert(!ident_named(v[1].ident, "min"@));
    lemma_two_args(ArgKind::Length, c, v);
}

/// A garde `range(min = a, max = b)` item with numeric literals sets the
/// minimum to `a` and the maximum to `b` and leaves every other constraint
/// as it was; a garde attribute holding only that item gives a schema with
/// exactly those bounds.
pub proof fn garde_range_law(
    c: ConstraintsView,
    m: MetaModel,
    a: ExprModel,
    b: ExprModel,
    na: NumericView,
    nb: NumericView,
    with_required: bool,
    attr: AttrModel,
)
    requires
        is_min_max_item(m, "range"@, a, b),
        spec_expr_to_numeric(a) == Some(na),
        spec_expr_to_numeric(b) == Some(nb),
    ensures
        garde_meta_step(c, m, with_required) == (ConstraintsView {
            minimum: Some(na),
            maximum: Some(nb),
            ..c
        }),
        (ident_named(attr.ident, "garde"@) && attr.args is Some && attr.args->0@ == seq![m])
            ==> spec_constraints(Flavor::Garde, seq![attr], with_required) == (ConstraintsView {
            minimum: Some(na),
            maximum: Some(nb),
            ..no_constraints()
        }),
{
    lemma_garde_range_step(c, m, a, b, na, nb, with_required);
    lemma_garde_range_step(no_constraints(), m, a, b, na, nb, with_required);
    if ident_named(attr.ident, "garde"@) && attr.args is Some && attr.args->0@ == seq![m] {
        lemma_single_attr(Flavor::Garde, attr, m, with_required);
    }
}

/// A validator `length(min = a, max = b)` item with integer literals sets
/// the minimum length to `a` and the maximum length to `b` and leaves every
/// other constraint, the numeric bounds among them, as it was; a validator
/// attribute holding only that item gives a schema with exactly those
/// length bounds.
pub proof fn validator_length_law(
    c: ConstraintsView,
    m: MetaModel,
    a: ExprModel,
    b: ExprModel,
    na: int,
    nb: int,
    with_required: bool,
    attr: AttrModel,
)
    requires
        is_min_max_item(m, "length"@, a, b),
        spec_expr_to_u64(a) == Some(na),
        spec_expr_to_u64(b) == Some(nb),
    ensures
        validator_meta_step(c, m, with_required) == (ConstraintsView {
            min_length: Some(na as u64),
            max_length: Some(nb as u64),
            ..c
        }),
        (ident_named(attr.ident, "validate"@) && attr.args is Some && attr.args->0@ == seq![m])
            ==> spec_constraints(Flavor::Validator, seq![attr], with_required) == (ConstraintsView {
            min_length: Some(na as u64),
            max_length: Some(nb as u64),
            ..no_constraints()
        }),
{
    lemma_validator_length_step(c, m, a, b, na, nb, with_required);
    lemma_validator_length_step(no_constraints(), m, a, b, na, nb, with_required);
    if ident_named(attr.ident, "validate"@) && attr.args is Some && attr.args->0@ == seq![m] {
        lemma_single_attr(Flavor::Validator, attr, m, with_required);
    }
}

} // verus!
