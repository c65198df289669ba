//! Reading numbers and strings out of attribute literals.

use vstd::prelude::*;
use crate::meta::{ExprModel, LitModel};
use crate::text::is_ascii_digit;

verus! {

/// The value of one decimal digit.
pub open spec fn digit_value(c: char) -> int {
    c as int - '0' as int
}

/// Whether every character of `s` is a decimal digit.
pub open spec fn all_digits(s: Seq<char>) -> bool {
    forall|i: int| 0 <= i < s.len() ==> is_ascii_digit(#[trigger] s[i])
}

/// The number that a string of decimal digits spells.
pub open spec fn digits_value(s: Seq<char>) -> int
    decreases s.len(),
{
    if s.len() == 0 {
        0
    } else {
        digits_value(s.drop_last()) * 10 + digit_value(s.last())
    }
}

/// The value of a non-empty digit string when it is at most `bound`.
pub open spec fn spec_parse_digits(s: Seq<char>, bound: int) -> Option<int> {
    if s.len() > 0 && all_digits(s) && digits_value(s) <= bound {
        Some(digits_value(s))
    } else {
        None
    }
}

proof fn lemma_digits_value_prefix(s: Seq<char>, k: int)
    requires
        all_digits(s),
        0 <= k <= s.len(),
    ensures
        0 <= digits_value(s.take(k)) <= digits_value(s),
    decreases s.len(),
{
    if s.len() == 0 {
        assert(s.take(k) =~= s);
    } else if k == s.len() {
        assert(s.take(k) =~= s);
        lemma_digits_value_prefix(s.drop_last(), 0);
    } else {
        lemma_digits_value_prefix(s.drop_last(), k);
        assert(s.drop_last().take(k) =~= s.take(k));
        assert(all_digits(s.drop_last()));
        assert(is_ascii_digit(s[s.len() - 1]));
        lemma_digits_value_prefix(s.drop_last(), s.len() - 1);
        assert(s.drop_last().take(s.len() - 1) =~= s.drop_last());
    }
}

/// Reads a string of decimal digits, failing when it is empty, holds
/// anything but digits, or exceeds `bound`.
pub fn parse_digits(digits: &str, bound: u64) -> (r: Option<u64>)
    ensures
        r matches Some(v) ==> spec_parse_digits(digits@, bound as int) == Some(v as int),
        r is None ==> spec_parse_digits(digits@, bound as int) is None,
{
    let n = digits.unicode_len();
    if n == 0 {
        return None;
    }
    let mut i: usize = 0;
    while i < n
        invariant
            n == digits@.len(),
            i <= n,
            forall|j: int| 0 <= j < i ==> is_ascii_digit(#[trigger] digits@[j]),
        decreases n - i,
    {
        let c = digits.get_char(i);
        if !('0' <= c && c <= '9') {
            return None;
        }
        i = i + 1;
    }
    assert(all_digits(digits@));
    let mut acc: u128 = 0;
    let mut i: usize = 0;
    while i < n
        invariant
            n == digits@.len(),
            i <= n,
            all_digits(digits@),
            acc as int == digits_value(digits@.take(i as int)),
            acc <= bound,
        decreases n - i,
    {
        let c = digits.get_char(i);
        assert(is_ascii_digit(digits@[i as int]));
        let d: u128 = (c as u32 - '0' as u32) as u128;
        assert(digits@.take(i + 1).drop_last() =~= digits@.take(i as int));
        let next: u128 = acc * 10 + d;
        assert(next as int == digits_value(digits@.take(i + 1)));
        if next > bound as u128 {
            proof {
                lemma_digits_value_prefix(digits@, i + 1);
            }
            return None;
        }
        acc = next;
        i = i + 1;
    }
    assert(digits@.take(n as int) =~= digits@);
    Some(acc as u64)
}

/// A numeric literal bound read from an attribute.
pub enum NumericLit {
    Int(i64),
    /// A floating-point literal by its decimal text, and whether it is negated.
    Float { digits: String, negative: bool },
}

/// A numeric bound as a mathematical value.
pub enum NumericView {
    Int(int),
    Float { digits: Seq<char>, negative: bool },
}

impl View for NumericLit {
    type V = NumericView;

    open spec fn view(&self) -> NumericView {
        match self {
            NumericLit::Int(n) => NumericView::Int(*n as int),
            NumericLit::Float { digits, negative } => NumericView::Float {
                digits: digits@,
                negative: *negative,
            },
        }
    }
}

/// The unsigned integer that an expression is, when it is an integer literal
/// that fits in `u64`.
pub open spec fn spec_expr_to_u64(e: ExprModel) -> Option<int> {
    match e {
        ExprModel::Lit(LitModel::Int { digits }) => spec_parse_digits(digits@, u64::MAX as int),
        _ => None,
    }
}

/// The numeric literal an expression denotes: an integer literal that fits
/// in `i64`, a float literal, or a negation of either.
pub open spec fn spec_expr_to_numeric(e: ExprModel) -> Option<NumericView>
    decreases e,
{
    match e {
        ExprModel::Lit(LitModel::Int { digits }) => match spec_parse_digits(
            digits@,
            i64::MAX as int,
        ) {
            Some(v) => Some(NumericView::Int(v)),
            None => None,
        },
        ExprModel::Lit(LitModel::Float { digits }) => Some(
            NumericView::Float { digits: digits@, negative: false },
        ),
        ExprModel::Neg(inner) => match spec_expr_to_numeric(*inner) {
            Some(NumericView::Int(n)) => Some(NumericView::Int(-n)),
            Some(NumericView::Float { digits, negative }) => Some(
                NumericView::Float { digits, negative: !negative },
            ),
            None => None,
        },
        _ => None,
    }
}

/// The string an expression is, when it is a string literal.
pub open spec fn spec_expr_to_str(e: ExprModel) -> Option<Seq<char>> {
    match e {
        ExprModel::Lit(LitModel::Str(s)) => Some(s@),
        _ => None,
    }
}

/// Reads an unsigned integer literal.
pub fn expr_to_u64(expr: &ExprModel) -> (r: Option<u64>)
    ensures
        r matches Some(v) ==> spec_expr_to_u64(*expr) == Some(v as int),
        r is None ==> spec_expr_to_u64(*expr) is None,
{
    match expr {
        ExprModel::Lit(LitModel::Int { digits }) => parse_digits(digits.as_str(), u64::MAX),
        _ => None,
    }
}

proof fn lemma_numeric_int_range(e: ExprModel)
    ensures
        spec_expr_to_numeric(e) matches Some(NumericView::Int(n)) ==> -(i64::MAX as int) <= n
            <= i64::MAX,
    decreases e,
{
    match e {
        ExprModel::Neg(inner) => {
            lemma_numeric_int_range(*inner);
        },
        ExprModel::Lit(LitModel::Int { digits }) => {
            if all_digits(digits@) {
                lemma_digits_value_prefix(digits@, 0);
            }
        },
        _ => {},
    }
}

/// Reads a possibly negated numeric literal.
pub fn expr_to_numeric(expr: &ExprModel) -> (r: Option<NumericLit>)
    ensures
        r matches Some(n) ==> spec_expr_to_numeric(*expr) == Some(n@),
        r is None ==> spec_expr_to_numeric(*expr) is None,
    decreases expr,
{
    match expr {
        ExprModel::Lit(LitModel::Int { digits }) => {
            match parse_digits(digits.as_str(), i64::MAX as u64) {
                Some(v) => Some(NumericLit::Int(v as i64)),
                None => None,
            }
        },
        ExprModel::Lit(LitModel::Float { digits }) => Some(
            NumericLit::Float { digits: digits.clone(), negative: false },
        ),
        ExprModel::Neg(inner) => {
            proof {
                lemma_numeric_int_range(**inner);
            }
            match expr_to_numeric(&**inner) {
                Some(NumericLit::Int(n)) => Some(NumericLit::Int(-n)),
                Some(NumericLit::Float { digits, negative }) => Some(
                    NumericLit::Float { digits, negative: !negative },
                ),
                None => None,
            }
        },
        _ => None,
    }
}

/// Reads a string literal.
pub fn expr_to_str(expr: &ExprModel) -> (r: Option<String>)
    ensures
        r matches Some(s) ==> spec_expr_to_str(*expr) == Some(s@),
        r is None ==> spec_expr_to_str(*expr) is None,
{
    match expr {
        ExprModel::Lit(LitModel::Str(s)) => Some(s.clone()),
        _ => None,
    }
}

} // verus!
