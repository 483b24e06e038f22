//! Constant expressions: the values of enumeration constants and the
//! initializers of variables.

use vstd::prelude::*;
use crate::text::{decimal, push_decimal, push_signed_decimal, signed_decimal, str_equal};

verus! {

/// A constant expression.
#[derive(Debug, Clone, PartialEq, Eq)]
pub enum Expr {
    /// A signed integer value.
    Signed(i64),
    /// An unsigned integer value.
    Unsigned(u64),
    /// An expression kept as the text it was written as.
    Symbolic(String),
}

/// The mathematical value of an [`Expr`].
pub enum ExprView {
    Signed(int),
    Unsigned(nat),
    Symbolic(Seq<char>),
}

impl View for Expr {
    type V = ExprView;

    open spec fn view(&self) -> ExprView {
        match self {
            Expr::Signed(n) => ExprView::Signed(*n as int),
            Expr::Unsigned(n) => ExprView::Unsigned(*n as nat),
            Expr::Symbolic(s) => ExprView::Symbolic(s@),
        }
    }
}

impl DeepView for Expr {
    type V = ExprView;

    open spec fn deep_view(&self) -> ExprView {
        self.view()
    }
}

impl ExprView {
    /// The expression as generated source writes it: numbers in decimal,
    /// a symbolic expression verbatim.
    pub open spec fn text(self) -> Seq<char> {
        match self {
            ExprView::Signed(n) => signed_decimal(n),
            ExprView::Unsigned(n) => decimal(n),
            ExprView::Symbolic(s) => s,
        }
    }

    /// The raw value of a constant: the signed reading where the underlying
    /// type is signed, the unsigned reading otherwise.
    pub open spec fn from_val(value: (i64, u64), is_signed: bool) -> ExprView {
        if is_signed {
            ExprView::Signed(value.0 as int)
        } else {
            ExprView::Unsigned(value.1 as nat)
        }
    }
}

impl Expr {
    /// The raw value of a constant, read as the underlying type's
    /// signedness says.
    pub fn from_val(value: (i64, u64), is_signed: bool) -> (r: Expr)
        ensures
            r@ == ExprView::from_val(value, is_signed),
    {
        if is_signed {
            Expr::Signed(value.0)
        } else {
            Expr::Unsigned(value.1)
        }
    }

    /// An expression kept as written.
    pub fn symbolic(text: &str) -> (r: Expr)
        ensures
            r@ == ExprView::Symbolic(text@),
    {
        Expr::Symbolic(String::from_str(text))
    }

    /// Appends the expression's text to `out`.
    pub fn push_text(&self, out: &mut String)
        ensures
            final(out)@ == old(out)@ + self@.text(),
    {
        match self {
            Expr::Signed(n) => push_signed_decimal(out, *n),
            Expr::Unsigned(n) => push_decimal(out, *n),
            Expr::Symbolic(s) => out.append(s.as_str()),
        }
    }

    /// Whether the two expressions have the same value.
    pub fn same(&self, other: &Expr) -> (r: bool)
        ensures
            r == (self@ == other@),
    {
        match (self, other) {
            (Expr::Signed(a), Expr::Signed(b)) => *a == *b,
            (Expr::Unsigned(a), Expr::Unsigned(b)) => *a == *b,
            (Expr::Symbolic(a), Expr::Symbolic(b)) => str_equal(a.as_str(), b.as_str()),
            _ => false,
        }
    }
}

} // verus!
