//! The type checker's diagnostics, as decoded from its answers.
use vstd::prelude::*;
use crate::expr::{Expr, ExprM, boxes_view};
use crate::range::Range;

verus! {

/// One hypothesis of a unification context: a name, its type, and the
/// values it was unified with.
pub type CtxEntry = (String, Box<Expr>, Vec<Box<Expr>>);

/// The unification context attached to a diagnostic.
#[derive(Debug)]
pub struct Context(pub Vec<CtxEntry>);

#[derive(Debug)]
pub enum TypeDiagnostic {
    /// A pattern that no rule covers, with its arguments.
    UncoveredPattern(Context, Range, Vec<Box<Expr>>),
    UnboundVariable(Context, Range),
    CantInferHole(Context, Range),
    CantInferLambda(Context, Range),
    InvalidCall(Context, Range),
    /// A case that cannot happen: the two expressions compared.
    ImpossibleCase(Context, Range, Box<Expr>, Box<Expr>),
    /// The answer to an inspection marker.
    Inspection(Context, Range, Box<Expr>),
    TooManyArguments(Context, Range),
    /// The expected and the inferred type.
    TypeMismatch(Context, Range, Box<Expr>, Box<Expr>),
}

pub type CtxEntryM = (Seq<char>, ExprM, Seq<ExprM>);

pub enum TypeDiagnosticM {
    UncoveredPattern(Seq<CtxEntryM>, Range, Seq<ExprM>),
    UnboundVariable(Seq<CtxEntryM>, Range),
    CantInferHole(Seq<CtxEntryM>, Range),
    CantInferLambda(Seq<CtxEntryM>, Range),
    InvalidCall(Seq<CtxEntryM>, Range),
    ImpossibleCase(Seq<CtxEntryM>, Range, ExprM, ExprM),
    Inspection(Seq<CtxEntryM>, Range, ExprM),
    TooManyArguments(Seq<CtxEntryM>, Range),
    TypeMismatch(Seq<CtxEntryM>, Range, ExprM, ExprM),
}

pub open spec fn entry_view(e: CtxEntry) -> CtxEntryM {
    (e.0@, e.1@, boxes_view(e.2@))
}

impl Context {
    pub open spec fn view(&self) -> Seq<CtxEntryM> {
        self.0@.map_values(|e: CtxEntry| entry_view(e))
    }
}

impl TypeDiagnostic {
    pub open spec fn view(&self) -> TypeDiagnosticM {
        match self {
            TypeDiagnostic::UncoveredPattern(c, r, xs) => TypeDiagnosticM::UncoveredPattern(
                c@,
                *r,
                boxes_view(xs@),
            ),
            TypeDiagnostic::UnboundVariable(c, r) => TypeDiagnosticM::UnboundVariable(c@, *r),
            TypeDiagnostic::CantInferHole(c, r) => TypeDiagnosticM::CantInferHole(c@, *r),
            TypeDiagnostic::CantInferLambda(c, r) => TypeDiagnosticM::CantInferLambda(c@, *r),
            TypeDiagnostic::InvalidCall(c, r) => TypeDiagnosticM::InvalidCall(c@, *r),
            TypeDiagnostic::ImpossibleCase(c, r, a, b) => TypeDiagnosticM::ImpossibleCase(
                c@,
                *r,
                a@,
                b@,
            ),
            TypeDiagnostic::Inspection(c, r, a) => TypeDiagnosticM::Inspection(c@, *r, a@),
            TypeDiagnostic::TooManyArguments(c, r) => TypeDiagnosticM::TooManyArguments(c@, *r),
            TypeDiagnostic::TypeMismatch(c, r, a, b) => TypeDiagnosticM::TypeMismatch(
                c@,
                *r,
                a@,
                b@,
            ),
        }
    }
}

} // verus!
