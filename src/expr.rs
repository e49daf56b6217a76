//! The desugared expression tree that the encoder reads and the decoder
//! builds, with its mathematical model.
use vstd::prelude::*;
use crate::ident::{Ident, QualifiedIdent};
use crate::range::Range;

verus! {

/// The binary operators of the language.
#[derive(Clone, Copy, Debug, PartialEq, Eq, Structural)]
pub enum Operator {
    Add,
    Sub,
    Mul,
    Div,
    Mod,
    And,
    Or,
    Xor,
    Shl,
    Shr,
    Ltn,
    Lte,
    Eql,
    Gte,
    Gtn,
    Neq,
}

/// One argument of an application.
#[derive(Debug)]
pub struct AppBinding {
    pub data: Box<Expr>,
    pub erased: bool,
}

#[derive(Debug)]
pub enum ExprKind {
    /// The type of types.
    Typ,
    /// The type of 60-bit unsigned integers.
    NumTypeU60,
    /// The type of 60-bit floats.
    NumTypeF60,
    Var { name: Ident },
    /// Dependent function type.
    All { param: Ident, typ: Box<Expr>, body: Box<Expr>, erased: bool },
    Lambda { param: Ident, body: Box<Expr>, erased: bool },
    App { fun: Box<Expr>, args: Vec<AppBinding> },
    /// Constructor application.
    Ctr { name: QualifiedIdent, args: Vec<Box<Expr>> },
    /// Call of a top-level function.
    Fun { name: QualifiedIdent, args: Vec<Box<Expr>> },
    Let { name: Ident, val: Box<Expr>, next: Box<Expr> },
    /// Type annotation.
    Ann { expr: Box<Expr>, typ: Box<Expr> },
    /// Substitution marker.
    Sub { name: Ident, indx: u64, redx: u64, expr: Box<Expr> },
    NumU60 { numb: u64 },
    /// A float literal, held as its 60-bit word.
    NumF60 { numb: u64 },
    Binary { op: Operator, left: Box<Expr>, right: Box<Expr> },
    Hole { num: u64 },
    Str { val: String },
    /// Inspection marker.
    Hlp { name: Ident },
    /// The invalid expression, left by an earlier pass that failed.
    Invalid,
}

#[derive(Debug)]
pub struct Expr {
    pub data: ExprKind,
    pub range: Range,
}

pub struct IdentM {
    pub data: Seq<char>,
    pub range: Range,
}

pub struct AppBindingM {
    pub data: ExprM,
    pub erased: bool,
}

pub enum ExprKindM {
    Typ,
    NumTypeU60,
    NumTypeF60,
    Var { name: IdentM },
    All { param: IdentM, typ: Box<ExprM>, body: Box<ExprM>, erased: bool },
    Lambda { param: IdentM, body: Box<ExprM>, erased: bool },
    App { fun: Box<ExprM>, args: Seq<AppBindingM> },
    Ctr { name: IdentM, args: Seq<ExprM> },
    Fun { name: IdentM, args: Seq<ExprM> },
    Let { name: IdentM, val: Box<ExprM>, next: Box<ExprM> },
    Ann { expr: Box<ExprM>, typ: Box<ExprM> },
    Sub { name: IdentM, indx: u64, redx: u64, expr: Box<ExprM> },
    NumU60 { numb: u64 },
    NumF60 { numb: u64 },
    Binary { op: Operator, left: Box<ExprM>, right: Box<ExprM> },
    Hole { num: u64 },
    Str { val: Seq<char> },
    Hlp { name: IdentM },
    Invalid,
}

/// The mathematical value of an [`Expr`].
pub struct ExprM {
    pub data: ExprKindM,
    pub range: Range,
}

impl Ident {
    pub open spec fn view(&self) -> IdentM {
        IdentM { data: self.data@, range: self.range }
    }

    pub fn copy(&self) -> (r: Ident)
        ensures
            r@ == self@,
    {
        Ident { data: self.data.clone(), range: self.range }
    }
}

impl QualifiedIdent {
    pub open spec fn view(&self) -> IdentM {
        IdentM { data: self.name@, range: self.range }
    }

    pub fn copy(&self) -> (r: QualifiedIdent)
        ensures
            r@ == self@,
    {
        QualifiedIdent { name: self.name.clone(), range: self.range }
    }
}

pub open spec fn default_expr() -> ExprM {
    ExprM { data: ExprKindM::Invalid, range: crate::range::ghost_range_spec() }
}

pub open spec fn boxes_view(s: Seq<Box<Expr>>) -> Seq<ExprM> {
    s.map_values(|e: Box<Expr>| e@)
}

pub open spec fn bindings_view(s: Seq<AppBinding>) -> Seq<AppBindingM> {
    s.map_values(|b: AppBinding| AppBindingM { data: b.data@, erased: b.erased })
}

impl Expr {
    pub open spec fn view(&self) -> ExprM
        decreases self,
    {
        let data = match &self.data {
            ExprKind::Typ => ExprKindM::Typ,
            ExprKind::NumTypeU60 => ExprKindM::NumTypeU60,
            ExprKind::NumTypeF60 => ExprKindM::NumTypeF60,
            ExprKind::Var { name } => ExprKindM::Var { name: name@ },
            ExprKind::All { param, typ, body, erased } => ExprKindM::All {
                param: param@,
                typ: Box::new(typ.view()),
                body: Box::new(body.view()),
                erased: *erased,
            },
            ExprKind::Lambda { param, body, erased } => ExprKindM::Lambda {
                param: param@,
                body: Box::new(body.view()),
                erased: *erased,
            },
            ExprKind::App { fun, args } => ExprKindM::App {
                fun: Box::new(fun.view()),
                args: Seq::new(
                    args.len() as nat,
                    |i: int|
                        if 0 <= i < args.len() {
                            AppBindingM { data: args[i].data.view(), erased: args[i].erased }
                        } else {
                            AppBindingM { data: default_expr(), erased: false }
                        },
                ),
            },
            ExprKind::Ctr { name, args } => ExprKindM::Ctr {
                name: name@,
                args: Seq::new(
                    args.len() as nat,
                    |i: int|
                        if 0 <= i < args.len() {
                            args[i].view()
                        } else {
                            default_expr()
                        },
                ),
            },
            ExprKind::Fun { name, args } => ExprKindM::Fun {
                name: name@,
                args: Seq::new(
                    args.len() as nat,
                    |i: int|
                        if 0 <= i < args.len() {
                            args[i].view()
                        } else {
                            default_expr()
                        },
                ),
            },
            ExprKind::Let { name, val, next } => ExprKindM::Let {
                name: name@,
                val: Box::new(val.view()),
                next: Box::new(next.view()),
            },
            ExprKind::Ann { expr, typ } => ExprKindM::Ann {
                expr: Box::new(expr.view()),
                typ: Box::new(typ.view()),
            },
            ExprKind::Sub { name, indx, redx, expr } => ExprKindM::Sub {
                name: name@,
                indx: *indx,
                redx: *redx,
                expr: Box::new(expr.view()),
            },
            ExprKind::NumU60 { numb } => ExprKindM::NumU60 { numb: *numb },
            ExprKind::NumF60 { numb } => ExprKindM::NumF60 { numb: *numb },
            ExprKind::Binary { op, left, right } => ExprKindM::Binary {
                op: *op,
                left: Box::new(left.view()),
                right: Box::new(right.view()),
            },
            ExprKind::Hole { num } => ExprKindM::Hole { num: *num },
            ExprKind::Str { val } => ExprKindM::Str { val: val@ },
            ExprKind::Hlp { name } => ExprKindM::Hlp { name: name@ },
            ExprKind::Invalid => ExprKindM::Invalid,
        };
        ExprM { data, range: self.range }
    }
}

pub broadcast proof fn lemma_ctr_args_view(e: Expr)
    requires
        e.data is Ctr,
    ensures
        #[trigger] e@.data->Ctr_args == boxes_view(e.data->Ctr_args@),
{
    assert(e@.data->Ctr_args =~= boxes_view(e.data->Ctr_args@));
}

pub broadcast proof fn lemma_fun_args_view(e: Expr)
    requires
        e.data is Fun,
    ensures
        #[trigger] e@.data->Fun_args == boxes_view(e.data->Fun_args@),
{
    assert(e@.data->Fun_args =~= boxes_view(e.data->Fun_args@));
}

pub broadcast proof fn lemma_app_args_view(e: Expr)
    requires
        e.data is App,
    ensures
        #[trigger] e@.data->App_args == bindings_view(e.data->App_args@),
{
    assert(e@.data->App_args =~= bindings_view(e.data->App_args@));
}

/// An expression, and every expression inside it, is not the invalid one.
pub open spec fn no_err(e: ExprM) -> bool
    decreases e,
{
    match e.data {
        ExprKindM::Invalid => false,
        ExprKindM::All { typ, body, .. } => no_err(*typ) && no_err(*body),
        ExprKindM::Lambda { body, .. } => no_err(*body),
        ExprKindM::App { fun, args } => no_err(*fun) && forall|i: int|
            0 <= i < args.len() ==> no_err(#[trigger] args[i].data),
        ExprKindM::Ctr { args, .. } => forall|i: int| 0 <= i < args.len() ==> no_err(#[trigger] args[i]),
        ExprKindM::Fun { args, .. } => forall|i: int| 0 <= i < args.len() ==> no_err(#[trigger] args[i]),
        ExprKindM::Let { val, next, .. } => no_err(*val) && no_err(*next),
        ExprKindM::Ann { expr, typ } => no_err(*expr) && no_err(*typ),
        ExprKindM::Sub { expr, .. } => no_err(*expr),
        ExprKindM::Binary { left, right, .. } => no_err(*left) && no_err(*right),
        _ => true,
    }
}

} // verus!
