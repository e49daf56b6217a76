//! The constructor names of the wire format shared with the evaluator.
//!
//! Both encoding modes use one vocabulary, `Kind.Term.Quoted.*`, except for
//! the reduced tag set of evaluated mode (`Kind.Term.Eval.*`), which stands
//! for binary operators, lets, annotations and substitutions.
use vstd::prelude::*;
use crate::expr::Operator;
use crate::text::{decimal, joined, numbered};

verus! {

/// The node kinds of an encoded expression.
#[derive(Debug)]
pub enum TermTag {
    Var,
    All,
    Lambda,
    App,
    /// A function call with the given number of arguments.
    Fun(u64),
    /// A constructor application with the given number of arguments.
    Ctr(u64),
    Let,
    Ann,
    Sub,
    Typ,
    U60,
    F60,
    NumU60,
    NumF60,
    Binary,
    Hole,
    Hlp,
    /// The apply (executable) form of a function.
    HoasF(String),
    /// The query (symbolic) form of a function.
    HoasQ(String),
}

/// The reduced tag set of evaluated mode.
#[derive(Clone, Copy, Debug, PartialEq, Eq, Structural)]
pub enum EvalTag {
    Op,
    Let,
    Ann,
    Sub,
}

pub open spec fn tag_name(t: TermTag) -> Seq<char> {
    match t {
        TermTag::Var => "Kind.Term.Quoted.var"@,
        TermTag::All => "Kind.Term.Quoted.all"@,
        TermTag::Lambda => "Kind.Term.Quoted.lam"@,
        TermTag::App => "Kind.Term.Quoted.app"@,
        TermTag::Fun(n) => "Kind.Term.Quoted.fun"@ + decimal(n as nat),
        TermTag::Ctr(n) => "Kind.Term.Quoted.ctr"@ + decimal(n as nat),
        TermTag::Let => "Kind.Term.Quoted.let"@,
        TermTag::Ann => "Kind.Term.Quoted.ann"@,
        TermTag::Sub => "Kind.Term.Quoted.sub"@,
        TermTag::Typ => "Kind.Term.Quoted.typ"@,
        TermTag::U60 => "Kind.Term.Quoted.u60"@,
        TermTag::F60 => "Kind.Term.Quoted.f60"@,
        TermTag::NumU60 => "Kind.Term.Quoted.num"@,
        TermTag::NumF60 => "Kind.Term.Quoted.numf60"@,
        TermTag::Binary => "Kind.Term.Quoted.op2"@,
        TermTag::Hole => "Kind.Term.Quoted.hol"@,
        TermTag::Hlp => "Kind.Term.Quoted.hlp"@,
        TermTag::HoasF(name) => "F$"@ + name@,
        TermTag::HoasQ(name) => "Q$"@ + name@,
    }
}

pub open spec fn eval_tag_name(t: EvalTag) -> Seq<char> {
    match t {
        EvalTag::Op => "Kind.Term.Eval.op2"@,
        EvalTag::Let => "Kind.Term.Eval.let"@,
        EvalTag::Ann => "Kind.Term.Eval.ann"@,
        EvalTag::Sub => "Kind.Term.Eval.sub"@,
    }
}

/// The name under which a node kind is emitted in the given mode.
pub open spec fn mode_tag(quote: bool, t: TermTag) -> Seq<char> {
    if quote {
        tag_name(t)
    } else {
        match t {
            TermTag::Binary => eval_tag_name(EvalTag::Op),
            TermTag::Let => eval_tag_name(EvalTag::Let),
            TermTag::Ann => eval_tag_name(EvalTag::Ann),
            TermTag::Sub => eval_tag_name(EvalTag::Sub),
            other => tag_name(other),
        }
    }
}

pub open spec fn hoas_f(name: Seq<char>) -> Seq<char> {
    "F$"@ + name
}

pub open spec fn hoas_q(name: Seq<char>) -> Seq<char> {
    "Q$"@ + name
}

pub open spec fn operator_name(op: Operator) -> Seq<char> {
    match op {
        Operator::Add => "Kind.Operator.add"@,
        Operator::Sub => "Kind.Operator.sub"@,
        Operator::Mul => "Kind.Operator.mul"@,
        Operator::Div => "Kind.Operator.div"@,
        Operator::Mod => "Kind.Operator.mod"@,
        Operator::And => "Kind.Operator.and"@,
        Operator::Or => "Kind.Operator.or"@,
        Operator::Xor => "Kind.Operator.xor"@,
        Operator::Shl => "Kind.Operator.shl"@,
        Operator::Shr => "Kind.Operator.shr"@,
        Operator::Ltn => "Kind.Operator.ltn"@,
        Operator::Lte => "Kind.Operator.lte"@,
        Operator::Eql => "Kind.Operator.eql"@,
        Operator::Gte => "Kind.Operator.gte"@,
        Operator::Gtn => "Kind.Operator.gtn"@,
        Operator::Neq => "Kind.Operator.neq"@,
    }
}

impl TermTag {
    pub fn to_string(&self) -> (r: String)
        ensures
            r@ == tag_name(*self),
    {
        match self {
            TermTag::Var => String::from_str("Kind.Term.Quoted.var"),
            TermTag::All => String::from_str("Kind.Term.Quoted.all"),
            TermTag::Lambda => String::from_str("Kind.Term.Quoted.lam"),
            TermTag::App => String::from_str("Kind.Term.Quoted.app"),
            TermTag::Fun(n) => numbered("Kind.Term.Quoted.fun", *n),
            TermTag::Ctr(n) => numbered("Kind.Term.Quoted.ctr", *n),
            TermTag::Let => String::from_str("Kind.Term.Quoted.let"),
            TermTag::Ann => String::from_str("Kind.Term.Quoted.ann"),
            TermTag::Sub => String::from_str("Kind.Term.Quoted.sub"),
            TermTag::Typ => String::from_str("Kind.Term.Quoted.typ"),
            TermTag::U60 => String::from_str("Kind.Term.Quoted.u60"),
            TermTag::F60 => String::from_str("Kind.Term.Quoted.f60"),
            TermTag::NumU60 => String::from_str("Kind.Term.Quoted.num"),
            TermTag::NumF60 => String::from_str("Kind.Term.Quoted.numf60"),
            TermTag::Binary => String::from_str("Kind.Term.Quoted.op2"),
            TermTag::Hole => String::from_str("Kind.Term.Quoted.hol"),
            TermTag::Hlp => String::from_str("Kind.Term.Quoted.hlp"),
            TermTag::HoasF(name) => joined("F$", name.as_str()),
            TermTag::HoasQ(name) => joined("Q$", name.as_str()),
        }
    }
}

impl EvalTag {
    pub fn to_string(&self) -> (r: String)
        ensures
            r@ == eval_tag_name(*self),
    {
        match self {
            EvalTag::Op => String::from_str("Kind.Term.Eval.op2"),
            EvalTag::Let => String::from_str("Kind.Term.Eval.let"),
            EvalTag::Ann => String::from_str("Kind.Term.Eval.ann"),
            EvalTag::Sub => String::from_str("Kind.Term.Eval.sub"),
        }
    }
}

/// The name of a node kind in the given mode: evaluated mode swaps in the
/// reduced tag set for binary operators, lets, annotations and
/// substitutions.
pub fn eval_ctr(quote: bool, head: TermTag) -> (r: String)
    ensures
        r@ == mode_tag(quote, head),
{
    if quote {
        head.to_string()
    } else {
        match head {
            TermTag::Binary => EvalTag::Op.to_string(),
            TermTag::Let => EvalTag::Let.to_string(),
            TermTag::Ann => EvalTag::Ann.to_string(),
            TermTag::Sub => EvalTag::Sub.to_string(),
            other => other.to_string(),
        }
    }
}

pub fn operator_to_constructor(op: Operator) -> (r: String)
    ensures
        r@ == operator_name(op),
{
    match op {
        Operator::Add => String::from_str("Kind.Operator.add"),
        Operator::Sub => String::from_str("Kind.Operator.sub"),
        Operator::Mul => String::from_str("Kind.Operator.mul"),
        Operator::Div => String::from_str("Kind.Operator.div"),
        Operator::Mod => String::from_str("Kind.Operator.mod"),
        Operator::And => String::from_str("Kind.Operator.and"),
        Operator::Or => String::from_str("Kind.Operator.or"),
        Operator::Xor => String::from_str("Kind.Operator.xor"),
        Operator::Shl => String::from_str("Kind.Operator.shl"),
        Operator::Shr => String::from_str("Kind.Operator.shr"),
        Operator::Ltn => String::from_str("Kind.Operator.ltn"),
        Operator::Lte => String::from_str("Kind.Operator.lte"),
        Operator::Eql => String::from_str("Kind.Operator.eql"),
        Operator::Gte => String::from_str("Kind.Operator.gte"),
        Operator::Gtn => String::from_str("Kind.Operator.gtn"),
        Operator::Neq => String::from_str("Kind.Operator.neq"),
    }
}

} // verus!
