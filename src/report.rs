//! Decoding of the evaluator's answers: quoted terms back into
//! expressions, and lists of tagged diagnostics into typed diagnostics.
//!
//! Decoding reads the quoted vocabulary that the encoder writes, and also
//! the form of the evaluator's answers for constructors and calls, whose
//! arguments come as a `List.cons` / `List.nil` chain after the name and
//! the range. Binder names come back as freshly generated identifiers.
use vstd::prelude::*;
use crate::expr::{AppBinding, AppBindingM, Expr, ExprKind, ExprKindM, ExprM, IdentM, Operator, boxes_view};
use crate::ident::{Ident, QualifiedIdent, code_name};
use crate::range::{EncodedRange, Range, ghost_range_spec, unpack_range};
use crate::tags::{TermTag, operator_name, tag_name};
use crate::term::{Term, TermM, args_tag, lemma_ctr_view, views};
use crate::text::numbered;
use crate::diagnostic::{Context, CtxEntry, CtxEntryM, TypeDiagnostic, TypeDiagnosticM, entry_view};

verus! {

/// Why an answer could not be decoded.
#[derive(Debug)]
pub enum DecodeError {
    /// A constructor whose name is not in the vocabulary expected there.
    UnexpectedTag { tag: String },
    /// A known constructor with the wrong number of arguments.
    WrongArity { tag: String },
    /// Something other than a constructor where a constructor was expected.
    NotConstructor,
    /// Something other than a number where a number was expected.
    NotNumber,
}

pub enum DecodeErrorM {
    UnexpectedTag(Seq<char>),
    WrongArity(Seq<char>),
    NotConstructor,
    NotNumber,
}

impl DecodeError {
    pub open spec fn view(&self) -> DecodeErrorM {
        match self {
            DecodeError::UnexpectedTag { tag } => DecodeErrorM::UnexpectedTag(tag@),
            DecodeError::WrongArity { tag } => DecodeErrorM::WrongArity(tag@),
            DecodeError::NotConstructor => DecodeErrorM::NotConstructor,
            DecodeError::NotNumber => DecodeErrorM::NotNumber,
        }
    }
}

pub open spec fn orig_spec(t: TermM) -> Result<Range, DecodeErrorM> {
    match t {
        TermM::U60(n) => Ok(unpack_range(n)),
        _ => Err(DecodeErrorM::NotNumber),
    }
}

pub open spec fn num_spec(t: TermM) -> Result<u64, DecodeErrorM> {
    match t {
        TermM::U60(n) => Ok(n),
        _ => Err(DecodeErrorM::NotNumber),
    }
}

pub open spec fn f60_spec(t: TermM) -> Result<u64, DecodeErrorM> {
    match t {
        TermM::F60(n) => Ok(n),
        _ => Err(DecodeErrorM::NotNumber),
    }
}

/// A name: a name code, or the name of a constructor.
pub open spec fn name_spec(t: TermM) -> Result<Seq<char>, DecodeErrorM> {
    match t {
        TermM::U60(n) => Ok(code_name(n as nat)),
        TermM::Ctr(name, _) => Ok(name),
        _ => Err(DecodeErrorM::NotConstructor),
    }
}

/// A global name: a name code, or a constructor named by the global
/// followed by a dot.
pub open spec fn qualified_spec(t: TermM) -> Result<Seq<char>, DecodeErrorM> {
    match t {
        TermM::U60(n) => Ok(code_name(n as nat)),
        TermM::Ctr(name, _) => Ok(
            if name.len() > 0 {
                name.drop_last()
            } else {
                name
            },
        ),
        _ => Err(DecodeErrorM::NotConstructor),
    }
}

pub open spec fn op_of(name: Seq<char>) -> Result<Operator, DecodeErrorM> {
    if name == operator_name(Operator::Add) {
        Ok(Operator::Add)
    } else if name == operator_name(Operator::Sub) {
        Ok(Operator::Sub)
    } else if name == operator_name(Operator::Mul) {
        Ok(Operator::Mul)
    } else if name == operator_name(Operator::Div) {
        Ok(Operator::Div)
    } else if name == operator_name(Operator::Mod) {
        Ok(Operator::Mod)
    } else if name == operator_name(Operator::And) {
        Ok(Operator::And)
    } else if name == operator_name(Operator::Or) {
        Ok(Operator::Or)
    } else if name == operator_name(Operator::Xor) {
        Ok(Operator::Xor)
    } else if name == operator_name(Operator::Shl) {
        Ok(Operator::Shl)
    } else if name == operator_name(Operator::Shr) {
        Ok(Operator::Shr)
    } else if name == operator_name(Operator::Ltn) {
        Ok(Operator::Ltn)
    } else if name == operator_name(Operator::Lte) {
        Ok(Operator::Lte)
    } else if name == operator_name(Operator::Eql) {
        Ok(Operator::Eql)
    } else if name == operator_name(Operator::Gte) {
        Ok(Operator::Gte)
    } else if name == operator_name(Operator::Gtn) {
        Ok(Operator::Gtn)
    } else if name == operator_name(Operator::Neq) {
        Ok(Operator::Neq)
    } else {
        Err(DecodeErrorM::UnexpectedTag(name))
    }
}

pub open spec fn op_spec(t: TermM) -> Result<Operator, DecodeErrorM> {
    match t {
        TermM::Ctr(name, _) => op_of(name),
        _ => Err(DecodeErrorM::NotConstructor),
    }
}

/// An identifier made by the decoder.
pub open spec fn generated(name: Seq<char>) -> IdentM {
    IdentM { data: name, range: ghost_range_spec() }
}

pub open spec fn node(data: ExprKindM, range: Range) -> ExprM {
    ExprM { data, range }
}

/// Whether the arguments of a constructor or call hold a lifted spine:
/// its name and range, then one `args` constructor with all the arguments.
pub open spec fn is_lifted(args: Seq<TermM>) -> bool {
    &&& args.len() == 3
    &&& args[2] is Ctr
    &&& args[2]->Ctr_1.len() > 14
    &&& args[2]->Ctr_0 == args_tag(args[2]->Ctr_1.len())
}

/// The arguments of a constructor or call, past its name and range.
pub open spec fn spine_items(args: Seq<TermM>) -> Seq<TermM> {
    if is_lifted(args) {
        args[2]->Ctr_1
    } else {
        args.subrange(2, args.len() as int)
    }
}

/// Lifting a spine and reading its arguments back gives exactly the
/// arguments, in their order, for any number of them: the spine stays
/// within the evaluator's arity bound and keeps its name and range in
/// front. The one exception is a lone argument that is itself an `args`
/// constructor of more than fourteen terms, which reads as a lifted spine.
pub proof fn lemma_spine_round_trip(name: TermM, orig: TermM, xs: Seq<TermM>)
    requires
        !(xs.len() == 1 && is_lifted(seq![name, orig] + xs)),
    ensures
        crate::term::lift(seq![name, orig] + xs).len() <= 16,
        crate::term::lift(seq![name, orig] + xs)[0] == name,
        crate::term::lift(seq![name, orig] + xs)[1] == orig,
        spine_items(crate::term::lift(seq![name, orig] + xs)) == xs,
{
    let spine = seq![name, orig] + xs;
    let lifted = crate::term::lift(spine);
    if spine.len() > 16 {
        assert(spine.skip(2) =~= xs);
        assert(is_lifted(lifted));
    } else {
        assert(spine.subrange(2, spine.len() as int) =~= xs);
    }
}

/// The decoding of a quoted term.
#[verifier::opaque]
pub open spec fn dec(t: TermM) -> Result<ExprM, DecodeErrorM>
    decreases t,
{
    match t {
        TermM::Ctr(name, args) => {
            if name == tag_name(TermTag::All) || name == tag_name(TermTag::Let) {
                if args.len() != 4 {
                    Err(DecodeErrorM::WrongArity(name))
                } else {
                    match orig_spec(args[0]) {
                        Err(e) => Err(e),
                        Ok(o) => match name_spec(args[1]) {
                            Err(e) => Err(e),
                            Ok(p) => match dec(args[2]) {
                                Err(e) => Err(e),
                                Ok(a) => match (
                                    match args[3] {
                                        TermM::Lam(_, b) => dec(*b),
                                        _ => dec(args[3]),
                                    }
                                ) {
                                    Err(e) => Err(e),
                                    Ok(b) => Ok(
                                        if name == tag_name(TermTag::All) {
                                            node(
                                                ExprKindM::All {
                                                    param: generated(p),
                                                    typ: Box::new(a),
                                                    body: Box::new(b),
                                                    erased: false,
                                                },
                                                o,
                                            )
                                        } else {
                                            node(
                                                ExprKindM::Let {
                                                    name: generated(p),
                                                    val: Box::new(a),
                                                    next: Box::new(b),
                                                },
                                                o,
                                            )
                                        },
                                    ),
                                },
                            },
                        },
                    }
                }
            } else if name == tag_name(TermTag::Lambda) {
                if args.len() != 3 {
                    Err(DecodeErrorM::WrongArity(name))
                } else {
                    match orig_spec(args[0]) {
                        Err(e) => Err(e),
                        Ok(o) => match name_spec(args[1]) {
                            Err(e) => Err(e),
                            Ok(p) => match (
                                match args[2] {
                                    TermM::Lam(_, b) => dec(*b),
                                    _ => dec(args[2]),
                                }
                            ) {
                                Err(e) => Err(e),
                                Ok(b) => Ok(
                                    node(
                                        ExprKindM::Lambda {
                                            param: generated(p),
                                            body: Box::new(b),
                                            erased: false,
                                        },
                                        o,
                                    ),
                                ),
                            },
                        },
                    }
                }
            } else if name == tag_name(TermTag::Typ) || name == tag_name(TermTag::U60) || name
                == tag_name(TermTag::F60) || name == tag_name(TermTag::Hlp) {
                if args.len() != 1 {
                    Err(DecodeErrorM::WrongArity(name))
                } else {
                    match orig_spec(args[0]) {
                        Err(e) => Err(e),
                        Ok(o) => Ok(
                            node(
                                if name == tag_name(TermTag::Typ) {
                                    ExprKindM::Typ
                                } else if name == tag_name(TermTag::U60) {
                                    ExprKindM::NumTypeU60
                                } else if name == tag_name(TermTag::F60) {
                                    ExprKindM::NumTypeF60
                                } else {
                                    ExprKindM::Hlp { name: generated("?"@) }
                                },
                                o,
                            ),
                        ),
                    }
                }
            } else if name == tag_name(TermTag::NumU60) || name == tag_name(TermTag::Hole) {
                if args.len() != 2 {
                    Err(DecodeErrorM::WrongArity(name))
                } else {
                    match orig_spec(args[0]) {
                        Err(e) => Err(e),
                        Ok(o) => match num_spec(args[1]) {
                            Err(e) => Err(e),
                            Ok(n) => Ok(
                                node(
                                    if name == tag_name(TermTag::NumU60) {
                                        ExprKindM::NumU60 { numb: n }
                                    } else {
                                        ExprKindM::Hole { num: n }
                                    },
                                    o,
                                ),
                            ),
                        },
                    }
                }
            } else if name == tag_name(TermTag::NumF60) {
                if args.len() != 2 {
                    Err(DecodeErrorM::WrongArity(name))
                } else {
                    match orig_spec(args[0]) {
                        Err(e) => Err(e),
                        Ok(o) => match f60_spec(args[1]) {
                            Err(e) => Err(e),
                            Ok(n) => Ok(node(ExprKindM::NumF60 { numb: n }, o)),
                        },
                    }
                }
            } else if name == tag_name(TermTag::Var) {
                if args.len() != 3 {
                    Err(DecodeErrorM::WrongArity(name))
                } else {
                    match orig_spec(args[0]) {
                        Err(e) => Err(e),
                        Ok(o) => match name_spec(args[1]) {
                            Err(e) => Err(e),
                            Ok(p) => Ok(node(ExprKindM::Var { name: IdentM { data: p, range: o } }, o)),
                        },
                    }
                }
            } else if name == "Kind.Term.set_origin"@ {
                if args.len() != 2 {
                    Err(DecodeErrorM::WrongArity(name))
                } else {
                    match orig_spec(args[0]) {
                        Err(e) => Err(e),
                        Ok(o) => match args[1] {
                            TermM::Var(p) => Ok(
                                node(ExprKindM::Var { name: IdentM { data: p, range: o } }, o),
                            ),
                            _ => Err(DecodeErrorM::NotConstructor),
                        },
                    }
                }
            } else if name == tag_name(TermTag::Ann) || name == tag_name(TermTag::App) {
                if args.len() != 3 {
                    Err(DecodeErrorM::WrongArity(name))
                } else {
                    match orig_spec(args[0]) {
                        Err(e) => Err(e),
                        Ok(o) => match dec(args[1]) {
                            Err(e) => Err(e),
                            Ok(a) => match dec(args[2]) {
                                Err(e) => Err(e),
                                Ok(b) => Ok(
                                    if name == tag_name(TermTag::Ann) {
                                        node(ExprKindM::Ann { expr: Box::new(a), typ: Box::new(b) }, o)
                                    } else {
                                        node(
                                            ExprKindM::App {
                                                fun: Box::new(a),
                                                args: seq![AppBindingM { data: b, erased: false }],
                                            },
                                            o,
                                        )
                                    },
                                ),
                            },
                        },
                    }
                }
            } else if name == tag_name(TermTag::Sub) {
                if args.len() != 5 {
                    Err(DecodeErrorM::WrongArity(name))
                } else {
                    match orig_spec(args[0]) {
                        Err(e) => Err(e),
                        Ok(o) => match name_spec(args[1]) {
                            Err(e) => Err(e),
                            Ok(p) => match num_spec(args[2]) {
                                Err(e) => Err(e),
                                Ok(i) => match num_spec(args[3]) {
                                    Err(e) => Err(e),
                                    Ok(r) => match dec(args[4]) {
                                        Err(e) => Err(e),
                                        Ok(x) => Ok(
                                            node(
                                                ExprKindM::Sub {
                                                    name: generated(p),
                                                    indx: i,
                                                    redx: r,
                                                    expr: Box::new(x),
                                                },
                                                o,
                                            ),
                                        ),
                                    },
                                },
                            },
                        },
                    }
                }
            } else if name == tag_name(TermTag::Binary) {
                if args.len() != 4 {
                    Err(DecodeErrorM::WrongArity(name))
                } else {
                    match orig_spec(args[0]) {
                        Err(e) => Err(e),
                        Ok(o) => match op_spec(args[1]) {
                            Err(e) => Err(e),
                            Ok(op) => match dec(args[2]) {
                                Err(e) => Err(e),
                                Ok(a) => match dec(args[3]) {
                                    Err(e) => Err(e),
                                    Ok(b) => Ok(
                                        node(
                                            ExprKindM::Binary {
                                                op,
                                                left: Box::new(a),
                                                right: Box::new(b),
                                            },
                                            o,
                                        ),
                                    ),
                                },
                            },
                        },
                    }
                }
            } else if name == "Kind.Term.Quoted.ctr"@ || name == "Kind.Term.Quoted.fun"@ {
                if args.len() != 3 {
                    Err(DecodeErrorM::WrongArity(name))
                } else {
                    match qualified_spec(args[0]) {
                        Err(e) => Err(e),
                        Ok(q) => match orig_spec(args[1]) {
                            Err(e) => Err(e),
                            Ok(o) => match list_spec(args[2]) {
                                Err(e) => Err(e),
                                Ok(_) => match dec_list(args[2]) {
                                    Err(e) => Err(e),
                                    Ok(xs) => Ok(
                                        if name == "Kind.Term.Quoted.ctr"@ {
                                            node(ExprKindM::Ctr { name: generated(q), args: xs }, o)
                                        } else {
                                            node(ExprKindM::Fun { name: generated(q), args: xs }, o)
                                        },
                                    ),
                                },
                            },
                        },
                    }
                }
            } else if args.len() >= 2 && (name == tag_name(
                TermTag::Ctr(spine_items(args).len() as u64),
            ) || name == tag_name(TermTag::Fun(spine_items(args).len() as u64))) {
                match qualified_spec(args[0]) {
                    Err(e) => Err(e),
                    Ok(q) => match orig_spec(args[1]) {
                        Err(e) => Err(e),
                        Ok(o) => match (
                            if is_lifted(args) {
                                dec_seq(args[2]->Ctr_1)
                            } else {
                                dec_seq(args.subrange(2, args.len() as int))
                            }
                        ) {
                            Err(e) => Err(e),
                            Ok(xs) => Ok(
                                if name == tag_name(TermTag::Ctr(spine_items(args).len() as u64)) {
                                    node(ExprKindM::Ctr { name: generated(q), args: xs }, o)
                                } else {
                                    node(ExprKindM::Fun { name: generated(q), args: xs }, o)
                                },
                            ),
                        },
                    },
                }
            } else {
                Err(DecodeErrorM::UnexpectedTag(name))
            }
        },
        _ => Err(DecodeErrorM::NotConstructor),
    }
}

/// The decodings of the items of a `List.cons` / `List.nil` chain, left to
/// right; the first failure, if any.
#[verifier::opaque]
pub open spec fn dec_list(t: TermM) -> Result<Seq<ExprM>, DecodeErrorM>
    decreases t,
{
    match t {
        TermM::Ctr(name, args) => if name == "List.nil"@ {
            Ok(Seq::empty())
        } else if name == "List.cons"@ {
            if args.len() != 2 {
                Err(DecodeErrorM::WrongArity(name))
            } else {
                match dec(args[0]) {
                    Err(e) => Err(e),
                    Ok(x) => match dec_list(args[1]) {
                        Err(e) => Err(e),
                        Ok(rest) => Ok(seq![x] + rest),
                    },
                }
            }
        } else {
            Err(DecodeErrorM::UnexpectedTag(name))
        },
        _ => Err(DecodeErrorM::NotConstructor),
    }
}

/// The decodings of a list of quoted terms; the first failure, left to
/// right, if any.
#[verifier::opaque]
pub open spec fn dec_seq(ts: Seq<TermM>) -> Result<Seq<ExprM>, DecodeErrorM>
    decreases ts,
{
    if ts.len() == 0 {
        Ok(Seq::empty())
    } else {
        match dec_seq(ts.subrange(0, ts.len() - 1)) {
            Err(e) => Err(e),
            Ok(xs) => match dec(ts[ts.len() - 1]) {
                Err(e) => Err(e),
                Ok(x) => Ok(xs.push(x)),
            },
        }
    }
}

pub open spec fn expr_res(r: Result<Box<Expr>, DecodeError>) -> Result<ExprM, DecodeErrorM> {
    match r {
        Ok(e) => Ok(e@),
        Err(e) => Err(e@),
    }
}

pub open spec fn seq_res(r: Result<Vec<Box<Expr>>, DecodeError>) -> Result<Seq<ExprM>, DecodeErrorM> {
    match r {
        Ok(v) => Ok(boxes_view(v@)),
        Err(e) => Err(e@),
    }
}

/// Whether a string is the given text.
pub fn is_str(s: &String, text: &str) -> (r: bool)
    ensures
        r == (s@ == text@),
{
    *s == String::from_str(text)
}

pub fn parse_orig(term: &Term) -> (r: Result<Range, DecodeError>)
    ensures
        match r {
            Ok(v) => orig_spec(term@) == Ok::<Range, DecodeErrorM>(v),
            Err(e) => orig_spec(term@) == Err::<Range, DecodeErrorM>(e@),
        },
{
    match term {
        Term::U6O { numb } => Ok(EncodedRange(*numb).to_range()),
        _ => Err(DecodeError::NotNumber),
    }
}

pub fn parse_num(term: &Term) -> (r: Result<u64, DecodeError>)
    ensures
        match r {
            Ok(v) => num_spec(term@) == Ok::<u64, DecodeErrorM>(v),
            Err(e) => num_spec(term@) == Err::<u64, DecodeErrorM>(e@),
        },
{
    match term {
        Term::U6O { numb } => Ok(*numb),
        _ => Err(DecodeError::NotNumber),
    }
}

/// The 60-bit word of a float literal.
pub fn parse_f60(term: &Term) -> (r: Result<u64, DecodeError>)
    ensures
        match r {
            Ok(v) => f60_spec(term@) == Ok::<u64, DecodeErrorM>(v),
            Err(e) => f60_spec(term@) == Err::<u64, DecodeErrorM>(e@),
        },
{
    match term {
        Term::F6O { numb } => Ok(*numb),
        _ => Err(DecodeError::NotNumber),
    }
}

pub fn parse_op(term: &Term) -> (r: Result<Operator, DecodeError>)
    ensures
        match r {
            Ok(v) => op_spec(term@) == Ok::<Operator, DecodeErrorM>(v),
            Err(e) => op_spec(term@) == Err::<Operator, DecodeErrorM>(e@),
        },
{
    match term {
        Term::Ctr { name, .. } => {
            if is_str(name, "Kind.Operator.add") {
                Ok(Operator::Add)
            } else if is_str(name, "Kind.Operator.sub") {
                Ok(Operator::Sub)
            } else if is_str(name, "Kind.Operator.mul") {
                Ok(Operator::Mul)
            } else if is_str(name, "Kind.Operator.div") {
                Ok(Operator::Div)
            } else if is_str(name, "Kind.Operator.mod") {
                Ok(Operator::Mod)
            } else if is_str(name, "Kind.Operator.and") {
                Ok(Operator::And)
            } else if is_str(name, "Kind.Operator.or") {
                Ok(Operator::Or)
            } else if is_str(name, "Kind.Operator.xor") {
                Ok(Operator::Xor)
            } else if is_str(name, "Kind.Operator.shl") {
                Ok(Operator::Shl)
            } else if is_str(name, "Kind.Operator.shr") {
                Ok(Operator::Shr)
            } else if is_str(name, "Kind.Operator.ltn") {
                Ok(Operator::Ltn)
            } else if is_str(name, "Kind.Operator.lte") {
                Ok(Operator::Lte)
            } else if is_str(name, "Kind.Operator.eql") {
                Ok(Operator::Eql)
            } else if is_str(name, "Kind.Operator.gte") {
                Ok(Operator::Gte)
            } else if is_str(name, "Kind.Operator.gtn") {
                Ok(Operator::Gtn)
            } else if is_str(name, "Kind.Operator.neq") {
                Ok(Operator::Neq)
            } else {
                Err(DecodeError::UnexpectedTag { tag: name.clone() })
            }
        },
        _ => Err(DecodeError::NotConstructor),
    }
}

pub fn parse_name(term: &Term) -> (r: Result<String, DecodeError>)
    ensures
        match r {
            Ok(v) => name_spec(term@) == Ok::<Seq<char>, DecodeErrorM>(v@),
            Err(e) => name_spec(term@) == Err::<Seq<char>, DecodeErrorM>(e@),
        },
{
    match term {
        Term::U6O { numb } => Ok(Ident::decode(*numb)),
        Term::Ctr { name, .. } => Ok(name.clone()),
        _ => Err(DecodeError::NotConstructor),
    }
}

pub fn parse_qualified(term: &Term) -> (r: Result<QualifiedIdent, DecodeError>)
    ensures
        match r {
            Ok(v) => qualified_spec(term@) == Ok::<Seq<char>, DecodeErrorM>(v.name@) && v.range
                == ghost_range_spec(),
            Err(e) => qualified_spec(term@) == Err::<Seq<char>, DecodeErrorM>(e@),
        },
{
    match term {
        Term::U6O { numb } => Ok(QualifiedIdent { name: Ident::decode(*numb), range: Range::ghost_range() }),
        Term::Ctr { name, .. } => {
            let len = name.as_str().unicode_len();
            if len > 0 {
                let short = name.as_str().substring_char(0, len - 1);
                assert(short@ =~= name@.drop_last());
                Ok(QualifiedIdent::new_static(short, Range::ghost_range()))
            } else {
                Ok(QualifiedIdent { name: name.clone(), range: Range::ghost_range() })
            }
        },
        _ => Err(DecodeError::NotConstructor),
    }
}

fn generate_from(name: String) -> (r: Ident)
    ensures
        r@ == generated(name@),
{
    Ident { data: name, range: Range::ghost_range() }
}

/// Decodes a binder body, under the evaluator's lambda when there is one.
fn parse_body(term: &Term) -> (r: Result<Box<Expr>, DecodeError>)
    ensures
        expr_res(r) == match term@ {
            TermM::Lam(_, b) => dec(*b),
            _ => dec(term@),
        },
    decreases term, 4nat,
{
    match term {
        Term::Lam { body, .. } => parse_all_expr(body),
        _ => parse_all_expr(term),
    }
}

/// Which kind of quoted node a constructor name and arguments stand for,
/// in the order in which the decoder tries them; 0 for none.
pub open spec fn branch_of(name: Seq<char>, args: Seq<TermM>) -> nat {
    if name == tag_name(TermTag::All) || name == tag_name(TermTag::Let) {
        1
    } else if name == tag_name(TermTag::Lambda) {
        2
    } else if name == tag_name(TermTag::Typ) || name == tag_name(TermTag::U60) || name == tag_name(
        TermTag::F60,
    ) || name == tag_name(TermTag::Hlp) {
        3
    } else if name == tag_name(TermTag::NumU60) || name == tag_name(TermTag::Hole) {
        4
    } else if name == tag_name(TermTag::NumF60) {
        5
    } else if name == tag_name(TermTag::Var) {
        6
    } else if name == "Kind.Term.set_origin"@ {
        7
    } else if name == tag_name(TermTag::Ann) || name == tag_name(TermTag::App) {
        8
    } else if name == tag_name(TermTag::Sub) {
        9
    } else if name == tag_name(TermTag::Binary) {
        10
    } else if name == "Kind.Term.Quoted.ctr"@ || name == "Kind.Term.Quoted.fun"@ {
        11
    } else if args.len() >= 2 && (name == tag_name(TermTag::Ctr(spine_items(args).len() as u64))
        || name == tag_name(TermTag::Fun(spine_items(args).len() as u64))) {
        12
    } else {
        0
    }
}

pub open spec fn in_branch(t: TermM, k: nat) -> bool {
    t is Ctr && branch_of(t->Ctr_0, t->Ctr_1) == k
}

proof fn lemma_child(t: &Term, name: &String, args: &Vec<Box<Term>>, i: int)
    requires
        *t == (Term::Ctr { name: *name, args: *args }),
        0 <= i < args@.len(),
    ensures
        decreases_to!(*t => *args@[i]),
        t@ == TermM::Ctr(name@, views(args@)),
        t@->Ctr_1[i] == args@[i]@,
{
    lemma_ctr_view(*name, *args);
    vstd::std_specs::vec::axiom_vec_index_decreases(*args, i);
    assert(decreases_to!(*t => *args));
    assert(decreases_to!(*args => args@[i]));
}

fn dec_binder(term: &Term) -> (r: Result<Box<Expr>, DecodeError>)
    requires
        in_branch(term@, 1),
    ensures
        expr_res(r) == dec(term@),
    decreases term, 2nat,
{
    reveal(dec);
    match term {
        Term::Ctr { name, args } => {
            proof {
                lemma_ctr_view(*name, *args);
            }
            if args.len() != 4 {
                return Err(DecodeError::WrongArity { tag: name.clone() });
            }
            proof {
                lemma_child(term, name, args, 0);
                lemma_child(term, name, args, 1);
                lemma_child(term, name, args, 2);
                lemma_child(term, name, args, 3);
            }
            let o = match parse_orig(&args[0]) {
                Ok(v) => v,
                Err(e) => return Err(e),
            };
            let p = match parse_name(&args[1]) {
                Ok(v) => v,
                Err(e) => return Err(e),
            };
            let a = match parse_all_expr(&args[2]) {
                Ok(v) => v,
                Err(e) => return Err(e),
            };
            let b = match parse_body(&args[3]) {
                Ok(v) => v,
                Err(e) => return Err(e),
            };
            if is_str(name, "Kind.Term.Quoted.all") {
                Ok(Box::new(Expr { data: ExprKind::All { param: generate_from(p), typ: a, body: b, erased: false }, range: o }))
            } else {
                Ok(Box::new(Expr { data: ExprKind::Let { name: generate_from(p), val: a, next: b }, range: o }))
            }
        },
        _ => Err(DecodeError::NotConstructor),
    }
}

fn dec_lambda(term: &Term) -> (r: Result<Box<Expr>, DecodeError>)
    requires
        in_branch(term@, 2),
    ensures
        expr_res(r) == dec(term@),
    decreases term, 2nat,
{
    reveal(dec);
    match term {
        Term::Ctr { name, args } => {
            proof {
                lemma_ctr_view(*name, *args);
            }
            if args.len() != 3 {
                return Err(DecodeError::WrongArity { tag: name.clone() });
            }
            proof {
                lemma_child(term, name, args, 0);
                lemma_child(term, name, args, 1);
                lemma_child(term, name, args, 2);
            }
            let o = match parse_orig(&args[0]) {
                Ok(v) => v,
                Err(e) => return Err(e),
            };
            let p = match parse_name(&args[1]) {
                Ok(v) => v,
                Err(e) => return Err(e),
            };
            let b = match parse_body(&args[2]) {
                Ok(v) => v,
                Err(e) => return Err(e),
            };
            Ok(Box::new(Expr { data: ExprKind::Lambda { param: generate_from(p), body: b, erased: false }, range: o }))
        },
        _ => Err(DecodeError::NotConstructor),
    }
}

fn dec_nullary(term: &Term) -> (r: Result<Box<Expr>, DecodeError>)
    requires
        in_branch(term@, 3),
    ensures
        expr_res(r) == dec(term@),
{
    reveal(dec);
    match term {
        Term::Ctr { name, args } => {
            proof {
                lemma_ctr_view(*name, *args);
            }
            if args.len() != 1 {
                return Err(DecodeError::WrongArity { tag: name.clone() });
            }
            assert(term@->Ctr_1[0] == args@[0]@);
            let o = match parse_orig(&args[0]) {
                Ok(v) => v,
                Err(e) => return Err(e),
            };
            if is_str(name, "Kind.Term.Quoted.typ") {
                Ok(Box::new(Expr { data: ExprKind::Typ, range: o }))
            } else if is_str(name, "Kind.Term.Quoted.u60") {
                Ok(Box::new(Expr { data: ExprKind::NumTypeU60, range: o }))
            } else if is_str(name, "Kind.Term.Quoted.f60") {
                Ok(Box::new(Expr { data: ExprKind::NumTypeF60, range: o }))
            } else {
                Ok(Box::new(Expr { data: ExprKind::Hlp { name: Ident::generate("?") }, range: o }))
            }
        },
        _ => Err(DecodeError::NotConstructor),
    }
}

fn dec_number(term: &Term) -> (r: Result<Box<Expr>, DecodeError>)
    requires
        in_branch(term@, 4) || in_branch(term@, 5),
    ensures
        expr_res(r) == dec(term@),
{
    reveal(dec);
    match term {
        Term::Ctr { name, args } => {
            proof {
                lemma_ctr_view(*name, *args);
            }
            if args.len() != 2 {
                return Err(DecodeError::WrongArity { tag: name.clone() });
            }
            assert(term@->Ctr_1[0] == args@[0]@);
            assert(term@->Ctr_1[1] == args@[1]@);
            let o = match parse_orig(&args[0]) {
                Ok(v) => v,
                Err(e) => return Err(e),
            };
            if is_str(name, "Kind.Term.Quoted.num") || is_str(name, "Kind.Term.Quoted.hol") {
                match parse_num(&args[1]) {
                    Ok(n) => if is_str(name, "Kind.Term.Quoted.num") {
                        Ok(Box::new(Expr { data: ExprKind::NumU60 { numb: n }, range: o }))
                    } else {
                        Ok(Box::new(Expr { data: ExprKind::Hole { num: n }, range: o }))
                    },
                    Err(e) => Err(e),
                }
            } else {
                match parse_f60(&args[1]) {
                    Ok(n) => Ok(Box::new(Expr { data: ExprKind::NumF60 { numb: n }, range: o })),
                    Err(e) => Err(e),
                }
            }
        },
        _ => Err(DecodeError::NotConstructor),
    }
}

fn dec_var(term: &Term) -> (r: Result<Box<Expr>, DecodeError>)
    requires
        in_branch(term@, 6) || in_branch(term@, 7),
    ensures
        expr_res(r) == dec(term@),
{
    reveal(dec);
    match term {
        Term::Ctr { name, args } => {
            proof {
                lemma_ctr_view(*name, *args);
            }
            let origin = !is_str(name, "Kind.Term.Quoted.var");
            if (origin && args.len() != 2) || (!origin && args.len() != 3) {
                return Err(DecodeError::WrongArity { tag: name.clone() });
            }
            assert(term@->Ctr_1[0] == args@[0]@);
            assert(term@->Ctr_1[1] == args@[1]@);
            let o = match parse_orig(&args[0]) {
                Ok(v) => v,
                Err(e) => return Err(e),
            };
            if origin {
                match &*args[1] {
                    Term::Var { name: p } => Ok(
                        Box::new(Expr { data: ExprKind::Var { name: Ident::new(p.clone(), o) }, range: o }),
                    ),
                    _ => Err(DecodeError::NotConstructor),
                }
            } else {
                match parse_name(&args[1]) {
                    Ok(p) => Ok(Box::new(Expr { data: ExprKind::Var { name: Ident::new(p, o) }, range: o })),
                    Err(e) => Err(e),
                }
            }
        },
        _ => Err(DecodeError::NotConstructor),
    }
}

fn dec_pair(term: &Term) -> (r: Result<Box<Expr>, DecodeError>)
    requires
        in_branch(term@, 8),
    ensures
        expr_res(r) == dec(term@),
    decreases term, 2nat,
{
    reveal(dec);
    match term {
        Term::Ctr { name, args } => {
            proof {
                lemma_ctr_view(*name, *args);
            }
            if args.len() != 3 {
                return Err(DecodeError::WrongArity { tag: name.clone() });
            }
            proof {
                lemma_child(term, name, args, 0);
                lemma_child(term, name, args, 1);
                lemma_child(term, name, args, 2);
            }
            let o = match parse_orig(&args[0]) {
                Ok(v) => v,
                Err(e) => return Err(e),
            };
            let a = match parse_all_expr(&args[1]) {
                Ok(v) => v,
                Err(e) => return Err(e),
            };
            let b = match parse_all_expr(&args[2]) {
                Ok(v) => v,
                Err(e) => return Err(e),
            };
            if is_str(name, "Kind.Term.Quoted.ann") {
                Ok(Box::new(Expr { data: ExprKind::Ann { expr: a, typ: b }, range: o }))
            } else {
                let mut bindings: Vec<AppBinding> = Vec::new();
                bindings.push(AppBinding { data: b, erased: false });
                let r = Expr { data: ExprKind::App { fun: a, args: bindings }, range: o };
                proof {
                    crate::expr::lemma_app_args_view(r);
                    assert(crate::expr::bindings_view(bindings@) =~= seq![AppBindingM { data: b@, erased: false }]);
                }
                Ok(Box::new(r))
            }
        },
        _ => Err(DecodeError::NotConstructor),
    }
}

fn dec_sub(term: &Term) -> (r: Result<Box<Expr>, DecodeError>)
    requires
        in_branch(term@, 9),
    ensures
        expr_res(r) == dec(term@),
    decreases term, 2nat,
{
    reveal(dec);
    match term {
        Term::Ctr { name, args } => {
            proof {
                lemma_ctr_view(*name, *args);
            }
            if args.len() != 5 {
                return Err(DecodeError::WrongArity { tag: name.clone() });
            }
            proof {
                lemma_child(term, name, args, 0);
                lemma_child(term, name, args, 1);
                lemma_child(term, name, args, 2);
                lemma_child(term, name, args, 3);
                lemma_child(term, name, args, 4);
            }
            let o = match parse_orig(&args[0]) {
                Ok(v) => v,
                Err(e) => return Err(e),
            };
            let p = match parse_name(&args[1]) {
                Ok(v) => v,
                Err(e) => return Err(e),
            };
            let i = match parse_num(&args[2]) {
                Ok(v) => v,
                Err(e) => return Err(e),
            };
            let x = match parse_num(&args[3]) {
                Ok(v) => v,
                Err(e) => return Err(e),
            };
            let e = match parse_all_expr(&args[4]) {
                Ok(v) => v,
                Err(e) => return Err(e),
            };
            Ok(Box::new(Expr { data: ExprKind::Sub { name: generate_from(p), indx: i, redx: x, expr: e }, range: o }))
        },
        _ => Err(DecodeError::NotConstructor),
    }
}

fn dec_binary(term: &Term) -> (r: Result<Box<Expr>, DecodeError>)
    requires
        in_branch(term@, 10),
    ensures
        expr_res(r) == dec(term@),
    decreases term, 2nat,
{
    reveal(dec);
    match term {
        Term::Ctr { name, args } => {
            proof {
                lemma_ctr_view(*name, *args);
            }
            if args.len() != 4 {
                return Err(DecodeError::WrongArity { tag: name.clone() });
            }
            proof {
                lemma_child(term, name, args, 0);
                lemma_child(term, name, args, 1);
                lemma_child(term, name, args, 2);
                lemma_child(term, name, args, 3);
            }
            let o = match parse_orig(&args[0]) {
                Ok(v) => v,
                Err(e) => return Err(e),
            };
            let op = match parse_op(&args[1]) {
                Ok(v) => v,
                Err(e) => return Err(e),
            };
            let a = match parse_all_expr(&args[2]) {
                Ok(v) => v,
                Err(e) => return Err(e),
            };
            let b = match parse_all_expr(&args[3]) {
                Ok(v) => v,
                Err(e) => return Err(e),
            };
            Ok(Box::new(Expr { data: ExprKind::Binary { op, left: a, right: b }, range: o }))
        },
        _ => Err(DecodeError::NotConstructor),
    }
}

proof fn lemma_dec_seq_step(ts: Seq<TermM>, k: int)
    requires
        0 <= k < ts.len(),
    ensures
        dec_seq(ts.take(k + 1)) == match dec_seq(ts.take(k)) {
            Err(e) => Err(e),
            Ok(xs) => match dec(ts[k]) {
                Err(e) => Err(e),
                Ok(x) => Ok(xs.push(x)),
            },
        },
{
    reveal(dec);
    reveal(dec_seq);
    assert(ts.take(k + 1).subrange(0, k) =~= ts.take(k));
    assert(ts.take(k + 1)[k] == ts[k]);
}

/// Decodes the terms of a list from position `from` on.
fn parse_items(items: &Vec<Box<Term>>, from: usize) -> (r: Result<Vec<Box<Expr>>, DecodeError>)
    requires
        from <= items@.len(),
    ensures
        seq_res(r) == dec_seq(views(items@).subrange(from as int, items@.len() as int)),
    decreases items, 1nat,
{
    let ghost sub = views(items@).subrange(from as int, items@.len() as int);
    let mut out: Vec<Box<Expr>> = Vec::new();
    let mut i: usize = from;
    proof {
        reveal(dec_seq);
        assert(sub.take(0).len() == 0);
        assert(dec_seq(sub.take(0)) == Ok::<Seq<ExprM>, DecodeErrorM>(Seq::empty()));
        assert(boxes_view(out@) =~= Seq::<ExprM>::empty());
    }
    while i < items.len()
        invariant
            from <= i <= items@.len(),
            sub == views(items@).subrange(from as int, items@.len() as int),
            dec_seq(sub.take(i - from)) == Ok::<Seq<ExprM>, DecodeErrorM>(boxes_view(out@)),
        decreases items@.len() - i,
    {
        proof {
            lemma_dec_seq_step(sub, i - from);
            vstd::std_specs::vec::axiom_vec_index_decreases(*items, i as int);
            assert(sub[i - from] == items@[i as int]@);
        }
        match parse_all_expr(&items[i]) {
            Ok(x) => {
                let ghost before = boxes_view(out@);
                out.push(x);
                assert(boxes_view(out@) =~= before.push(x@));
            },
            Err(e) => {
                proof {
                    lemma_dec_seq_rest_err(sub, (i - from + 1) as int, e@);
                }
                return Err(e);
            },
        }
        i = i + 1;
    }
    assert(sub.take(i - from) =~= sub);
    Ok(out)
}

proof fn lemma_dec_seq_rest_err(ts: Seq<TermM>, k: int, e: DecodeErrorM)
    requires
        0 <= k <= ts.len(),
        dec_seq(ts.take(k)) == Err::<Seq<ExprM>, DecodeErrorM>(e),
    ensures
        dec_seq(ts) == Err::<Seq<ExprM>, DecodeErrorM>(e),
    decreases ts.len() - k,
{
    if k == ts.len() {
        assert(ts.take(k) =~= ts);
    } else {
        lemma_dec_seq_step(ts, k);
        lemma_dec_seq_rest_err(ts, k + 1, e);
    }
}

pub open spec fn spine_dec(t: TermM) -> Result<ExprM, DecodeErrorM> {
    let name = t->Ctr_0;
    let args = t->Ctr_1;
    match qualified_spec(args[0]) {
        Err(e) => Err(e),
        Ok(q) => match orig_spec(args[1]) {
            Err(e) => Err(e),
            Ok(o) => match dec_seq(spine_items(args)) {
                Err(e) => Err(e),
                Ok(xs) => Ok(
                    if name == tag_name(TermTag::Ctr(spine_items(args).len() as u64)) {
                        node(ExprKindM::Ctr { name: generated(q), args: xs }, o)
                    } else {
                        node(ExprKindM::Fun { name: generated(q), args: xs }, o)
                    },
                ),
            },
        },
    }
}

proof fn lemma_dec_spine(t: TermM)
    requires
        in_branch(t, 12),
    ensures
        dec(t) == spine_dec(t),
{
    reveal(dec);
    reveal(dec_seq);
    let args = t->Ctr_1;
    let name = t->Ctr_0;
    assert(branch_of(name, args) == 12);
    assert(dec(t) == (match qualified_spec(args[0]) {
        Err(e) => Err(e),
        Ok(q) => match orig_spec(args[1]) {
            Err(e) => Err(e),
            Ok(o) => match (if is_lifted(args) {
                dec_seq(args[2]->Ctr_1)
            } else {
                dec_seq(args.subrange(2, args.len() as int))
            }) {
                Err(e) => Err(e),
                Ok(xs) => Ok(
                    if name == tag_name(TermTag::Ctr(spine_items(args).len() as u64)) {
                        node(ExprKindM::Ctr { name: generated(q), args: xs }, o)
                    } else {
                        node(ExprKindM::Fun { name: generated(q), args: xs }, o)
                    },
                ),
            },
        },
    }));
    assert(dec_seq(spine_items(args)) == (if is_lifted(args) {
        dec_seq(args[2]->Ctr_1)
    } else {
        dec_seq(args.subrange(2, args.len() as int))
    }));
}

fn dec_spine(term: &Term) -> (r: Result<Box<Expr>, DecodeError>)
    requires
        in_branch(term@, 12),
    ensures
        expr_res(r) == dec(term@),
    decreases term, 2nat,
{
    reveal(dec);
    match term {
        Term::Ctr { name, args } => {
            proof {
                lemma_ctr_view(*name, *args);
                lemma_child(term, name, args, 0);
                lemma_child(term, name, args, 1);
            }
            let q = match parse_qualified(&args[0]) {
                Ok(v) => v,
                Err(e) => return Err(e),
            };
            let o = match parse_orig(&args[1]) {
                Ok(v) => v,
                Err(e) => return Err(e),
            };
            let ghost targs = term@->Ctr_1;
            assert(dec_seq(spine_items(targs)) == (if is_lifted(targs) {
                dec_seq(targs[2]->Ctr_1)
            } else {
                dec_seq(targs.subrange(2, targs.len() as int))
            }));
            let (items, n) = spine_of(term);
            assert(qualified_spec(targs[0]) == Ok::<Seq<char>, DecodeErrorM>(q.name@));
            assert(orig_spec(targs[1]) == Ok::<Range, DecodeErrorM>(o));
            proof {
                lemma_dec_spine(term@);
            }
            assert(dec(term@) == match dec_seq(spine_items(targs)) {
                Err(e) => Err(e),
                Ok(xs) => Ok(
                    if name@ == tag_name(TermTag::Ctr(spine_items(targs).len() as u64)) {
                        node(ExprKindM::Ctr { name: generated(q.name@), args: xs }, o)
                    } else {
                        node(ExprKindM::Fun { name: generated(q.name@), args: xs }, o)
                    },
                ),
            });
            let xs = match items {
                Ok(v) => v,
                Err(e) => return Err(e),
            };
            let q = generate_qualified(q);
            if *name == numbered("Kind.Term.Quoted.ctr", n as u64) {
                let r = Expr { data: ExprKind::Ctr { name: q, args: xs }, range: o };
                proof {
                    crate::expr::lemma_ctr_args_view(r);
                }
                Ok(Box::new(r))
            } else {
                let r = Expr { data: ExprKind::Fun { name: q, args: xs }, range: o };
                proof {
                    crate::expr::lemma_fun_args_view(r);
                }
                Ok(Box::new(r))
            }
        },
        _ => Err(DecodeError::NotConstructor),
    }
}

/// The decoded arguments of a constructor or call, and how many there are.
fn spine_of(term: &Term) -> (r: (Result<Vec<Box<Expr>>, DecodeError>, usize))
    requires
        term@ is Ctr,
        term@->Ctr_1.len() >= 2,
    ensures
        seq_res(r.0) == dec_seq(spine_items(term@->Ctr_1)),
        r.1 == spine_items(term@->Ctr_1).len(),
    decreases term, 1nat,
{
    match term {
        Term::Ctr { name, args } => {
            proof {
                lemma_ctr_view(*name, *args);
            }
            let ghost targs = term@->Ctr_1;
            match lifted_items(args) {
                Some(inner) => {
                    proof {
                        lemma_child(term, name, args, 2);
                        lemma_ctr_view(args@[2]->Ctr_name, *inner);
                        assert(decreases_to!(*args@[2] => *inner));
                        assert(views(inner@).subrange(0, inner@.len() as int) =~= views(inner@));
                        assert(targs[2] == args@[2]@);
                        assert(targs[2]->Ctr_1 == views(inner@));
                    }
                    (parse_items(inner, 0), inner.len())
                },
                None => {
                    proof {
                        assert(decreases_to!(*term => *args));
                        assert(views(args@).subrange(2, args@.len() as int) =~= targs.subrange(2, args@.len() as int));
                    }
                    (parse_items(args, 2), args.len() - 2)
                },
            }
        },
        _ => (Err(DecodeError::NotConstructor), 0),
    }
}

fn generate_qualified(q: QualifiedIdent) -> (r: QualifiedIdent)
    requires
        q.range == ghost_range_spec(),
    ensures
        r@ == generated(q.name@),
{
    q
}

/// The arguments inside a lifted spine, if the spine is lifted.
fn lifted_items(args: &Vec<Box<Term>>) -> (r: Option<&Vec<Box<Term>>>)
    ensures
        r is Some <==> is_lifted(views(args@)),
        r matches Some(inner) ==> args@.len() == 3 && args@[2]@ is Ctr && *args@[2] == (Term::Ctr {
            name: args@[2]->Ctr_name,
            args: *inner,
        }),
{
    if args.len() != 3 {
        return None;
    }
    assert(views(args@)[2] == args@[2]@);
    match &*args[2] {
        Term::Ctr { name, args: inner } => {
            proof {
                lemma_ctr_view(*name, *inner);
            }
            if inner.len() > 14 && *name == numbered("Kind.Term.args", inner.len() as u64) {
                Some(inner)
            } else {
                None
            }
        },
        _ => None,
    }
}

/// Decodes the items of a `List.cons` / `List.nil` chain, left to right.
fn parse_list_exprs(term: &Term) -> (r: Result<Vec<Box<Expr>>, DecodeError>)
    ensures
        seq_res(r) == dec_list(term@),
    decreases term, 1nat,
{
    reveal(dec);
    reveal(dec_list);
    match term {
        Term::Ctr { name, args } => {
            proof {
                lemma_ctr_view(*name, *args);
            }
            if is_str(name, "List.nil") {
                let v: Vec<Box<Expr>> = Vec::new();
                assert(boxes_view(v@) =~= Seq::<ExprM>::empty());
                Ok(v)
            } else if is_str(name, "List.cons") {
                if args.len() != 2 {
                    return Err(DecodeError::WrongArity { tag: name.clone() });
                }
                proof {
                    lemma_child(term, name, args, 0);
                    lemma_child(term, name, args, 1);
                }
                let x = match parse_all_expr(&args[0]) {
                    Ok(v) => v,
                    Err(e) => return Err(e),
                };
                let mut rest = match parse_list_exprs(&args[1]) {
                    Ok(v) => v,
                    Err(e) => return Err(e),
                };
                let ghost rv = boxes_view(rest@);
                let mut v: Vec<Box<Expr>> = Vec::new();
                v.push(x);
                v.append(&mut rest);
                assert(boxes_view(v@) =~= seq![x@] + rv);
                Ok(v)
            } else {
                Err(DecodeError::UnexpectedTag { tag: name.clone() })
            }
        },
        _ => Err(DecodeError::NotConstructor),
    }
}

pub open spec fn listed_dec(t: TermM) -> Result<ExprM, DecodeErrorM> {
    let name = t->Ctr_0;
    let args = t->Ctr_1;
    if args.len() != 3 {
        Err(DecodeErrorM::WrongArity(name))
    } else {
        match qualified_spec(args[0]) {
            Err(e) => Err(e),
            Ok(q) => match orig_spec(args[1]) {
                Err(e) => Err(e),
                Ok(o) => match list_spec(args[2]) {
                    Err(e) => Err(e),
                    Ok(_) => match dec_list(args[2]) {
                        Err(e) => Err(e),
                        Ok(xs) => Ok(
                            if name == "Kind.Term.Quoted.ctr"@ {
                                node(ExprKindM::Ctr { name: generated(q), args: xs }, o)
                            } else {
                                node(ExprKindM::Fun { name: generated(q), args: xs }, o)
                            },
                        ),
                    },
                },
            },
        }
    }
}

proof fn lemma_dec_listed(t: TermM)
    requires
        in_branch(t, 11),
    ensures
        dec(t) == listed_dec(t),
{
    reveal(dec);
    reveal(dec_list);
    assert(branch_of(t->Ctr_0, t->Ctr_1) == 11);
}

/// Decodes a constructor or call whose arguments come as a list: its
/// name, its range, then the `List.cons` / `List.nil` chain of arguments.
fn dec_listed(term: &Term) -> (r: Result<Box<Expr>, DecodeError>)
    requires
        in_branch(term@, 11),
    ensures
        expr_res(r) == dec(term@),
    decreases term, 2nat,
{
    proof {
        lemma_dec_listed(term@);
    }
    match term {
        Term::Ctr { name, args } => {
            proof {
                lemma_ctr_view(*name, *args);
            }
            if args.len() != 3 {
                return Err(DecodeError::WrongArity { tag: name.clone() });
            }
            proof {
                lemma_child(term, name, args, 0);
                lemma_child(term, name, args, 1);
                lemma_child(term, name, args, 2);
            }
            let q = match parse_qualified(&args[0]) {
                Ok(v) => v,
                Err(e) => return Err(e),
            };
            let o = match parse_orig(&args[1]) {
                Ok(v) => v,
                Err(e) => return Err(e),
            };
            match parse_list(&args[2]) {
                Ok(_) => {},
                Err(e) => return Err(e),
            }
            let xs = match parse_list_exprs(&args[2]) {
                Ok(v) => v,
                Err(e) => return Err(e),
            };
            let q = generate_qualified(q);
            if is_str(name, "Kind.Term.Quoted.ctr") {
                let r = Expr { data: ExprKind::Ctr { name: q, args: xs }, range: o };
                proof {
                    crate::expr::lemma_ctr_args_view(r);
                }
                Ok(Box::new(r))
            } else {
                let r = Expr { data: ExprKind::Fun { name: q, args: xs }, range: o };
                proof {
                    crate::expr::lemma_fun_args_view(r);
                }
                Ok(Box::new(r))
            }
        },
        _ => Err(DecodeError::NotConstructor),
    }
}

/// Decodes a quoted term into an expression.
pub fn parse_all_expr(term: &Term) -> (r: Result<Box<Expr>, DecodeError>)
    ensures
        expr_res(r) == dec(term@),
    decreases term, 3nat,
{
    reveal(dec);
    match term {
        Term::Ctr { name, args } => {
            proof {
                lemma_ctr_view(*name, *args);
            }
            if is_str(name, "Kind.Term.Quoted.all") || is_str(name, "Kind.Term.Quoted.let") {
                dec_binder(term)
            } else if is_str(name, "Kind.Term.Quoted.lam") {
                dec_lambda(term)
            } else if is_str(name, "Kind.Term.Quoted.typ") || is_str(name, "Kind.Term.Quoted.u60")
                || is_str(name, "Kind.Term.Quoted.f60") || is_str(name, "Kind.Term.Quoted.hlp") {
                dec_nullary(term)
            } else if is_str(name, "Kind.Term.Quoted.num") || is_str(name, "Kind.Term.Quoted.hol")
                || is_str(name, "Kind.Term.Quoted.numf60") {
                dec_number(term)
            } else if is_str(name, "Kind.Term.Quoted.var") || is_str(name, "Kind.Term.set_origin") {
                dec_var(term)
            } else if is_str(name, "Kind.Term.Quoted.ann") || is_str(name, "Kind.Term.Quoted.app") {
                dec_pair(term)
            } else if is_str(name, "Kind.Term.Quoted.sub") {
                dec_sub(term)
            } else if is_str(name, "Kind.Term.Quoted.op2") {
                dec_binary(term)
            } else if is_str(name, "Kind.Term.Quoted.ctr") || is_str(name, "Kind.Term.Quoted.fun") {
                dec_listed(term)
            } else if args.len() >= 2 && {
                let n = match lifted_items(args) {
                    Some(inner) => inner.len(),
                    None => args.len() - 2,
                };
                *name == numbered("Kind.Term.Quoted.ctr", n as u64) || *name == numbered(
                    "Kind.Term.Quoted.fun",
                    n as u64,
                )
            } {
                dec_spine(term)
            } else {
                Err(DecodeError::UnexpectedTag { tag: name.clone() })
            }
        },
        _ => Err(DecodeError::NotConstructor),
    }
}

/// Decodes a quoted term into an expression.
pub fn parse_expr(term: &Term) -> (r: Result<Box<Expr>, DecodeError>)
    ensures
        expr_res(r) == dec(term@),
{
    parse_all_expr(term)
}

// Lists, context entries and diagnostics

/// The items of a `List.cons` / `List.nil` chain.
pub open spec fn list_spec(t: TermM) -> Result<Seq<TermM>, DecodeErrorM>
    decreases t,
{
    match t {
        TermM::Ctr(name, args) => if name == "List.nil"@ {
            Ok(Seq::empty())
        } else if name == "List.cons"@ {
            if args.len() != 2 {
                Err(DecodeErrorM::WrongArity(name))
            } else {
                match list_spec(args[1]) {
                    Err(e) => Err(e),
                    Ok(rest) => Ok(seq![args[0]] + rest),
                }
            }
        } else {
            Err(DecodeErrorM::UnexpectedTag(name))
        },
        _ => Err(DecodeErrorM::NotConstructor),
    }
}

pub open spec fn ref_views(s: Seq<&Term>) -> Seq<TermM> {
    s.map_values(|t: &Term| t@)
}

pub open spec fn after(xs: Seq<TermM>, r: Result<Seq<TermM>, DecodeErrorM>) -> Result<Seq<TermM>, DecodeErrorM> {
    match r {
        Ok(rest) => Ok(xs + rest),
        Err(e) => Err(e),
    }
}

/// Walks a `List.cons` / `List.nil` chain.
pub fn parse_list(term: &Term) -> (r: Result<Vec<&Term>, DecodeError>)
    ensures
        match r {
            Ok(v) => list_spec(term@) == Ok::<Seq<TermM>, DecodeErrorM>(ref_views(v@)),
            Err(e) => list_spec(term@) == Err::<Seq<TermM>, DecodeErrorM>(e@),
        },
{
    let mut out: Vec<&Term> = Vec::new();
    let mut cur: &Term = term;
    assert(ref_views(out@) =~= Seq::<TermM>::empty());
    assert(after(Seq::empty(), list_spec(term@)) =~= list_spec(term@));
    loop
        invariant
            list_spec(term@) == after(ref_views(out@), list_spec(cur@)),
        decreases cur@,
    {
        match cur {
            Term::Ctr { name, args } => {
                proof {
                    lemma_ctr_view(*name, *args);
                }
                if is_str(name, "List.nil") {
                    assert(ref_views(out@) + Seq::<TermM>::empty() =~= ref_views(out@));
                    return Ok(out);
                } else if is_str(name, "List.cons") {
                    if args.len() != 2 {
                        return Err(DecodeError::WrongArity { tag: name.clone() });
                    }
                    let ghost before = ref_views(out@);
                    let ghost cv = cur@;
                    assert(cv->Ctr_1[0] == args@[0]@);
                    assert(cv->Ctr_1[1] == args@[1]@);
                    out.push(&args[0]);
                    cur = &args[1];
                    proof {
                        assert(ref_views(out@) =~= before.push(cv->Ctr_1[0]));
                        assert(decreases_to!(cv => cv->Ctr_1));
                        assert(decreases_to!(cv => cur@));
                        match list_spec(cur@) {
                            Ok(rest) => {
                                assert(before + (seq![cv->Ctr_1[0]] + rest) =~= before.push(cv->Ctr_1[0]) + rest);
                            },
                            Err(_) => {},
                        }
                    }
                } else {
                    return Err(DecodeError::UnexpectedTag { tag: name.clone() });
                }
            },
            _ => {
                return Err(DecodeError::NotConstructor);
            },
        }
    }
}

/// The expressions of a list that decode; the others are dropped.
pub open spec fn decoded_only(ts: Seq<TermM>) -> Seq<ExprM>
    decreases ts.len(),
{
    if ts.len() == 0 {
        Seq::empty()
    } else {
        decoded_only(ts.drop_last()) + match dec(ts.last()) {
            Ok(x) => seq![x],
            Err(_) => Seq::empty(),
        }
    }
}

/// A context entry: `Pair.new name (Pair.new type values)`.
pub open spec fn entry_spec(t: TermM) -> Result<CtxEntryM, DecodeErrorM> {
    match t {
        TermM::Ctr(name, args) => if name != "Pair.new"@ {
            Err(DecodeErrorM::UnexpectedTag(name))
        } else if args.len() != 2 {
            Err(DecodeErrorM::WrongArity(name))
        } else {
            match name_spec(args[0]) {
                Err(e) => Err(e),
                Ok(fst) => match args[1] {
                    TermM::Ctr(inner, pair) => if inner != "Pair.new"@ {
                        Err(DecodeErrorM::UnexpectedTag(inner))
                    } else if pair.len() != 2 {
                        Err(DecodeErrorM::WrongArity(inner))
                    } else {
                        match dec(pair[0]) {
                            Err(e) => Err(e),
                            Ok(snd) => match list_spec(pair[1]) {
                                Err(e) => Err(e),
                                Ok(items) => Ok((fst, snd, decoded_only(items))),
                            },
                        }
                    },
                    _ => Err(DecodeErrorM::NotConstructor),
                },
            }
        },
        _ => Err(DecodeErrorM::NotConstructor),
    }
}

/// Decodes the terms that decode, dropping the others.
fn parse_decodable(items: &Vec<&Term>) -> (r: Vec<Box<Expr>>)
    ensures
        boxes_view(r@) == decoded_only(ref_views(items@)),
{
    let ghost all = ref_views(items@);
    let mut out: Vec<Box<Expr>> = Vec::new();
    let mut i: usize = 0;
    assert(all.take(0) =~= Seq::<TermM>::empty());
    assert(boxes_view(out@) =~= Seq::<ExprM>::empty());
    while i < items.len()
        invariant
            i <= items@.len(),
            all == ref_views(items@),
            boxes_view(out@) == decoded_only(all.take(i as int)),
        decreases items@.len() - i,
    {
        let ghost before = boxes_view(out@);
        proof {
            assert(all.take(i + 1).drop_last() =~= all.take(i as int));
            assert(all.take(i + 1).last() == items@[i as int]@);
        }
        match parse_all_expr(items[i]) {
            Ok(x) => {
                out.push(x);
                assert(boxes_view(out@) =~= before + seq![x@]);
            },
            Err(_) => {
                assert(before + Seq::<ExprM>::empty() =~= before);
            },
        }
        i = i + 1;
    }
    assert(all.take(items@.len() as int) =~= all);
    out
}

/// Decodes a unification context entry.
pub fn transform_entry(term: &Term) -> (r: Result<CtxEntry, DecodeError>)
    ensures
        match r {
            Ok(v) => entry_spec(term@) == Ok::<CtxEntryM, DecodeErrorM>(entry_view(v)),
            Err(e) => entry_spec(term@) == Err::<CtxEntryM, DecodeErrorM>(e@),
        },
{
    match term {
        Term::Ctr { name, args } => {
            proof {
                lemma_ctr_view(*name, *args);
            }
            if !is_str(name, "Pair.new") {
                return Err(DecodeError::UnexpectedTag { tag: name.clone() });
            }
            if args.len() != 2 {
                return Err(DecodeError::WrongArity { tag: name.clone() });
            }
            assert(term@->Ctr_1[0] == args@[0]@);
            assert(term@->Ctr_1[1] == args@[1]@);
            let fst = match parse_name(&args[0]) {
                Ok(v) => v,
                Err(e) => return Err(e),
            };
            match &*args[1] {
                Term::Ctr { name: inner, args: pair } => {
                    proof {
                        lemma_ctr_view(*inner, *pair);
                    }
                    if !is_str(inner, "Pair.new") {
                        return Err(DecodeError::UnexpectedTag { tag: inner.clone() });
                    }
                    if pair.len() != 2 {
                        return Err(DecodeError::WrongArity { tag: inner.clone() });
                    }
                    assert(args@[1]@->Ctr_1[0] == pair@[0]@);
                    assert(args@[1]@->Ctr_1[1] == pair@[1]@);
                    let snd = match parse_expr(&pair[0]) {
                        Ok(v) => v,
                        Err(e) => return Err(e),
                    };
                    let items = match parse_list(&pair[1]) {
                        Ok(v) => v,
                        Err(e) => return Err(e),
                    };
                    let trd = parse_decodable(&items);
                    Ok((fst, snd, trd))
                },
                _ => Err(DecodeError::NotConstructor),
            }
        },
        _ => Err(DecodeError::NotConstructor),
    }
}

/// The context entries of a list that decode; the others are dropped.
pub open spec fn ctx_only(ts: Seq<TermM>) -> Seq<CtxEntryM>
    decreases ts.len(),
{
    if ts.len() == 0 {
        Seq::empty()
    } else {
        ctx_only(ts.drop_last()) + match entry_spec(ts.last()) {
            Ok(e) => seq![e],
            Err(_) => Seq::empty(),
        }
    }
}

/// The diagnostic that a known tag, with the right number of arguments,
/// stands for.
pub open spec fn tagged_diagnostic(
    name: Seq<char>,
    args: Seq<TermM>,
    ctx: Seq<CtxEntryM>,
    o: Range,
) -> Result<TypeDiagnosticM, DecodeErrorM> {
    if name == "Kind.Error.Quoted.uncovered_pattern"@ {
        if args.len() != 3 {
            Err(DecodeErrorM::WrongArity(name))
        } else {
            match list_spec(args[2]) {
                Err(e) => Err(e),
                Ok(ps) => match dec_seq(ps) {
                    Err(e) => Err(e),
                    Ok(xs) => Ok(TypeDiagnosticM::UncoveredPattern(ctx, o, xs)),
                },
            }
        }
    } else if name == "Kind.Error.Quoted.unbound_variable"@ {
        if args.len() != 2 {
            Err(DecodeErrorM::WrongArity(name))
        } else {
            Ok(TypeDiagnosticM::UnboundVariable(ctx, o))
        }
    } else if name == "Kind.Error.Quoted.cant_infer_hole"@ {
        if args.len() != 2 {
            Err(DecodeErrorM::WrongArity(name))
        } else {
            Ok(TypeDiagnosticM::CantInferHole(ctx, o))
        }
    } else if name == "Kind.Error.Quoted.cant_infer_lambda"@ {
        if args.len() != 2 {
            Err(DecodeErrorM::WrongArity(name))
        } else {
            Ok(TypeDiagnosticM::CantInferLambda(ctx, o))
        }
    } else if name == "Kind.Error.Quoted.invalid_call"@ {
        if args.len() != 2 {
            Err(DecodeErrorM::WrongArity(name))
        } else {
            Ok(TypeDiagnosticM::InvalidCall(ctx, o))
        }
    } else if name == "Kind.Error.Quoted.impossible_case"@ || name == "Kind.Error.Quoted.type_mismatch"@ {
        if args.len() != 4 {
            Err(DecodeErrorM::WrongArity(name))
        } else {
            match dec(args[2]) {
                Err(e) => Err(e),
                Ok(a) => match dec(args[3]) {
                    Err(e) => Err(e),
                    Ok(b) => Ok(
                        if name == "Kind.Error.Quoted.impossible_case"@ {
                            TypeDiagnosticM::ImpossibleCase(ctx, o, a, b)
                        } else {
                            TypeDiagnosticM::TypeMismatch(ctx, o, a, b)
                        },
                    ),
                },
            }
        }
    } else if name == "Kind.Error.Quoted.inspection"@ {
        if args.len() != 3 {
            Err(DecodeErrorM::WrongArity(name))
        } else {
            match dec(args[2]) {
                Err(e) => Err(e),
                Ok(a) => Ok(TypeDiagnosticM::Inspection(ctx, o, a)),
            }
        }
    } else if name == "Kind.Error.Quoted.too_many_arguments"@ {
        if args.len() != 2 {
            Err(DecodeErrorM::WrongArity(name))
        } else {
            Ok(TypeDiagnosticM::TooManyArguments(ctx, o))
        }
    } else {
        Err(DecodeErrorM::UnexpectedTag(name))
    }
}

/// A diagnostic: its tag, then its context, its range and what the tag
/// carries.
pub open spec fn diagnostic_spec(t: TermM) -> Result<TypeDiagnosticM, DecodeErrorM> {
    match t {
        TermM::Ctr(name, args) => if args.len() < 2 {
            Err(DecodeErrorM::WrongArity(name))
        } else {
            match list_spec(args[0]) {
                Err(e) => Err(e),
                Ok(ls) => match orig_spec(args[1]) {
                    Err(e) => Err(e),
                    Ok(o) => tagged_diagnostic(name, args, ctx_only(ls), o),
                },
            }
        },
        _ => Err(DecodeErrorM::NotConstructor),
    }
}

pub open spec fn diag_res(r: Result<TypeDiagnostic, DecodeError>) -> Result<TypeDiagnosticM, DecodeErrorM> {
    match r {
        Ok(d) => Ok(d@),
        Err(e) => Err(e@),
    }
}

/// Decodes every term of a list, failing at the first that does not decode.
fn parse_refs(items: &Vec<&Term>) -> (r: Result<Vec<Box<Expr>>, DecodeError>)
    ensures
        seq_res(r) == dec_seq(ref_views(items@)),
{
    let ghost all = ref_views(items@);
    let mut out: Vec<Box<Expr>> = Vec::new();
    let mut i: usize = 0;
    proof {
        reveal(dec_seq);
        assert(all.take(0).len() == 0);
        assert(dec_seq(all.take(0)) == Ok::<Seq<ExprM>, DecodeErrorM>(Seq::empty()));
        assert(boxes_view(out@) =~= Seq::<ExprM>::empty());
    }
    while i < items.len()
        invariant
            i <= items@.len(),
            all == ref_views(items@),
            dec_seq(all.take(i as int)) == Ok::<Seq<ExprM>, DecodeErrorM>(boxes_view(out@)),
        decreases items@.len() - i,
    {
        proof {
            lemma_dec_seq_step(all, i as int);
        }
        match parse_all_expr(items[i]) {
            Ok(x) => {
                let ghost before = boxes_view(out@);
                out.push(x);
                assert(boxes_view(out@) =~= before.push(x@));
            },
            Err(e) => {
                proof {
                    lemma_dec_seq_rest_err(all, (i + 1) as int, e@);
                }
                return Err(e);
            },
        }
        i = i + 1;
    }
    assert(all.take(i as int) =~= all);
    Ok(out)
}

/// Decodes the context entries that decode, dropping the others.
fn parse_context(items: &Vec<&Term>) -> (r: Context)
    ensures
        r@ == ctx_only(ref_views(items@)),
{
    let ghost all = ref_views(items@);
    let mut out: Vec<CtxEntry> = Vec::new();
    let mut i: usize = 0;
    assert(all.take(0) =~= Seq::<TermM>::empty());
    assert(Context(out)@ =~= Seq::<CtxEntryM>::empty());
    while i < items.len()
        invariant
            i <= items@.len(),
            all == ref_views(items@),
            Context(out)@ == ctx_only(all.take(i as int)),
        decreases items@.len() - i,
    {
        let ghost before = Context(out)@;
        proof {
            assert(all.take(i + 1).drop_last() =~= all.take(i as int));
            assert(all.take(i + 1).last() == items@[i as int]@);
        }
        match transform_entry(items[i]) {
            Ok(x) => {
                out.push(x);
                assert(Context(out)@ =~= before + seq![entry_view(x)]);
            },
            Err(_) => {
                assert(before + Seq::<CtxEntryM>::empty() =~= before);
            },
        }
        i = i + 1;
    }
    assert(all.take(items@.len() as int) =~= all);
    Context(out)
}

/// Decodes one diagnostic.
pub fn parse_type_error(term: &Term) -> (r: Result<TypeDiagnostic, DecodeError>)
    ensures
        diag_res(r) == diagnostic_spec(term@),
{
    match term {
        Term::Ctr { name, args } => {
            proof {
                lemma_ctr_view(*name, *args);
            }
            if args.len() < 2 {
                return Err(DecodeError::WrongArity { tag: name.clone() });
            }
            assert(term@->Ctr_1[0] == args@[0]@);
            assert(term@->Ctr_1[1] == args@[1]@);
            let ls = match parse_list(&args[0]) {
                Ok(v) => v,
                Err(e) => return Err(e),
            };
            let o = match parse_orig(&args[1]) {
                Ok(v) => v,
                Err(e) => return Err(e),
            };
            let ctx = parse_context(&ls);
            let wrong = DecodeError::WrongArity { tag: name.clone() };
            if is_str(name, "Kind.Error.Quoted.uncovered_pattern") {
                if args.len() != 3 {
                    return Err(wrong);
                }
                assert(term@->Ctr_1[2] == args@[2]@);
                let ps = match parse_list(&args[2]) {
                    Ok(v) => v,
                    Err(e) => return Err(e),
                };
                match parse_refs(&ps) {
                    Ok(xs) => Ok(TypeDiagnostic::UncoveredPattern(ctx, o, xs)),
                    Err(e) => Err(e),
                }
            } else if is_str(name, "Kind.Error.Quoted.unbound_variable") {
                if args.len() != 2 {
                    return Err(wrong);
                }
                Ok(TypeDiagnostic::UnboundVariable(ctx, o))
            } else if is_str(name, "Kind.Error.Quoted.cant_infer_hole") {
                if args.len() != 2 {
                    return Err(wrong);
                }
                Ok(TypeDiagnostic::CantInferHole(ctx, o))
            } else if is_str(name, "Kind.Error.Quoted.cant_infer_lambda") {
                if args.len() != 2 {
                    return Err(wrong);
                }
                Ok(TypeDiagnostic::CantInferLambda(ctx, o))
            } else if is_str(name, "Kind.Error.Quoted.invalid_call") {
                if args.len() != 2 {
                    return Err(wrong);
                }
                Ok(TypeDiagnostic::InvalidCall(ctx, o))
            } else if is_str(name, "Kind.Error.Quoted.impossible_case") || is_str(
                name,
                "Kind.Error.Quoted.type_mismatch",
            ) {
                if args.len() != 4 {
                    return Err(wrong);
                }
                assert(term@->Ctr_1[2] == args@[2]@);
                assert(term@->Ctr_1[3] == args@[3]@);
                let a = match parse_expr(&args[2]) {
                    Ok(v) => v,
                    Err(e) => return Err(e),
                };
                let b = match parse_expr(&args[3]) {
                    Ok(v) => v,
                    Err(e) => return Err(e),
                };
                if is_str(name, "Kind.Error.Quoted.impossible_case") {
                    Ok(TypeDiagnostic::ImpossibleCase(ctx, o, a, b))
                } else {
                    Ok(TypeDiagnostic::TypeMismatch(ctx, o, a, b))
                }
            } else if is_str(name, "Kind.Error.Quoted.inspection") {
                if args.len() != 3 {
                    return Err(wrong);
                }
                assert(term@->Ctr_1[2] == args@[2]@);
                match parse_expr(&args[2]) {
                    Ok(a) => Ok(TypeDiagnostic::Inspection(ctx, o, a)),
                    Err(e) => Err(e),
                }
            } else if is_str(name, "Kind.Error.Quoted.too_many_arguments") {
                if args.len() != 2 {
                    return Err(wrong);
                }
                Ok(TypeDiagnostic::TooManyArguments(ctx, o))
            } else {
                Err(DecodeError::UnexpectedTag { tag: name.clone() })
            }
        },
        _ => Err(DecodeError::NotConstructor),
    }
}

/// Decodes a list of diagnostics. A diagnostic that does not decode fails
/// alone: its place holds its failure, and its siblings still decode. Only
/// a malformed list fails the whole answer.
pub fn parse_report(term: &Term) -> (r: Result<Vec<Result<TypeDiagnostic, DecodeError>>, DecodeError>)
    ensures
        match r {
            Ok(v) => list_spec(term@) is Ok && v@.len() == list_spec(term@)->Ok_0.len() && forall|i: int|
                0 <= i < v@.len() ==> diag_res(#[trigger] v@[i]) == diagnostic_spec(
                    list_spec(term@)->Ok_0[i],
                ),
            Err(e) => list_spec(term@) == Err::<Seq<TermM>, DecodeErrorM>(e@),
        },
{
    let items = match parse_list(term) {
        Ok(v) => v,
        Err(e) => return Err(e),
    };
    let ghost all = ref_views(items@);
    let mut out: Vec<Result<TypeDiagnostic, DecodeError>> = Vec::new();
    let mut i: usize = 0;
    while i < items.len()
        invariant
            i <= items@.len(),
            all == ref_views(items@),
            out@.len() == i,
            forall|j: int| 0 <= j < i ==> diag_res(#[trigger] out@[j]) == diagnostic_spec(all[j]),
        decreases items@.len() - i,
    {
        out.push(parse_type_error(items[i]));
        i = i + 1;
    }
    Ok(out)
}

} // verus!
