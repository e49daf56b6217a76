//! Decoding inverts quoted encoding: every expression that the packed
//! format can hold comes back from the encoder's quoted output, up to the
//! names of its binders, the ranges of its identifiers, its erasure flags,
//! curried applications and desugared strings.
use vstd::prelude::*;
use crate::encode::{enc, enc_args, enc_app, enc_str, encode_spec};
use crate::expr::{AppBindingM, ExprKindM, ExprM, IdentM};
use crate::range::{Range, range_fits, pack_range, lemma_range_round_trip};
use crate::report::{branch_of, dec, dec_seq, generated, is_lifted, spine_items, DecodeErrorM};
use crate::tags::{TermTag, tag_name, mode_tag, operator_name};
use crate::term::{TermM, args_tag, ctr_name_of, lift, lifted_ctr, orig_of, u60, lemma_u60_small};
use crate::text::decimal;

verus! {

/// The characters that tell the tags apart.
proof fn lemma_tag_chars(n: u64, m: nat)
    ensures
        tag_name(TermTag::Typ).len() == 20 && tag_name(TermTag::Typ)[17] == 't',
        tag_name(TermTag::U60).len() == 20 && tag_name(TermTag::U60)[17] == 'u',
        tag_name(TermTag::F60).len() == 20 && tag_name(TermTag::F60)[17] == 'f'
            && tag_name(TermTag::F60)[18] == '6',
        tag_name(TermTag::Hlp).len() == 20 && tag_name(TermTag::Hlp)[17] == 'h'
            && tag_name(TermTag::Hlp)[19] == 'p',
        tag_name(TermTag::NumU60).len() == 20 && tag_name(TermTag::NumU60)[17] == 'n',
        tag_name(TermTag::Hole).len() == 20 && tag_name(TermTag::Hole)[17] == 'h'
            && tag_name(TermTag::Hole)[19] == 'l',
        tag_name(TermTag::NumF60).len() == 23 && tag_name(TermTag::NumF60)[17] == 'n',
        tag_name(TermTag::Var).len() == 20 && tag_name(TermTag::Var)[17] == 'v',
        tag_name(TermTag::All).len() == 20 && tag_name(TermTag::All)[17] == 'a'
            && tag_name(TermTag::All)[18] == 'l',
        tag_name(TermTag::Lambda).len() == 20 && tag_name(TermTag::Lambda)[17] == 'l'
            && tag_name(TermTag::Lambda)[18] == 'a',
        tag_name(TermTag::Let).len() == 20 && tag_name(TermTag::Let)[17] == 'l'
            && tag_name(TermTag::Let)[18] == 'e',
        tag_name(TermTag::Ann).len() == 20 && tag_name(TermTag::Ann)[17] == 'a'
            && tag_name(TermTag::Ann)[18] == 'n',
        tag_name(TermTag::App).len() == 20 && tag_name(TermTag::App)[17] == 'a'
            && tag_name(TermTag::App)[18] == 'p',
        tag_name(TermTag::Sub).len() == 20 && tag_name(TermTag::Sub)[17] == 's',
        tag_name(TermTag::Binary).len() == 20 && tag_name(TermTag::Binary)[17] == 'o',
        tag_name(TermTag::Ctr(n)).len() > 20 && tag_name(TermTag::Ctr(n))[17] == 'c'
            && tag_name(TermTag::Ctr(n))[10] == 'Q',
        tag_name(TermTag::Fun(n)).len() > 20 && tag_name(TermTag::Fun(n))[17] == 'f'
            && tag_name(TermTag::Fun(n))[18] == 'u' && tag_name(TermTag::Fun(n))[10] == 'Q',
        "Kind.Term.set_origin"@.len() == 20 && "Kind.Term.set_origin"@[10] == 's'
            && "Kind.Term.set_origin"@[17] == 'g',
        args_tag(m)[10] == 'a',
        "Kind.Term.Quoted.ctr"@.len() == 20,
        "Kind.Term.Quoted.fun"@.len() == 20,
        tag_name(TermTag::Typ)[10] == 'Q',
        tag_name(TermTag::U60)[10] == 'Q',
        tag_name(TermTag::F60)[10] == 'Q',
        tag_name(TermTag::Hlp)[10] == 'Q',
        tag_name(TermTag::NumU60)[10] == 'Q',
        tag_name(TermTag::Hole)[10] == 'Q',
        tag_name(TermTag::NumF60)[10] == 'Q',
        tag_name(TermTag::All)[10] == 'Q',
        tag_name(TermTag::Lambda)[10] == 'Q',
        tag_name(TermTag::Let)[10] == 'Q',
        tag_name(TermTag::Ann)[10] == 'Q',
        tag_name(TermTag::App)[10] == 'Q',
        tag_name(TermTag::Sub)[10] == 'Q',
        tag_name(TermTag::Binary)[10] == 'Q',
{
    reveal_strlit("Kind.Term.Quoted.var");
    reveal_strlit("Kind.Term.Quoted.all");
    reveal_strlit("Kind.Term.Quoted.lam");
    reveal_strlit("Kind.Term.Quoted.app");
    reveal_strlit("Kind.Term.Quoted.fun");
    reveal_strlit("Kind.Term.Quoted.ctr");
    reveal_strlit("Kind.Term.Quoted.let");
    reveal_strlit("Kind.Term.Quoted.ann");
    reveal_strlit("Kind.Term.Quoted.sub");
    reveal_strlit("Kind.Term.Quoted.typ");
    reveal_strlit("Kind.Term.Quoted.u60");
    reveal_strlit("Kind.Term.Quoted.f60");
    reveal_strlit("Kind.Term.Quoted.num");
    reveal_strlit("Kind.Term.Quoted.numf60");
    reveal_strlit("Kind.Term.Quoted.op2");
    reveal_strlit("Kind.Term.Quoted.hol");
    reveal_strlit("Kind.Term.Quoted.hlp");
    reveal_strlit("Kind.Term.set_origin");
    reveal_strlit("Kind.Term.args");
    lemma_decimal_nonempty(n as nat);
    lemma_decimal_nonempty(m);
}

proof fn lemma_decimal_nonempty(n: nat)
    ensures
        decimal(n).len() >= 1,
    decreases n,
{
    if n >= 10 {
        lemma_decimal_nonempty(n / 10);
    }
}

proof fn lemma_branch_fixed(args: Seq<TermM>)
    ensures
        branch_of(tag_name(TermTag::Typ), args) == 3,
        branch_of(tag_name(TermTag::U60), args) == 3,
        branch_of(tag_name(TermTag::F60), args) == 3,
        branch_of(tag_name(TermTag::Hlp), args) == 3,
        branch_of(tag_name(TermTag::NumU60), args) == 4,
        branch_of(tag_name(TermTag::Hole), args) == 4,
        branch_of(tag_name(TermTag::NumF60), args) == 5,
        branch_of("Kind.Term.set_origin"@, args) == 7,
        branch_of(tag_name(TermTag::All), args) == 1,
        branch_of(tag_name(TermTag::Let), args) == 1,
        branch_of(tag_name(TermTag::Lambda), args) == 2,
        branch_of(tag_name(TermTag::Ann), args) == 8,
        branch_of(tag_name(TermTag::App), args) == 8,
        branch_of(tag_name(TermTag::Sub), args) == 9,
        branch_of(tag_name(TermTag::Binary), args) == 10,
{
    lemma_tag_chars(0, 0);
}

proof fn lemma_branch_spine(k: nat, args: Seq<TermM>)
    requires
        args.len() >= 2,
        spine_items(args).len() == k,
    ensures
        branch_of(tag_name(TermTag::Ctr(k as u64)), args) == 12,
        branch_of(tag_name(TermTag::Fun(k as u64)), args) == 12,
        tag_name(TermTag::Fun(k as u64)) != tag_name(TermTag::Ctr(k as u64)),
{
    lemma_tag_chars(k as u64, 0);
}

/// The expressions that the packed format holds: ranges that fit, 60-bit
/// numbers, and no invalid marker.
pub open spec fn wf(e: ExprM) -> bool
    decreases e,
{
    range_fits(e.range) && match e.data {
        ExprKindM::All { typ, body, .. } => wf(*typ) && wf(*body),
        ExprKindM::Lambda { body, .. } => wf(*body),
        ExprKindM::App { fun, args } => wf(*fun) && forall|i: int|
            0 <= i < args.len() ==> wf(#[trigger] args[i].data),
        ExprKindM::Ctr { args, .. } => forall|i: int| 0 <= i < args.len() ==> wf(#[trigger] args[i]),
        ExprKindM::Fun { args, .. } => forall|i: int| 0 <= i < args.len() ==> wf(#[trigger] args[i]),
        ExprKindM::Let { val, next, .. } => wf(*val) && wf(*next),
        ExprKindM::Ann { expr, typ } => wf(*expr) && wf(*typ),
        ExprKindM::Sub { indx, redx, expr, .. } => indx < 0x1000_0000_0000_0000u64 && redx
            < 0x1000_0000_0000_0000u64 && wf(*expr),
        ExprKindM::NumU60 { numb } => numb < 0x1000_0000_0000_0000u64,
        ExprKindM::Hole { num } => num < 0x1000_0000_0000_0000u64,
        ExprKindM::Binary { left, right, .. } => wf(*left) && wf(*right),
        ExprKindM::Invalid => false,
        _ => true,
    }
}

/// A binder's name as the decoder regenerates it from its name code.
pub open spec fn regen(p: IdentM) -> IdentM {
    generated(crate::ident::code_name(u60(crate::ident::name_code(p.data) as u64) as nat))
}

/// A string literal as the chain of character constructors it stands for.
pub open spec fn str_norm(r: Range, s: Seq<char>) -> ExprM
    decreases s.len(),
{
    if s.len() == 0 {
        ExprM { data: ExprKindM::Ctr { name: generated("String.nil"@), args: Seq::empty() }, range: r }
    } else {
        ExprM {
            data: ExprKindM::Ctr {
                name: generated("String.cons"@),
                args: seq![
                    ExprM { data: ExprKindM::NumU60 { numb: u60(s[0] as u64) }, range: r },
                    str_norm(r, s.skip(1)),
                ],
            },
            range: r,
        }
    }
}

/// What the decoder gives back for an expression: binders renamed from
/// their codes, identifiers ranged as their use, erasure forgotten,
/// applications curried and strings desugared.
pub open spec fn norm(e: ExprM) -> ExprM
    decreases e,
{
    let r = e.range;
    match e.data {
        ExprKindM::Var { name } => ExprM { data: ExprKindM::Var { name: IdentM { data: name.data, range: r } }, range: r },
        ExprKindM::All { param, typ, body, .. } => ExprM {
            data: ExprKindM::All { param: regen(param), typ: Box::new(norm(*typ)), body: Box::new(norm(*body)), erased: false },
            range: r,
        },
        ExprKindM::Lambda { param, body, .. } => ExprM {
            data: ExprKindM::Lambda { param: regen(param), body: Box::new(norm(*body)), erased: false },
            range: r,
        },
        ExprKindM::App { fun, args } => norm_app(norm(*fun), r, args),
        ExprKindM::Ctr { name, args } => ExprM {
            data: ExprKindM::Ctr { name: generated(name.data), args: norm_seq(args) },
            range: r,
        },
        ExprKindM::Fun { name, args } => ExprM {
            data: ExprKindM::Fun { name: generated(name.data), args: norm_seq(args) },
            range: r,
        },
        ExprKindM::Let { name, val, next } => ExprM {
            data: ExprKindM::Let { name: regen(name), val: Box::new(norm(*val)), next: Box::new(norm(*next)) },
            range: r,
        },
        ExprKindM::Ann { expr, typ } => ExprM {
            data: ExprKindM::Ann { expr: Box::new(norm(*expr)), typ: Box::new(norm(*typ)) },
            range: r,
        },
        ExprKindM::Sub { name, indx, redx, expr } => ExprM {
            data: ExprKindM::Sub { name: regen(name), indx, redx, expr: Box::new(norm(*expr)) },
            range: r,
        },
        ExprKindM::Binary { op, left, right } => ExprM {
            data: ExprKindM::Binary { op, left: Box::new(norm(*left)), right: Box::new(norm(*right)) },
            range: r,
        },
        ExprKindM::Str { val } => str_norm(r, val),
        ExprKindM::Hlp { .. } => ExprM { data: ExprKindM::Hlp { name: generated("?"@) }, range: r },
        _ => e,
    }
}

pub open spec fn norm_seq(s: Seq<ExprM>) -> Seq<ExprM>
    decreases s,
{
    if s.len() == 0 {
        Seq::empty()
    } else {
        norm_seq(s.subrange(0, s.len() - 1)).push(norm(s[s.len() - 1]))
    }
}

pub open spec fn norm_app(head: ExprM, r: Range, s: Seq<AppBindingM>) -> ExprM
    decreases s,
{
    if s.len() == 0 {
        head
    } else {
        ExprM {
            data: ExprKindM::App {
                fun: Box::new(norm_app(head, r, s.subrange(0, s.len() - 1))),
                args: seq![AppBindingM { data: norm(s[s.len() - 1].data), erased: false }],
            },
            range: r,
        }
    }
}

proof fn lemma_orig(r: Range)
    requires
        range_fits(r),
    ensures
        crate::report::orig_spec(orig_of(false, r)) == Ok::<Range, DecodeErrorM>(r),
{
    lemma_range_round_trip(r);
    lemma_u60_small(pack_range(r));
}

proof fn lemma_op_of(op: crate::expr::Operator)
    ensures
        crate::report::op_of(operator_name(op)) == Ok::<crate::expr::Operator, DecodeErrorM>(op),
{
    reveal_strlit("Kind.Operator.add");
    reveal_strlit("Kind.Operator.sub");
    reveal_strlit("Kind.Operator.mul");
    reveal_strlit("Kind.Operator.div");
    reveal_strlit("Kind.Operator.mod");
    reveal_strlit("Kind.Operator.and");
    reveal_strlit("Kind.Operator.or");
    reveal_strlit("Kind.Operator.xor");
    reveal_strlit("Kind.Operator.shl");
    reveal_strlit("Kind.Operator.shr");
    reveal_strlit("Kind.Operator.ltn");
    reveal_strlit("Kind.Operator.lte");
    reveal_strlit("Kind.Operator.eql");
    reveal_strlit("Kind.Operator.gte");
    reveal_strlit("Kind.Operator.gtn");
    reveal_strlit("Kind.Operator.neq");
    let ops = seq![
        crate::expr::Operator::Add,
        crate::expr::Operator::Sub,
        crate::expr::Operator::Mul,
        crate::expr::Operator::Div,
        crate::expr::Operator::Mod,
        crate::expr::Operator::And,
        crate::expr::Operator::Or,
        crate::expr::Operator::Xor,
        crate::expr::Operator::Shl,
        crate::expr::Operator::Shr,
        crate::expr::Operator::Ltn,
        crate::expr::Operator::Lte,
        crate::expr::Operator::Eql,
        crate::expr::Operator::Gte,
        crate::expr::Operator::Gtn,
        crate::expr::Operator::Neq,
    ];
    assert forall|i: int, j: int| 0 <= i < 16 && 0 <= j < 16 && i != j implies operator_name(ops[i])
        != operator_name(ops[j]) by {
        let a = operator_name(ops[i]);
        let b = operator_name(ops[j]);
        if a.len() == b.len() {
            assert(a[14] != b[14] || a[15] != b[15] || a[16] != b[16]);
        }
    }
    assert(exists|k: int| 0 <= k < 16 && ops[k] == op);

}

pub open spec fn quoted_head(t: TermM) -> bool {
    t is Ctr && t->Ctr_0.len() > 10 && (t->Ctr_0[10] == 'Q' || t->Ctr_0[10] == 's')
}

proof fn lemma_str_head(r: Range, s: Seq<char>)
    ensures
        quoted_head(enc_str(false, true, r, s)),
{
    reveal(enc_str);
    lemma_tag_chars(0, 0);
    lemma_tag_chars(2, 0);
}

/// Every quoted encoding is a constructor with a tag of the vocabulary.
proof fn lemma_head(n: u64, e: ExprM)
    requires
        wf(e),
    ensures
        quoted_head(enc(false, false, true, n, e).0),
    decreases e,
{
    reveal(enc);
    lemma_tag_chars(0, 0);
    match e.data {
        ExprKindM::App { fun, args } => {
            lemma_head(n, *fun);
            let (f, n1) = enc(false, false, true, n, *fun);
            lemma_head_app(e.range, f, n1, args);
        },
        ExprKindM::Ctr { args, .. } => {
            lemma_tag_chars(args.len() as u64, 0);
        },
        ExprKindM::Fun { args, .. } => {
            lemma_tag_chars(args.len() as u64, 0);
        },
        ExprKindM::Str { val } => {
            lemma_str_head(e.range, val);
        },
        _ => {},
    }
}

proof fn lemma_head_app(r: Range, head: TermM, n: u64, s: Seq<AppBindingM>)
    requires
        quoted_head(head),
    ensures
        quoted_head(enc_app(false, false, true, r, head, n, s).0),
    decreases s,
{
    reveal(enc);
    lemma_tag_chars(0, 0);
}

/// A spine of quoted encodings reads back as itself.
proof fn lemma_quoted_spine(name: TermM, o: TermM, ts: Seq<TermM>)
    requires
        forall|i: int| 0 <= i < ts.len() ==> quoted_head(#[trigger] ts[i]),
    ensures
        lift(seq![name, o] + ts).len() >= 2,
        lift(seq![name, o] + ts)[0] == name,
        lift(seq![name, o] + ts)[1] == o,
        spine_items(lift(seq![name, o] + ts)) == ts,
{
    if ts.len() == 1 {
        let m = ts[0]->Ctr_1.len();
        lemma_tag_chars(0, m);
        assert(quoted_head(ts[0]));
        assert((seq![name, o] + ts)[2] == ts[0]);
        if is_lifted(seq![name, o] + ts) {
            assert(ts[0]->Ctr_0 == args_tag(m));
            assert(ts[0]->Ctr_0[10] == args_tag(m)[10]);
        }
    }
    crate::report::lemma_spine_round_trip(name, o, ts);
}

#[verifier::spinoff_prover]
#[verifier::rlimit(100)]
proof fn lemma_rt_leaf(n: u64, e: ExprM)
    requires
        wf(e),
        e.data is Typ || e.data is NumTypeU60 || e.data is NumTypeF60 || e.data is Hlp
            || e.data is NumU60 || e.data is NumF60 || e.data is Hole || e.data is Var,
    ensures
        dec(enc(false, false, true, n, e).0) == Ok::<ExprM, DecodeErrorM>(norm(e)),
{
    lemma_tag_chars(0, 0);
    reveal(enc);
    reveal(dec);
    lemma_orig(e.range);
    let t = enc(false, false, true, n, e).0;
    lemma_branch_fixed(t->Ctr_1);
    match e.data {
        ExprKindM::NumU60 { numb } => {
            lemma_u60_small(numb);
        },
        ExprKindM::Hole { num } => {
            lemma_u60_small(num);
        },
        _ => {},
    }
}

#[verifier::spinoff_prover]
#[verifier::rlimit(100)]
proof fn lemma_rt_binder(n: u64, e: ExprM)
    requires
        wf(e),
        e.data is All || e.data is Lambda || e.data is Let,
    ensures
        dec(enc(false, false, true, n, e).0) == Ok::<ExprM, DecodeErrorM>(norm(e)),
    decreases e, 0nat,
{
    lemma_tag_chars(0, 0);
    reveal(enc);
    reveal(dec);
    lemma_orig(e.range);
    let t = enc(false, false, true, n, e).0;
    lemma_branch_fixed(t->Ctr_1);
    match e.data {
        ExprKindM::All { param, typ, body, .. } => {
            lemma_rt(n, *typ);
            let n1 = enc(false, false, true, n, *typ).1;
            lemma_rt(n1, *body);
        },
        ExprKindM::Lambda { param, body, .. } => {
            lemma_rt(n, *body);
        },
        ExprKindM::Let { name, val, next } => {
            lemma_rt(n, *val);
            let n1 = enc(false, false, true, n, *val).1;
            lemma_rt(n1, *next);
        },
        _ => {},
    }
}

#[verifier::spinoff_prover]
#[verifier::rlimit(100)]
proof fn lemma_rt_pair(n: u64, e: ExprM)
    requires
        wf(e),
        e.data is Ann || e.data is Sub || e.data is Binary,
    ensures
        dec(enc(false, false, true, n, e).0) == Ok::<ExprM, DecodeErrorM>(norm(e)),
    decreases e, 0nat,
{
    lemma_tag_chars(0, 0);
    reveal(enc);
    reveal(dec);
    lemma_orig(e.range);
    let t = enc(false, false, true, n, e).0;
    lemma_branch_fixed(t->Ctr_1);
    match e.data {
        ExprKindM::Ann { expr, typ } => {
            lemma_rt(n, *expr);
            let n1 = enc(false, false, true, n, *expr).1;
            lemma_rt(n1, *typ);
        },
        ExprKindM::Sub { name, indx, redx, expr } => {
            lemma_u60_small(indx);
            lemma_u60_small(redx);
            lemma_rt(n, *expr);
        },
        ExprKindM::Binary { op, left, right } => {
            lemma_op_of(op);
            lemma_rt(n, *left);
            let n1 = enc(false, false, true, n, *left).1;
            lemma_rt(n1, *right);
        },
        _ => {},
    }
}

/// Decoding inverts quoted encoding: an expression that the packed format
/// holds comes back from its quoted encoding as itself, up to the names of
/// its binders (regenerated from their codes), the ranges of its
/// identifiers (those of their use), its erasure flags, curried
/// applications and desugared strings.
pub proof fn lemma_quoted_round_trip(e: ExprM)
    requires
        wf(e),
    ensures
        dec(encode_spec(true, e)) == Ok::<ExprM, DecodeErrorM>(norm(e)),
{
    lemma_rt(0, e);
}

proof fn lemma_rt(n: u64, e: ExprM)
    requires
        wf(e),
    ensures
        dec(enc(false, false, true, n, e).0) == Ok::<ExprM, DecodeErrorM>(norm(e)),
    decreases e, 1nat,
{
    match e.data {
        ExprKindM::All { .. } => lemma_rt_binder(n, e),
        ExprKindM::Lambda { .. } => lemma_rt_binder(n, e),
        ExprKindM::Let { .. } => lemma_rt_binder(n, e),
        ExprKindM::Ann { .. } => lemma_rt_pair(n, e),
        ExprKindM::Sub { .. } => lemma_rt_pair(n, e),
        ExprKindM::Binary { .. } => lemma_rt_pair(n, e),
        ExprKindM::App { .. } => lemma_rt_app(n, e),
        ExprKindM::Ctr { .. } => lemma_rt_spine(n, e),
        ExprKindM::Fun { .. } => lemma_rt_spine(n, e),
        ExprKindM::Str { val } => {
            reveal(enc);
            lemma_rt_str(e.range, val);
        },
        ExprKindM::Invalid => {},
        _ => lemma_rt_leaf(n, e),
    }
}

#[verifier::spinoff_prover]
#[verifier::rlimit(100)]
proof fn lemma_rt_str(r: Range, s: Seq<char>)
    requires
        range_fits(r),
    ensures
        dec(enc_str(false, true, r, s)) == Ok::<ExprM, DecodeErrorM>(str_norm(r, s)),
    decreases s.len(),
{
    reveal(enc_str);
    reveal(dec);
    reveal_with_fuel(dec_seq, 3);
    lemma_orig(r);
    reveal_strlit("String.nil");
    reveal_strlit("String.cons");
    reveal_strlit(".");
    let o = orig_of(false, r);
    if s.len() == 0 {
        let ts: Seq<TermM> = Seq::empty();
        lemma_quoted_spine(ctr_name_of("String.nil"@), o, ts);
        assert(seq![ctr_name_of("String.nil"@), o] + ts =~= seq![ctr_name_of("String.nil"@), o]);
        lemma_branch_spine(0, lift(seq![ctr_name_of("String.nil"@), o]));
        assert(("String.nil"@ + "."@).drop_last() =~= "String.nil"@);
        let sp = seq![ctr_name_of("String.nil"@), o];
        assert(lift(sp) == sp);
        assert(spine_items(sp) =~= Seq::<TermM>::empty());
        assert(dec_seq(Seq::<TermM>::empty()) == Ok::<Seq<ExprM>, DecodeErrorM>(Seq::empty()));
        assert(enc_str(false, true, r, s) == TermM::Ctr(tag_name(TermTag::Ctr(0)), sp));
        assert(crate::report::qualified_spec(sp[0]) == Ok::<Seq<char>, DecodeErrorM>("String.nil"@));
        assert(branch_of(tag_name(TermTag::Ctr(0)), sp) == 12);
        assert(dec(TermM::Ctr(tag_name(TermTag::Ctr(0)), sp)) == Ok::<ExprM, DecodeErrorM>(str_norm(r, s)));
    } else {
        lemma_rt_str(r, s.skip(1));
        let num = lifted_ctr(mode_tag(true, TermTag::NumU60), seq![o, TermM::U60(u60(s[0] as u64))]);
        let rest = enc_str(false, true, r, s.skip(1));
        let ts = seq![num, rest];
        lemma_tag_chars(0, 0);
        lemma_str_head(r, s.skip(1));
        lemma_branch_fixed(num->Ctr_1);
        assert(quoted_head(num));
        lemma_quoted_spine(ctr_name_of("String.cons"@), o, ts);
        assert(seq![ctr_name_of("String.cons"@), o] + ts =~= seq![ctr_name_of("String.cons"@), o, num, rest]);
        lemma_branch_spine(2, lift(seq![ctr_name_of("String.cons"@), o, num, rest]));
        assert(("String.cons"@ + "."@).drop_last() =~= "String.cons"@);
        let sp = seq![ctr_name_of("String.cons"@), o, num, rest];
        assert(lift(sp) == sp);
        assert(spine_items(sp) =~= ts);
        assert(enc_str(false, true, r, s) == TermM::Ctr(tag_name(TermTag::Ctr(2)), sp));
        assert(crate::report::qualified_spec(sp[0]) == Ok::<Seq<char>, DecodeErrorM>("String.cons"@));
        assert(ts.subrange(0, 1) =~= seq![num]);
        assert(seq![num].subrange(0, 0) =~= Seq::<TermM>::empty());
        assert(ts.subrange(0, 1) =~= seq![num]);
        assert(seq![num].subrange(0, 0) =~= Seq::<TermM>::empty());
        lemma_u60_small(u60(s[0] as u64));
        assert(dec(num) == Ok::<ExprM, DecodeErrorM>(ExprM { data: ExprKindM::NumU60 { numb: u60(s[0] as u64) }, range: r }));
        let x = ExprM { data: ExprKindM::NumU60 { numb: u60(s[0] as u64) }, range: r };
        let y = str_norm(r, s.skip(1));
        assert(Seq::<ExprM>::empty().push(x) =~= seq![x]);
        assert(seq![x].push(y) =~= seq![x, y]);
        assert(dec_seq(seq![num]) == Ok::<Seq<ExprM>, DecodeErrorM>(seq![x]));
        assert(ts[1] == rest);
        assert(dec_seq(ts) == Ok::<Seq<ExprM>, DecodeErrorM>(seq![x, y]));
        assert(branch_of(tag_name(TermTag::Ctr(2)), sp) == 12);
    }
}

proof fn lemma_rt_app(n: u64, e: ExprM)
    requires
        wf(e),
        e.data is App,
    ensures
        dec(enc(false, false, true, n, e).0) == Ok::<ExprM, DecodeErrorM>(norm(e)),
    decreases e, 0nat,
{
    reveal(enc);
    match e.data {
        ExprKindM::App { fun, args } => {
            lemma_rt(n, *fun);
            let (f, n1) = enc(false, false, true, n, *fun);
            lemma_rt_app_seq(e.range, f, n1, args, norm(*fun));
        },
        _ => {},
    }
}

proof fn lemma_rt_app_seq(r: Range, head: TermM, n: u64, s: Seq<AppBindingM>, hn: ExprM)
    requires
        range_fits(r),
        dec(head) == Ok::<ExprM, DecodeErrorM>(hn),
        forall|i: int| 0 <= i < s.len() ==> wf(#[trigger] s[i].data),
    ensures
        dec(enc_app(false, false, true, r, head, n, s).0) == Ok::<ExprM, DecodeErrorM>(
            norm_app(hn, r, s),
        ),
    decreases s, 0nat,
{
    lemma_tag_chars(0, 0);
    reveal(enc);
    reveal(dec);
    if s.len() > 0 {
        let init = s.subrange(0, s.len() - 1);
        let last = s[s.len() - 1];
        assert(forall|i: int| 0 <= i < init.len() ==> #[trigger] init[i] == s[i]);
        lemma_rt_app_seq(r, head, n, init, hn);
        let (acc, m) = enc_app(false, false, true, r, head, n, init);
        assert(wf(last.data));
        lemma_rt(m, last.data);
        lemma_orig(r);
        let t = enc(false, false, true, m, last.data).0;
        lemma_branch_fixed(seq![orig_of(false, r), acc, t]);
    }
}

proof fn lemma_rt_seq(n: u64, s: Seq<ExprM>)
    requires
        forall|i: int| 0 <= i < s.len() ==> wf(#[trigger] s[i]),
    ensures
        dec_seq(enc_args(false, false, true, n, s).0) == Ok::<Seq<ExprM>, DecodeErrorM>(norm_seq(s)),
        enc_args(false, false, true, n, s).0.len() == s.len(),
        forall|i: int|
            0 <= i < s.len() ==> quoted_head(#[trigger] enc_args(false, false, true, n, s).0[i]),
    decreases s, 0nat,
{
    reveal(enc);
    reveal(dec);
    reveal(dec_seq);
    if s.len() > 0 {
        let init = s.subrange(0, s.len() - 1);
        let last = s[s.len() - 1];
        assert(forall|i: int| 0 <= i < init.len() ==> #[trigger] init[i] == s[i]);
        lemma_rt_seq(n, init);
        let (ts, m) = enc_args(false, false, true, n, init);
        lemma_rt(m, last);
        lemma_head(m, last);
        let t = enc(false, false, true, m, last).0;
        assert(ts.push(t).subrange(0, ts.len() as int) =~= ts);
        assert(ts.push(t)[ts.len() as int] == t);
        assert(enc_args(false, false, true, n, s).0 == ts.push(t));
        assert(dec_seq(ts.push(t)) == Ok::<Seq<ExprM>, DecodeErrorM>(norm_seq(init).push(norm(last))));
        assert(norm_seq(s) == norm_seq(init).push(norm(last)));
        assert forall|i: int| 0 <= i < s.len() implies quoted_head(#[trigger] ts.push(t)[i]) by {
            if i < ts.len() {
                assert(ts.push(t)[i] == ts[i]);
            }
        }
    }
}

#[verifier::spinoff_prover]
#[verifier::rlimit(100)]
proof fn lemma_rt_spine(n: u64, e: ExprM)
    requires
        wf(e),
        e.data is Ctr || e.data is Fun,
    ensures
        dec(enc(false, false, true, n, e).0) == Ok::<ExprM, DecodeErrorM>(norm(e)),
    decreases e, 0nat,
{
    reveal(enc);
    reveal(dec);
    reveal_strlit(".");
    lemma_orig(e.range);
    let o = orig_of(false, e.range);
    let (name, args) = match e.data {
        ExprKindM::Ctr { name, args } => (name, args),
        ExprKindM::Fun { name, args } => (name, args),
        _ => (generated(Seq::empty()), Seq::empty()),
    };
    lemma_rt_seq(n, args);
    let ts = enc_args(false, false, true, n, args).0;
    let cn = ctr_name_of(name.data);
    lemma_quoted_spine(cn, o, ts);
    let spine = lift(seq![cn, o] + ts);
    lemma_branch_spine(args.len(), spine);
    assert((name.data + "."@).drop_last() =~= name.data);
    assert(dec_seq(spine_items(spine)) == (if is_lifted(spine) {
        dec_seq(spine[2]->Ctr_1)
    } else {
        dec_seq(spine.subrange(2, spine.len() as int))
    }));
    assert(enc(false, false, true, n, e).0 == TermM::Ctr(
        if e.data is Ctr { tag_name(TermTag::Ctr(args.len() as u64)) } else { tag_name(TermTag::Fun(args.len() as u64)) },
        spine,
    ));
    assert(crate::report::qualified_spec(spine[0]) == Ok::<Seq<char>, DecodeErrorM>(name.data));
}


/// What the round trip keeps node by node: every node keeps its range
/// (an application without arguments is its function), literals, holes and
/// type formers come back unchanged, and a binary operator keeps its
/// operator.
pub proof fn lemma_norm_node(e: ExprM)
    ensures
        !(e.data is App) ==> norm(e).range == e.range,
        e.data is App && e.data->App_args.len() > 0 ==> norm(e).range == e.range,
        e.data is NumU60 || e.data is NumF60 || e.data is Hole || e.data is Typ
            || e.data is NumTypeU60 || e.data is NumTypeF60 ==> norm(e) == e,
        e.data is Binary ==> norm(e).data is Binary && norm(e).data->Binary_op
            == e.data->Binary_op,
{
    match e.data {
        ExprKindM::Str { val } => {
            assert(str_norm(e.range, val).range == e.range);
        },
        ExprKindM::App { fun, args } => {
            if args.len() > 0 {
                assert(norm_app(norm(*fun), e.range, args).range == e.range);
            }
        },
        _ => {},
    }
}

} // verus!
