//! Lowering of expressions into evaluator terms, in quoted mode (every node
//! an explicit, decodable constructor) or in evaluated mode (reduced tags,
//! plain variables and direct calls into a function's apply form).
use vstd::prelude::*;
use crate::expr::{
    AppBindingM, Expr, ExprKind, ExprKindM, ExprM, bindings_view, boxes_view, lemma_app_args_view,
    lemma_ctr_args_view, lemma_fun_args_view, no_err,
};
use crate::ident::{Ident, name_code};
use crate::range::{Range, pack_range};
use crate::tags::{TermTag, eval_ctr, hoas_f, mode_tag, operator_name, operator_to_constructor};
use crate::term::{
    Term, TermM, ctr_name_of, lam, lifted_ctr, mk_ctr, mk_ctr_name_from_str, mk_lifted_ctr, mk_single_ctr,
    mk_u60, mk_var, orig_of, prepend1, prepend2, range_to_num, spine1, spine2, spine3, spine4, spine5,
    u60, views,
};

verus! {

/// The pattern variable counter after one more variable.
pub open spec fn inc(n: u64) -> u64 {
    if n < u64::MAX {
        (n + 1) as u64
    } else {
        n
    }
}

pub open spec fn code_term(name: Seq<char>) -> TermM {
    TermM::U60(u60(name_code(name) as u64))
}

/// A variable in quoted position: the variable, re-tagged with the range
/// where it is used.
pub open spec fn set_origin_of(r: Range, name: Seq<char>) -> TermM {
    lifted_ctr("Kind.Term.set_origin"@, seq![TermM::U60(u60(pack_range(r))), TermM::Var(name)])
}

/// A string literal, as the chain of `String.cons` / `String.nil`
/// constructors of its character codes.
#[verifier::opaque]
pub open spec fn enc_str(lhs: bool, q: bool, r: Range, s: Seq<char>) -> TermM
    decreases s.len(),
{
    let o = orig_of(lhs, r);
    if s.len() == 0 {
        lifted_ctr(mode_tag(q, TermTag::Ctr(0)), seq![ctr_name_of("String.nil"@), o])
    } else {
        lifted_ctr(
            mode_tag(q, TermTag::Ctr(2)),
            seq![
                ctr_name_of("String.cons"@),
                o,
                lifted_ctr(mode_tag(q, TermTag::NumU60), seq![o, TermM::U60(u60(s[0] as u64))]),
                enc_str(lhs, q, r, s.skip(1)),
            ],
        )
    }
}

/// The encoding of an expression, and the pattern variable counter after it.
///
/// `lr` numbers variables as pattern variables, `lhs` stands the expression
/// on a rule's left-hand side (ranges become the variable `orig`), `q`
/// selects quoted mode.
#[verifier::opaque]
pub open spec fn enc(lr: bool, lhs: bool, q: bool, n: u64, e: ExprM) -> (TermM, u64)
    decreases e,
{
    let o = orig_of(lhs, e.range);
    match e.data {
        ExprKindM::Typ => (lifted_ctr(mode_tag(q, TermTag::Typ), seq![o]), n),
        ExprKindM::NumTypeU60 => (lifted_ctr(mode_tag(q, TermTag::U60), seq![o]), n),
        ExprKindM::NumTypeF60 => (lifted_ctr(mode_tag(q, TermTag::F60), seq![o]), n),
        ExprKindM::Var { name } => if q && !lhs {
            (set_origin_of(e.range, name.data), n)
        } else if lr {
            (
                lifted_ctr(
                    mode_tag(q, TermTag::Var),
                    seq![o, code_term(name.data), TermM::U60(u60(n))],
                ),
                inc(n),
            )
        } else {
            (TermM::Var(name.data), n)
        },
        ExprKindM::All { param, typ, body, .. } => {
            let (t1, n1) = enc(lr, lhs, q, n, *typ);
            let (t2, n2) = enc(lr, lhs, q, n1, *body);
            (
                lifted_ctr(
                    mode_tag(q, TermTag::All),
                    seq![o, code_term(param.data), t1, TermM::Lam(param.data, Box::new(t2))],
                ),
                n2,
            )
        },
        ExprKindM::Lambda { param, body, .. } => {
            let (t1, n1) = enc(lr, lhs, q, n, *body);
            (
                lifted_ctr(
                    mode_tag(q, TermTag::Lambda),
                    seq![o, code_term(param.data), TermM::Lam(param.data, Box::new(t1))],
                ),
                n1,
            )
        },
        ExprKindM::App { fun, args } => {
            let (f, n1) = enc(lr, lhs, q, n, *fun);
            enc_app(lr, lhs, q, e.range, f, n1, args)
        },
        ExprKindM::Ctr { name, args } => {
            let (ts, n1) = enc_args(lr, lhs, q, n, args);
            (
                lifted_ctr(
                    mode_tag(q, TermTag::Ctr(args.len() as u64)),
                    seq![ctr_name_of(name.data), o] + ts,
                ),
                n1,
            )
        },
        ExprKindM::Fun { name, args } => {
            let (ts, n1) = enc_args(lr, lhs, q, n, args);
            if q {
                (
                    lifted_ctr(
                        mode_tag(q, TermTag::Fun(args.len() as u64)),
                        seq![ctr_name_of(name.data), o] + ts,
                    ),
                    n1,
                )
            } else {
                (TermM::Ctr(hoas_f(name.data), seq![o] + ts), n1)
            }
        },
        ExprKindM::Let { name, val, next } => {
            let (t1, n1) = enc(lr, lhs, q, n, *val);
            let (t2, n2) = enc(lr, lhs, q, n1, *next);
            (
                TermM::Ctr(
                    mode_tag(q, TermTag::Let),
                    seq![o, code_term(name.data), t1, TermM::Lam(name.data, Box::new(t2))],
                ),
                n2,
            )
        },
        ExprKindM::Ann { expr, typ } => {
            let (t1, n1) = enc(lr, lhs, q, n, *expr);
            let (t2, n2) = enc(lr, lhs, q, n1, *typ);
            (TermM::Ctr(mode_tag(q, TermTag::Ann), seq![o, t1, t2]), n2)
        },
        ExprKindM::Sub { name, indx, redx, expr } => {
            let (t1, n1) = enc(lr, lhs, q, n, *expr);
            (
                TermM::Ctr(
                    mode_tag(q, TermTag::Sub),
                    seq![
                        o,
                        code_term(name.data),
                        TermM::U60(u60(indx)),
                        TermM::U60(u60(redx)),
                        t1,
                    ],
                ),
                n1,
            )
        },
        ExprKindM::NumU60 { numb } => (
            lifted_ctr(mode_tag(q, TermTag::NumU60), seq![o, TermM::U60(u60(numb))]),
            n,
        ),
        ExprKindM::NumF60 { numb } => (
            lifted_ctr(mode_tag(q, TermTag::NumF60), seq![o, TermM::F60(numb)]),
            n,
        ),
        ExprKindM::Binary { op, left, right } => {
            let (t1, n1) = enc(lr, lhs, q, n, *left);
            let (t2, n2) = enc(lr, lhs, q, n1, *right);
            (
                lifted_ctr(
                    mode_tag(q, TermTag::Binary),
                    seq![o, TermM::Ctr(operator_name(op), Seq::empty()), t1, t2],
                ),
                n2,
            )
        },
        ExprKindM::Hole { num } => (
            lifted_ctr(mode_tag(q, TermTag::Hole), seq![o, TermM::U60(u60(num))]),
            n,
        ),
        ExprKindM::Str { val } => (enc_str(lhs, q, e.range, val), n),
        ExprKindM::Hlp { .. } => (lifted_ctr(mode_tag(q, TermTag::Hlp), seq![o]), n),
        ExprKindM::Invalid => (TermM::U60(0), n),
    }
}

/// The encodings of a list of expressions, left to right, threading the
/// pattern variable counter.
pub open spec fn enc_args(lr: bool, lhs: bool, q: bool, n: u64, s: Seq<ExprM>) -> (
    Seq<TermM>,
    u64,
)
    decreases s,
{
    if s.len() == 0 {
        (Seq::empty(), n)
    } else {
        let (ts, m) = enc_args(lr, lhs, q, n, s.subrange(0, s.len() - 1));
        let (t, k) = enc(lr, lhs, q, m, s[s.len() - 1]);
        (ts.push(t), k)
    }
}

/// An application, one binary `app` node per argument, leftmost innermost.
pub open spec fn enc_app(
    lr: bool,
    lhs: bool,
    q: bool,
    r: Range,
    head: TermM,
    n: u64,
    s: Seq<AppBindingM>,
) -> (TermM, u64)
    decreases s,
{
    if s.len() == 0 {
        (head, n)
    } else {
        let (acc, m) = enc_app(lr, lhs, q, r, head, n, s.subrange(0, s.len() - 1));
        let (t, k) = enc(lr, lhs, q, m, s[s.len() - 1].data);
        (lifted_ctr(mode_tag(q, TermTag::App), seq![orig_of(lhs, r), acc, t]), k)
    }
}

proof fn lemma_enc_args_step(lr: bool, lhs: bool, q: bool, n: u64, s: Seq<ExprM>, i: int)
    requires
        0 <= i < s.len(),
    ensures
        enc_args(lr, lhs, q, n, s.take(i + 1)) == (
            enc_args(lr, lhs, q, n, s.take(i)).0.push(
                enc(lr, lhs, q, enc_args(lr, lhs, q, n, s.take(i)).1, s[i]).0,
            ),
            enc(lr, lhs, q, enc_args(lr, lhs, q, n, s.take(i)).1, s[i]).1,
        ),
{
    reveal(enc);
    assert(s.take(i + 1).subrange(0, i) =~= s.take(i));
    assert(s.take(i + 1)[i] == s[i]);
    assert(s.take(i + 1).len() == i + 1);
}

proof fn lemma_enc_app_step(
    lr: bool,
    lhs: bool,
    q: bool,
    r: Range,
    head: TermM,
    n: u64,
    s: Seq<AppBindingM>,
    i: int,
)
    requires
        0 <= i < s.len(),
    ensures
        enc_app(lr, lhs, q, r, head, n, s.take(i + 1)) == (
            lifted_ctr(
                mode_tag(q, TermTag::App),
                seq![
                    orig_of(lhs, r),
                    enc_app(lr, lhs, q, r, head, n, s.take(i)).0,
                    enc(lr, lhs, q, enc_app(lr, lhs, q, r, head, n, s.take(i)).1, s[i].data).0,
                ],
            ),
            enc(lr, lhs, q, enc_app(lr, lhs, q, r, head, n, s.take(i)).1, s[i].data).1,
        ),
{
    reveal(enc);
    assert(s.take(i + 1).subrange(0, i) =~= s.take(i));
    assert(s.take(i + 1)[i] == s[i]);
    assert(s.take(i + 1).len() == i + 1);
}


/// The number of variables in an expression.
pub open spec fn var_count(e: ExprM) -> nat
    decreases e,
{
    match e.data {
        ExprKindM::Var { .. } => 1,
        ExprKindM::All { typ, body, .. } => var_count(*typ) + var_count(*body),
        ExprKindM::Lambda { body, .. } => var_count(*body),
        ExprKindM::App { fun, args } => var_count(*fun) + app_var_count(args),
        ExprKindM::Ctr { args, .. } => seq_var_count(args),
        ExprKindM::Fun { args, .. } => seq_var_count(args),
        ExprKindM::Let { val, next, .. } => var_count(*val) + var_count(*next),
        ExprKindM::Ann { expr, typ } => var_count(*expr) + var_count(*typ),
        ExprKindM::Sub { expr, .. } => var_count(*expr),
        ExprKindM::Binary { left, right, .. } => var_count(*left) + var_count(*right),
        _ => 0,
    }
}

pub open spec fn seq_var_count(s: Seq<ExprM>) -> nat
    decreases s,
{
    if s.len() == 0 {
        0
    } else {
        seq_var_count(s.subrange(0, s.len() - 1)) + var_count(s[s.len() - 1])
    }
}

pub open spec fn app_var_count(s: Seq<AppBindingM>) -> nat
    decreases s,
{
    if s.len() == 0 {
        0
    } else {
        app_var_count(s.subrange(0, s.len() - 1)) + var_count(s[s.len() - 1].data)
    }
}

/// Where variables are numbered, the counter advances by one per variable.
proof fn lemma_enc_count(lhs: bool, q: bool, n: u64, e: ExprM)
    requires
        !(q && !lhs),
        n + var_count(e) <= u64::MAX,
    ensures
        enc(true, lhs, q, n, e).1 == n + var_count(e),
    decreases e,
{
    reveal(enc);
    match e.data {
        ExprKindM::All { typ, body, .. } => {
            lemma_enc_count(lhs, q, n, *typ);
            lemma_enc_count(lhs, q, (n + var_count(*typ)) as u64, *body);
        },
        ExprKindM::Lambda { body, .. } => {
            lemma_enc_count(lhs, q, n, *body);
        },
        ExprKindM::App { fun, args } => {
            lemma_enc_count(lhs, q, n, *fun);
            let f = enc(true, lhs, q, n, *fun).0;
            lemma_enc_app_count(lhs, q, e.range, f, (n + var_count(*fun)) as u64, args);
        },
        ExprKindM::Ctr { args, .. } => {
            lemma_enc_args_count(lhs, q, n, args);
        },
        ExprKindM::Fun { args, .. } => {
            lemma_enc_args_count(lhs, q, n, args);
        },
        ExprKindM::Let { val, next, .. } => {
            lemma_enc_count(lhs, q, n, *val);
            lemma_enc_count(lhs, q, (n + var_count(*val)) as u64, *next);
        },
        ExprKindM::Ann { expr, typ } => {
            lemma_enc_count(lhs, q, n, *expr);
            lemma_enc_count(lhs, q, (n + var_count(*expr)) as u64, *typ);
        },
        ExprKindM::Sub { expr, .. } => {
            lemma_enc_count(lhs, q, n, *expr);
        },
        ExprKindM::Binary { left, right, .. } => {
            lemma_enc_count(lhs, q, n, *left);
            lemma_enc_count(lhs, q, (n + var_count(*left)) as u64, *right);
        },
        _ => {},
    }
}

proof fn lemma_enc_args_count(lhs: bool, q: bool, n: u64, s: Seq<ExprM>)
    requires
        !(q && !lhs),
        n + seq_var_count(s) <= u64::MAX,
    ensures
        enc_args(true, lhs, q, n, s).1 == n + seq_var_count(s),
        enc_args(true, lhs, q, n, s).0.len() == s.len(),
    decreases s,
{
    reveal(enc);
    if s.len() > 0 {
        let init = s.subrange(0, s.len() - 1);
        lemma_enc_args_count(lhs, q, n, init);
        lemma_enc_count(lhs, q, (n + seq_var_count(init)) as u64, s[s.len() - 1]);
    }
}

proof fn lemma_enc_app_count(lhs: bool, q: bool, r: Range, head: TermM, n: u64, s: Seq<AppBindingM>)
    requires
        !(q && !lhs),
        n + app_var_count(s) <= u64::MAX,
    ensures
        enc_app(true, lhs, q, r, head, n, s).1 == n + app_var_count(s),
    decreases s,
{
    reveal(enc);
    if s.len() > 0 {
        let init = s.subrange(0, s.len() - 1);
        lemma_enc_app_count(lhs, q, r, head, n, init);
        lemma_enc_count(lhs, q, (n + app_var_count(init)) as u64, s[s.len() - 1].data);
    }
}

/// Pattern variables are numbered left to right over all the patterns of a
/// rule, whatever their nesting, in every mode that numbers them (all but
/// quoted mode off a left-hand side, where variables keep their range): the `i`-th pattern is numbered from the
/// number of variables in the patterns before it, and the counter ends at
/// the number of variables in all of them.
pub proof fn lemma_pattern_numbering(lhs: bool, q: bool, s: Seq<ExprM>, i: int)
    requires
        !(q && !lhs),
        0 <= i < s.len(),
        seq_var_count(s) <= u64::MAX,
    ensures
        enc_args(true, lhs, q, 0, s).0[i] == enc(
            true,
            lhs,
            q,
            seq_var_count(s.take(i)) as u64,
            s[i],
        ).0,
        enc_args(true, lhs, q, 0, s).1 == seq_var_count(s),
    decreases s.len(),
{
    reveal(enc);
    let last = s.len() - 1;
    let init = s.subrange(0, last);
    lemma_seq_var_count_prefix(s, last);
    lemma_enc_args_count(lhs, q, 0, init);
    lemma_enc_args_count(lhs, q, 0, s);
    assert(init == s.take(last));
    if i < last {
        lemma_pattern_numbering(lhs, q, init, i);
        assert(init.take(i) == s.take(i));
        assert(init[i] == s[i]);
    }
}

proof fn lemma_seq_var_count_prefix(s: Seq<ExprM>, k: int)
    requires
        0 <= k <= s.len(),
    ensures
        seq_var_count(s.take(k)) <= seq_var_count(s),
    decreases s.len() - k,
{
    if k < s.len() {
        lemma_seq_var_count_prefix(s, k + 1);
        assert(s.take(k + 1).subrange(0, k) =~= s.take(k));
    } else {
        assert(s.take(k) =~= s);
    }
}

/// The encoding of an expression in the given mode, outside patterns.
pub open spec fn encode_spec(q: bool, e: ExprM) -> TermM {
    enc(false, false, q, 0, e).0
}

fn set_origin(range: Range, name: &Ident) -> (r: Box<Term>)
    ensures
        r@ == set_origin_of(range, name.data@),
{
    mk_lifted_ctr(
        String::from_str("Kind.Term.set_origin"),
        spine2(mk_u60(range.encode().0), mk_var(name.to_str())),
    )
}

/// Lowers a string literal into its `String.cons` / `String.nil` chain.
pub fn codegen_str_lit(lhs: bool, quote: bool, range: Range, input: &str) -> (r: Box<Term>)
    ensures
        r@ == enc_str(lhs, quote, range, input@),
{
    reveal(enc);
    reveal(enc_str);
    let len = input.unicode_len();
    let mut acc = mk_lifted_ctr(
        eval_ctr(quote, TermTag::Ctr(0)),
        spine2(mk_ctr_name_from_str("String.nil"), range_to_num(lhs, range)),
    );
    proof {
        assert(input@.skip(len as int).len() == 0);
    }
    let mut i: usize = len;
    while i > 0
        invariant
            i <= len,
            len == input@.len(),
            acc@ == enc_str(lhs, quote, range, input@.skip(i as int)),
        decreases i,
    {
        reveal(enc_str);
        i = i - 1;
        let c = input.get_char(i);
        let num = mk_lifted_ctr(
            eval_ctr(quote, TermTag::NumU60),
            spine2(range_to_num(lhs, range), mk_u60(c as u64)),
        );
        acc = mk_lifted_ctr(
            eval_ctr(quote, TermTag::Ctr(2)),
            spine4(mk_ctr_name_from_str("String.cons"), range_to_num(lhs, range), num, acc),
        );
        proof {
            assert(input@.skip(i as int).skip(1) =~= input@.skip(i + 1));
            assert(input@.skip(i as int)[0] == input@[i as int]);
        }
    }
    assert(input@.skip(0) =~= input@);
    acc
}

/// Lowers the kinds of expression that hold no other expression.
fn codegen_leaf(lhs: bool, quote: bool, expr: &Expr) -> (r: Box<Term>)
    requires
        expr.data is Typ || expr.data is NumTypeU60 || expr.data is NumTypeF60
            || expr.data is NumU60 || expr.data is NumF60 || expr.data is Hole
            || expr.data is Hlp || expr.data is Str,
    ensures
        forall|lr: bool, n: u64| #[trigger] enc(lr, lhs, quote, n, expr@) == (r@, n),
{
    reveal(enc);
    reveal(enc_str);
    match &expr.data {
        ExprKind::Typ => mk_lifted_ctr(
            eval_ctr(quote, TermTag::Typ),
            spine1(range_to_num(lhs, expr.range)),
        ),
        ExprKind::NumTypeU60 => mk_lifted_ctr(
            eval_ctr(quote, TermTag::U60),
            spine1(range_to_num(lhs, expr.range)),
        ),
        ExprKind::NumTypeF60 => mk_lifted_ctr(
            eval_ctr(quote, TermTag::F60),
            spine1(range_to_num(lhs, expr.range)),
        ),
        ExprKind::NumU60 { numb } => mk_lifted_ctr(
            eval_ctr(quote, TermTag::NumU60),
            spine2(range_to_num(lhs, expr.range), mk_u60(*numb)),
        ),
        ExprKind::NumF60 { numb } => mk_lifted_ctr(
            eval_ctr(quote, TermTag::NumF60),
            spine2(range_to_num(lhs, expr.range), Box::new(Term::F6O { numb: *numb })),
        ),
        ExprKind::Hole { num } => mk_lifted_ctr(
            eval_ctr(quote, TermTag::Hole),
            spine2(range_to_num(lhs, expr.range), mk_u60(*num)),
        ),
        ExprKind::Str { val } => codegen_str_lit(lhs, quote, expr.range, val.as_str()),
        _ => mk_lifted_ctr(eval_ctr(quote, TermTag::Hlp), spine1(range_to_num(lhs, expr.range))),
    }
}

fn codegen_var(lhs_rule: bool, lhs: bool, num: &mut u64, quote: bool, expr: &Expr) -> (r: Box<
    Term,
>)
    requires
        expr.data is Var,
    ensures
        (r@, *final(num)) == enc(lhs_rule, lhs, quote, *old(num), expr@),
{
    reveal(enc);
    reveal(enc_str);
    match &expr.data {
        ExprKind::Var { name } => {
            if quote && !lhs {
                set_origin(expr.range, name)
            } else if lhs_rule {
                let idx = *num;
                if *num < u64::MAX {
                    *num = *num + 1;
                }
                mk_lifted_ctr(
                    eval_ctr(quote, TermTag::Var),
                    spine3(range_to_num(lhs, expr.range), mk_u60(name.encode()), mk_u60(idx)),
                )
            } else {
                mk_var(name.to_str())
            }
        },
        _ => {
            proof {
                assert(false);
            }
            mk_u60(0)
        },
    }
}

fn codegen_all(lhs_rule: bool, lhs: bool, num: &mut u64, quote: bool, expr: &Expr) -> (r: Box<
    Term,
>)
    requires
        expr.data is All,
        no_err(expr@),
    ensures
        (r@, *final(num)) == enc(lhs_rule, lhs, quote, *old(num), expr@),
    decreases expr, 0nat,
{
    reveal(enc);
    reveal(enc_str);
    match &expr.data {
        ExprKind::All { param, typ, body, .. } => {
            let t1 = codegen_all_expr(lhs_rule, lhs, num, quote, typ);
            let t2 = codegen_all_expr(lhs_rule, lhs, num, quote, body);
            mk_lifted_ctr(
                eval_ctr(quote, TermTag::All),
                spine4(
                    range_to_num(lhs, expr.range),
                    mk_u60(param.encode()),
                    t1,
                    lam(param.to_str(), t2),
                ),
            )
        },
        _ => {
            proof {
                assert(false);
            }
            mk_u60(0)
        },
    }
}

fn codegen_lambda(lhs_rule: bool, lhs: bool, num: &mut u64, quote: bool, expr: &Expr) -> (r: Box<
    Term,
>)
    requires
        expr.data is Lambda,
        no_err(expr@),
    ensures
        (r@, *final(num)) == enc(lhs_rule, lhs, quote, *old(num), expr@),
    decreases expr, 0nat,
{
    reveal(enc);
    reveal(enc_str);
    match &expr.data {
        ExprKind::Lambda { param, body, .. } => {
            let t1 = codegen_all_expr(lhs_rule, lhs, num, quote, body);
            mk_lifted_ctr(
                eval_ctr(quote, TermTag::Lambda),
                spine3(range_to_num(lhs, expr.range), mk_u60(param.encode()), lam(param.to_str(), t1)),
            )
        },
        _ => {
            proof {
                assert(false);
            }
            mk_u60(0)
        },
    }
}

fn codegen_let(lhs_rule: bool, lhs: bool, num: &mut u64, quote: bool, expr: &Expr) -> (r: Box<
    Term,
>)
    requires
        expr.data is Let,
        no_err(expr@),
    ensures
        (r@, *final(num)) == enc(lhs_rule, lhs, quote, *old(num), expr@),
    decreases expr, 0nat,
{
    reveal(enc);
    reveal(enc_str);
    match &expr.data {
        ExprKind::Let { name, val, next } => {
            let t1 = codegen_all_expr(lhs_rule, lhs, num, quote, val);
            let t2 = codegen_all_expr(lhs_rule, lhs, num, quote, next);
            mk_ctr(
                eval_ctr(quote, TermTag::Let),
                spine4(range_to_num(lhs, expr.range), mk_u60(name.encode()), t1, lam(name.to_str(), t2)),
            )
        },
        _ => {
            proof {
                assert(false);
            }
            mk_u60(0)
        },
    }
}

fn codegen_ann(lhs_rule: bool, lhs: bool, num: &mut u64, quote: bool, expr: &Expr) -> (r: Box<
    Term,
>)
    requires
        expr.data is Ann,
        no_err(expr@),
    ensures
        (r@, *final(num)) == enc(lhs_rule, lhs, quote, *old(num), expr@),
    decreases expr, 0nat,
{
    reveal(enc);
    reveal(enc_str);
    match &expr.data {
        ExprKind::Ann { expr: inner, typ } => {
            let t1 = codegen_all_expr(lhs_rule, lhs, num, quote, inner);
            let t2 = codegen_all_expr(lhs_rule, lhs, num, quote, typ);
            mk_ctr(eval_ctr(quote, TermTag::Ann), spine3(range_to_num(lhs, expr.range), t1, t2))
        },
        _ => {
            proof {
                assert(false);
            }
            mk_u60(0)
        },
    }
}

fn codegen_sub(lhs_rule: bool, lhs: bool, num: &mut u64, quote: bool, expr: &Expr) -> (r: Box<
    Term,
>)
    requires
        expr.data is Sub,
        no_err(expr@),
    ensures
        (r@, *final(num)) == enc(lhs_rule, lhs, quote, *old(num), expr@),
    decreases expr, 0nat,
{
    reveal(enc);
    reveal(enc_str);
    match &expr.data {
        ExprKind::Sub { name, indx, redx, expr: inner } => {
            let t1 = codegen_all_expr(lhs_rule, lhs, num, quote, inner);
            mk_ctr(
                eval_ctr(quote, TermTag::Sub),
                spine5(
                    range_to_num(lhs, expr.range),
                    mk_u60(name.encode()),
                    mk_u60(*indx),
                    mk_u60(*redx),
                    t1,
                ),
            )
        },
        _ => {
            proof {
                assert(false);
            }
            mk_u60(0)
        },
    }
}

fn codegen_binary(lhs_rule: bool, lhs: bool, num: &mut u64, quote: bool, expr: &Expr) -> (r: Box<
    Term,
>)
    requires
        expr.data is Binary,
        no_err(expr@),
    ensures
        (r@, *final(num)) == enc(lhs_rule, lhs, quote, *old(num), expr@),
    decreases expr, 0nat,
{
    reveal(enc);
    reveal(enc_str);
    match &expr.data {
        ExprKind::Binary { op, left, right } => {
            let t1 = codegen_all_expr(lhs_rule, lhs, num, quote, left);
            let t2 = codegen_all_expr(lhs_rule, lhs, num, quote, right);
            mk_lifted_ctr(
                eval_ctr(quote, TermTag::Binary),
                spine4(
                    range_to_num(lhs, expr.range),
                    mk_single_ctr(operator_to_constructor(*op)),
                    t1,
                    t2,
                ),
            )
        },
        _ => {
            proof {
                assert(false);
            }
            mk_u60(0)
        },
    }
}

fn codegen_app(lhs_rule: bool, lhs: bool, num: &mut u64, quote: bool, expr: &Expr) -> (r: Box<
    Term,
>)
    requires
        expr.data is App,
        no_err(expr@),
    ensures
        (r@, *final(num)) == enc(lhs_rule, lhs, quote, *old(num), expr@),
    decreases expr, 0nat,
{
    reveal(enc);
    reveal(enc_str);
    let ghost n0 = *num;
    match &expr.data {
        ExprKind::App { fun, args } => {
            let ghost s = bindings_view(args@);
            proof {
                lemma_app_args_view(*expr);
            }
            let mut acc = codegen_all_expr(lhs_rule, lhs, num, quote, fun);
            let ghost f = acc@;
            let ghost n1 = *num;
            let mut i: usize = 0;
            while i < args.len()
                invariant
                    i <= args.len(),
                    expr.data == (ExprKind::App { fun: *fun, args: *args }),
                    s == bindings_view(args@),
                    expr@.data->App_args == s,
                    no_err(expr@),
                    f == enc(lhs_rule, lhs, quote, n0, fun@).0,
                    n1 == enc(lhs_rule, lhs, quote, n0, fun@).1,
                    (acc@, *num) == enc_app(lhs_rule, lhs, quote, expr.range, f, n1, s.take(i as int)),
                decreases args.len() - i,
            {
                proof {
                    lemma_enc_app_step(lhs_rule, lhs, quote, expr.range, f, n1, s, i as int);
                    assert(decreases_to!(*expr => expr.data));
                    assert(decreases_to!(expr.data => expr.data->App_args));
                    vstd::std_specs::vec::axiom_vec_index_decreases(expr.data->App_args, i as int);
                    assert(decreases_to!(expr.data->App_args => expr.data->App_args[i as int]));
                    assert(decreases_to!(*expr => *expr.data->App_args[i as int].data));
                    assert(no_err(s[i as int].data));
                    assert(s.take(i + 1).subrange(0, i as int) =~= s.take(i as int));
                }
                let t = codegen_all_expr(lhs_rule, lhs, num, quote, &args[i].data);
                acc = mk_lifted_ctr(
                    eval_ctr(quote, TermTag::App),
                    spine3(range_to_num(lhs, expr.range), acc, t),
                );
                i = i + 1;
            }
            assert(s.take(args.len() as int) =~= s);
            acc
        },
        _ => {
            proof {
                assert(false);
            }
            mk_u60(0)
        },
    }
}

/// Lowers the arguments of a constructor or a call, left to right.
pub(crate) fn codegen_args(
    lhs_rule: bool,
    lhs: bool,
    num: &mut u64,
    quote: bool,
    args: &Vec<Box<Expr>>,
) -> (r: Vec<Box<Term>>)
    requires
        forall|i: int| 0 <= i < args@.len() ==> no_err(#[trigger] boxes_view(args@)[i]),
    ensures
        (views(r@), *final(num)) == enc_args(lhs_rule, lhs, quote, *old(num), boxes_view(args@)),
    decreases args, 0nat,
{
    reveal(enc);
    reveal(enc_str);
    let ghost n0 = *num;
    let ghost s = boxes_view(args@);
    let mut out: Vec<Box<Term>> = Vec::new();
    let mut i: usize = 0;
    while i < args.len()
        invariant
            i <= args.len(),
            s == boxes_view(args@),
            forall|j: int| 0 <= j < args@.len() ==> no_err(#[trigger] s[j]),
            (views(out@), *num) == enc_args(lhs_rule, lhs, quote, n0, s.take(i as int)),
        decreases args.len() - i,
    {
        proof {
            lemma_enc_args_step(lhs_rule, lhs, quote, n0, s, i as int);
            vstd::std_specs::vec::axiom_vec_index_decreases(*args, i as int);
            assert(decreases_to!(*args => *args[i as int]));
            assert(no_err(s[i as int]));
            assert(s.take(i + 1).subrange(0, i as int) =~= s.take(i as int));
        }
        let t = codegen_all_expr(lhs_rule, lhs, num, quote, &args[i]);
        out.push(t);
        i = i + 1;
    }
    assert(s.take(args.len() as int) =~= s);
    out
}

fn codegen_ctr(lhs_rule: bool, lhs: bool, num: &mut u64, quote: bool, expr: &Expr) -> (r: Box<
    Term,
>)
    requires
        expr.data is Ctr,
        no_err(expr@),
    ensures
        (r@, *final(num)) == enc(lhs_rule, lhs, quote, *old(num), expr@),
    decreases expr, 0nat,
{
    reveal(enc);
    reveal(enc_str);
    match &expr.data {
        ExprKind::Ctr { name, args } => {
            proof {
                lemma_ctr_args_view(*expr);
                assert(decreases_to!(*expr => expr.data));
                assert(decreases_to!(expr.data => expr.data->Ctr_args));
            }
            let out = codegen_args(lhs_rule, lhs, num, quote, args);
            let head = eval_ctr(quote, TermTag::Ctr(args.len() as u64));
            mk_lifted_ctr(
                head,
                prepend2(mk_ctr_name_from_str(name.to_str()), range_to_num(lhs, expr.range), out),
            )
        },
        _ => {
            proof {
                assert(false);
            }
            mk_u60(0)
        },
    }
}

fn codegen_fun(lhs_rule: bool, lhs: bool, num: &mut u64, quote: bool, expr: &Expr) -> (r: Box<
    Term,
>)
    requires
        expr.data is Fun,
        no_err(expr@),
    ensures
        (r@, *final(num)) == enc(lhs_rule, lhs, quote, *old(num), expr@),
    decreases expr, 0nat,
{
    reveal(enc);
    reveal(enc_str);
    match &expr.data {
        ExprKind::Fun { name, args } => {
            proof {
                lemma_fun_args_view(*expr);
                assert(decreases_to!(*expr => expr.data));
                assert(decreases_to!(expr.data => expr.data->Fun_args));
            }
            let out = codegen_args(lhs_rule, lhs, num, quote, args);
            if quote {
                let head = eval_ctr(quote, TermTag::Fun(args.len() as u64));
                mk_lifted_ctr(
                    head,
                    prepend2(mk_ctr_name_from_str(name.to_str()), range_to_num(lhs, expr.range), out),
                )
            } else {
                let head = TermTag::HoasF(name.name.clone()).to_string();
                mk_ctr(head, prepend1(range_to_num(lhs, expr.range), out))
            }
        },
        _ => {
            proof {
                assert(false);
            }
            mk_u60(0)
        },
    }
}

/// Lowers an expression. See [`enc`] for the three flags; `num` is the
/// pattern variable counter.
pub fn codegen_all_expr(lhs_rule: bool, lhs: bool, num: &mut u64, quote: bool, expr: &Expr) -> (r:
    Box<Term>)
    requires
        no_err(expr@),
    ensures
        (r@, *final(num)) == enc(lhs_rule, lhs, quote, *old(num), expr@),
    decreases expr, 1nat,
{
    match &expr.data {
        ExprKind::Var { .. } => codegen_var(lhs_rule, lhs, num, quote, expr),
        ExprKind::All { .. } => codegen_all(lhs_rule, lhs, num, quote, expr),
        ExprKind::Lambda { .. } => codegen_lambda(lhs_rule, lhs, num, quote, expr),
        ExprKind::App { .. } => codegen_app(lhs_rule, lhs, num, quote, expr),
        ExprKind::Ctr { .. } => codegen_ctr(lhs_rule, lhs, num, quote, expr),
        ExprKind::Fun { .. } => codegen_fun(lhs_rule, lhs, num, quote, expr),
        ExprKind::Let { .. } => codegen_let(lhs_rule, lhs, num, quote, expr),
        ExprKind::Ann { .. } => codegen_ann(lhs_rule, lhs, num, quote, expr),
        ExprKind::Sub { .. } => codegen_sub(lhs_rule, lhs, num, quote, expr),
        ExprKind::Binary { .. } => codegen_binary(lhs_rule, lhs, num, quote, expr),
        ExprKind::Invalid => {
            proof {
                assert(false);
            }
            mk_u60(0)
        },
        _ => codegen_leaf(lhs, quote, expr),
    }
}

/// Encodes an expression outside patterns.
pub fn codegen_expr(quote: bool, expr: &Expr) -> (r: Box<Term>)
    requires
        no_err(expr@),
    ensures
        r@ == encode_spec(quote, expr@),
{
    let mut n: u64 = 0;
    codegen_all_expr(false, false, &mut n, quote, expr)
}

/// Encodes a pattern on a rule's left-hand side: ranges become the
/// variable `orig`, variables stay plain.
pub fn codegen_pattern(args: &mut u64, quote: bool, expr: &Expr) -> (r: Box<Term>)
    requires
        no_err(expr@),
    ensures
        (r@, *final(args)) == enc(false, true, quote, *old(args), expr@),
{
    codegen_all_expr(false, true, args, quote, expr)
}

} // verus!
