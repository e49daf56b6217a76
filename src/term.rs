//! The evaluator's term format, the rewrite rules built from it, and the
//! small builders that every encoder path shares.
use vstd::prelude::*;
use crate::range::{Range, pack_range};
use crate::text::{decimal, joined, numbered};

verus! {

/// A term of the evaluator: a variable, a lambda, a tagged constructor
/// application, or a 60-bit number (unsigned, or the bits of a float).
#[derive(Debug)]
pub enum Term {
    Var { name: String },
    Lam { name: String, body: Box<Term> },
    Ctr { name: String, args: Vec<Box<Term>> },
    U6O { numb: u64 },
    F6O { numb: u64 },
}

/// The mathematical value of a [`Term`].
pub enum TermM {
    Var(Seq<char>),
    Lam(Seq<char>, Box<TermM>),
    Ctr(Seq<char>, Seq<TermM>),
    U60(u64),
    F60(u64),
}

/// A rewrite rule: a left-hand side pattern and its replacement.
#[derive(Debug)]
pub struct Rule {
    pub lhs: Box<Term>,
    pub rhs: Box<Term>,
}

pub struct RuleM {
    pub lhs: TermM,
    pub rhs: TermM,
}

/// A rule set for the evaluator, with the strictness map of its
/// zero-argument heads.
#[derive(Debug)]
pub struct File {
    pub rules: Vec<Rule>,
    pub smaps: Vec<(String, Vec<bool>)>,
}

pub struct FileM {
    pub rules: Seq<RuleM>,
    pub smaps: Seq<(Seq<char>, Seq<bool>)>,
}

impl Term {
    pub open spec fn view(&self) -> TermM
        decreases self,
    {
        match self {
            Term::Var { name } => TermM::Var(name@),
            Term::Lam { name, body } => TermM::Lam(name@, Box::new(body.view())),
            Term::Ctr { name, args } => TermM::Ctr(
                name@,
                Seq::new(
                    args.len() as nat,
                    |i: int|
                        if 0 <= i < args.len() {
                            args[i].view()
                        } else {
                            TermM::U60(0)
                        },
                ),
            ),
            Term::U6O { numb } => TermM::U60(*numb),
            Term::F6O { numb } => TermM::F60(*numb),
        }
    }
}

impl Rule {
    pub open spec fn view(&self) -> RuleM {
        RuleM { lhs: self.lhs@, rhs: self.rhs@ }
    }
}

impl File {
    pub open spec fn view(&self) -> FileM {
        FileM {
            rules: self.rules@.map_values(|r: Rule| r@),
            smaps: self.smaps@.map_values(|p: (String, Vec<bool>)| (p.0@, p.1@)),
        }
    }
}

pub open spec fn views(s: Seq<Box<Term>>) -> Seq<TermM> {
    s.map_values(|t: Box<Term>| t@)
}

pub open spec fn rule_views(s: Seq<Rule>) -> Seq<RuleM> {
    s.map_values(|r: Rule| r@)
}

pub broadcast proof fn lemma_ctr_view(name: String, args: Vec<Box<Term>>)
    ensures
        #[trigger] (Term::Ctr { name, args })@ == TermM::Ctr(name@, views(args@)),
{
    assert((Term::Ctr { name, args })@->Ctr_1 =~= views(args@));
}

// Builders

/// Largest number of arguments of a constructor in the evaluator.
pub const MAX_ARITY: usize = 16;

/// The value of a number as the evaluator's 60-bit unsigned integer.
pub open spec fn u60(n: u64) -> u64 {
    n & 0xFFF_FFFF_FFFF_FFFFu64
}

pub proof fn lemma_u60_small(n: u64)
    ensures
        n < 0x1000_0000_0000_0000u64 ==> u60(n) == n,
        u60(n) < 0x1000_0000_0000_0000u64,
{
    assert(n < 0x1000_0000_0000_0000u64 ==> n & 0xFFF_FFFF_FFFF_FFFFu64 == n) by (bit_vector);
    assert(n & 0xFFF_FFFF_FFFF_FFFFu64 < 0x1000_0000_0000_0000u64) by (bit_vector);
}

pub open spec fn args_tag(n: nat) -> Seq<char> {
    "Kind.Term.args"@ + decimal(n)
}

/// Packs every argument past the first two into one `args` constructor when
/// the spine is longer than the evaluator's arity bound.
pub open spec fn lift(spine: Seq<TermM>) -> Seq<TermM> {
    if spine.len() > 16 {
        spine.take(2).push(TermM::Ctr(args_tag((spine.len() - 2) as nat), spine.skip(2)))
    } else {
        spine
    }
}

pub open spec fn lifted_ctr(head: Seq<char>, spine: Seq<TermM>) -> TermM {
    TermM::Ctr(head, lift(spine))
}

pub open spec fn ctr_name_of(name: Seq<char>) -> TermM {
    TermM::Ctr(name + "."@, Seq::empty())
}

pub open spec fn orig_var() -> TermM {
    TermM::Var("orig"@)
}

/// A range in a term: the bound variable `orig` on a rule's left-hand side,
/// else the packed range as a number.
pub open spec fn orig_of(lhs: bool, r: Range) -> TermM {
    if lhs {
        orig_var()
    } else {
        TermM::U60(u60(pack_range(r)))
    }
}

pub fn lift_spine(spine: Vec<Box<Term>>) -> (r: Vec<Box<Term>>)
    ensures
        views(r@) == lift(views(spine@)),
{
    let mut spine = spine;
    if spine.len() > MAX_ARITY {
        let ghost old_spine = views(spine@);
        let n = spine.len() - 2;
        let rest = spine.split_off(2);
        let name = numbered("Kind.Term.args", n as u64);
        proof {
            lemma_ctr_view(name, rest);
        }
        assert(views(rest@) =~= old_spine.skip(2));
        spine.push(Box::new(Term::Ctr { name, args: rest }));
        assert(views(spine@) =~= lift(old_spine));
        spine
    } else {
        spine
    }
}

pub fn mk_lifted_ctr(head: String, spine: Vec<Box<Term>>) -> (r: Box<Term>)
    ensures
        r@ == lifted_ctr(head@, views(spine@)),
{
    let args = lift_spine(spine);
    proof {
        lemma_ctr_view(head, args);
    }
    Box::new(Term::Ctr { name: head, args })
}

pub fn mk_ctr(name: String, args: Vec<Box<Term>>) -> (r: Box<Term>)
    ensures
        r@ == TermM::Ctr(name@, views(args@)),
{
    proof {
        lemma_ctr_view(name, args);
    }
    Box::new(Term::Ctr { name, args })
}

pub fn mk_var(ident: &str) -> (r: Box<Term>)
    ensures
        r@ == TermM::Var(ident@),
{
    Box::new(Term::Var { name: String::from_str(ident) })
}

pub fn mk_u60(numb: u64) -> (r: Box<Term>)
    ensures
        r@ == TermM::U60(u60(numb)),
{
    Box::new(Term::U6O { numb: numb & 0xFFF_FFFF_FFFF_FFFFu64 })
}

pub fn mk_single_ctr(head: String) -> (r: Box<Term>)
    ensures
        r@ == TermM::Ctr(head@, Seq::empty()),
{
    let r = Box::new(Term::Ctr { name: head, args: Vec::new() });
    assert(r@->Ctr_1 =~= Seq::<TermM>::empty());
    r
}

/// The constructor that names a global: the name followed by a dot.
pub fn mk_ctr_name_from_str(ident: &str) -> (r: Box<Term>)
    ensures
        r@ == ctr_name_of(ident@),
{
    mk_single_ctr(joined(ident, "."))
}

pub fn range_to_num(lhs: bool, range: Range) -> (r: Box<Term>)
    ensures
        r@ == orig_of(lhs, range),
{
    if lhs {
        mk_var("orig")
    } else {
        mk_u60(range.encode().0)
    }
}

pub fn lam(name: &str, body: Box<Term>) -> (r: Box<Term>)
    ensures
        r@ == TermM::Lam(name@, Box::new(body@)),
{
    Box::new(Term::Lam { name: String::from_str(name), body })
}

/// `[a, b] ++ rest`.
pub fn prepend2(a: Box<Term>, b: Box<Term>, rest: Vec<Box<Term>>) -> (r: Vec<Box<Term>>)
    ensures
        views(r@) == seq![a@, b@] + views(rest@),
{
    let mut rest = rest;
    let mut v: Vec<Box<Term>> = Vec::new();
    v.push(a);
    v.push(b);
    let ghost rv = rest@;
    v.append(&mut rest);
    assert(views(v@) =~= seq![a@, b@] + views(rv));
    v
}

/// `[a] ++ rest`.
pub fn prepend1(a: Box<Term>, rest: Vec<Box<Term>>) -> (r: Vec<Box<Term>>)
    ensures
        views(r@) == seq![a@] + views(rest@),
{
    let mut rest = rest;
    let mut v: Vec<Box<Term>> = Vec::new();
    v.push(a);
    let ghost rv = rest@;
    v.append(&mut rest);
    assert(views(v@) =~= seq![a@] + views(rv));
    v
}


/// Appends a rule to a rule set.
pub fn push_rule(file: &mut File, lhs: Box<Term>, rhs: Box<Term>)
    ensures
        final(file)@.rules == old(file)@.rules.push(RuleM { lhs: lhs@, rhs: rhs@ }),
        final(file)@.smaps == old(file)@.smaps,
{
    let ghost r0 = file.rules@;
    file.rules.push(Rule { lhs, rhs });
    assert(final(file)@.rules =~= old(file)@.rules.push(RuleM { lhs: lhs@, rhs: rhs@ }));
    assert(final(file)@.smaps =~= old(file)@.smaps);
}

/// A spine of one term.
pub fn spine1(a: Box<Term>) -> (r: Vec<Box<Term>>)
    ensures
        views(r@) == seq![a@],
{
    let mut v: Vec<Box<Term>> = Vec::new();
    v.push(a);
    assert(views(v@) =~= seq![a@]);
    v
}

/// A spine of two terms.
pub fn spine2(a: Box<Term>, b: Box<Term>) -> (r: Vec<Box<Term>>)
    ensures
        views(r@) == seq![a@, b@],
{
    let mut v: Vec<Box<Term>> = Vec::new();
    v.push(a);
    v.push(b);
    assert(views(v@) =~= seq![a@, b@]);
    v
}

/// A spine of three terms.
pub fn spine3(a: Box<Term>, b: Box<Term>, c: Box<Term>) -> (r: Vec<Box<Term>>)
    ensures
        views(r@) == seq![a@, b@, c@],
{
    let mut v: Vec<Box<Term>> = Vec::new();
    v.push(a);
    v.push(b);
    v.push(c);
    assert(views(v@) =~= seq![a@, b@, c@]);
    v
}

/// A spine of four terms.
pub fn spine4(a: Box<Term>, b: Box<Term>, c: Box<Term>, d: Box<Term>) -> (r: Vec<Box<Term>>)
    ensures
        views(r@) == seq![a@, b@, c@, d@],
{
    let mut v: Vec<Box<Term>> = Vec::new();
    v.push(a);
    v.push(b);
    v.push(c);
    v.push(d);
    assert(views(v@) =~= seq![a@, b@, c@, d@]);
    v
}

/// A spine of five terms.
pub fn spine5(a: Box<Term>, b: Box<Term>, c: Box<Term>, d: Box<Term>, e: Box<Term>) -> (r: Vec<
    Box<Term>,
>)
    ensures
        views(r@) == seq![a@, b@, c@, d@, e@],
{
    let mut v: Vec<Box<Term>> = Vec::new();
    v.push(a);
    v.push(b);
    v.push(c);
    v.push(d);
    v.push(e);
    assert(views(v@) =~= seq![a@, b@, c@, d@, e@]);
    v
}

} // verus!
