//! Compilation of a book into the evaluator's rule set: per entry, its
//! metadata rules, its two native entry points, two rules per pattern
//! rule, and its rule table; per family, the coverage data.
use vstd::prelude::*;
use crate::book::{Argument, Book, Entry, Family, Rule, book_ok, entry_ok, find_entry_spec, rule_ok};
use crate::encode::{code_term, codegen_args, codegen_expr, enc_args, encode_spec};
use crate::expr::{Expr, ExprKind, ExprKindM, ExprM, boxes_view, no_err};
use crate::ident::QualifiedIdent;
use crate::range::pack_range;
use crate::tags::{TermTag, eval_ctr, hoas_f, hoas_q, mode_tag};
use crate::term::{
    File, FileM, RuleM, Term, TermM, ctr_name_of, lam, lifted_ctr, mk_ctr, mk_ctr_name_from_str,
    mk_lifted_ctr, mk_single_ctr, mk_u60, mk_var, orig_var, prepend1, prepend2, push_rule,
    range_to_num, spine1, spine2, spine3, spine4, u60, views,
};
use crate::text::{decimal, numbered};

verus! {

// The terms that the rules are made of

pub open spec fn var_x(i: nat) -> TermM {
    TermM::Var("x"@ + decimal(i))
}

/// The variables `x0`, `x1`, ... standing for the arguments of a call.
pub open spec fn base_vars(n: nat) -> Seq<TermM> {
    Seq::new(n, |i: int| var_x(i as nat))
}

/// A string as the chain of `String.cons` / `String.nil` of its codes.
pub open spec fn str_term(s: Seq<char>) -> TermM
    decreases s.len(),
{
    if s.len() == 0 {
        TermM::Ctr("String.nil"@, Seq::empty())
    } else {
        TermM::Ctr("String.cons"@, seq![TermM::U60(u60(s[0] as u64)), str_term(s.skip(1))])
    }
}

/// A list as the chain of `List.cons` / `List.nil`.
pub open spec fn list_term(s: Seq<TermM>) -> TermM
    decreases s.len(),
{
    if s.len() == 0 {
        TermM::Ctr("List.nil"@, Seq::empty())
    } else {
        TermM::Ctr("List.cons"@, seq![s[0], list_term(s.skip(1))])
    }
}

/// The quoted type of an entry: its telescope folded into dependent
/// function types around the result type.
#[verifier::opaque]
pub open spec fn type_term(args: Seq<Argument>, typ: ExprM) -> TermM
    decreases args.len(),
{
    if args.len() == 0 {
        encode_spec(true, typ)
    } else {
        let a = args[0];
        lifted_ctr(
            mode_tag(true, TermTag::All),
            seq![
                TermM::U60(u60(pack_range(a.range))),
                code_term(a.name.data@),
                encode_spec(true, a.typ@),
                TermM::Lam(a.name.data@, Box::new(type_term(args.skip(1), typ))),
            ],
        )
    }
}

pub open spec fn keyed(key: Seq<char>, name: Seq<char>) -> TermM {
    TermM::Ctr(key, seq![ctr_name_of(name)])
}

pub open spec fn bool_term(b: bool) -> TermM {
    if b {
        TermM::Ctr("Bool.true"@, Seq::empty())
    } else {
        TermM::Ctr("Bool.false"@, Seq::empty())
    }
}

pub open spec fn rule_end_rhs(r: Rule) -> TermM {
    lifted_ctr(
        mode_tag(false, TermTag::Fun(r.pats@.len() as u64)),
        seq![ctr_name_of(r.name.name@), orig_var()] + base_vars(r.pats@.len()),
    )
}

/// The catch-all rules after an entry's first rule: any saturated call of
/// its query or apply form goes back through the generic call.
pub open spec fn rule_end_rules(r: Rule) -> Seq<RuleM> {
    let vars = seq![orig_var()] + base_vars(r.pats@.len());
    seq![
        RuleM { lhs: TermM::Ctr(hoas_q(r.name.name@), vars), rhs: rule_end_rhs(r) },
        RuleM { lhs: TermM::Ctr(hoas_f(r.name.name@), vars), rhs: rule_end_rhs(r) },
    ]
}

/// The patterns of a rule on its left-hand sides.
pub open spec fn pattern_terms(r: Rule) -> Seq<TermM> {
    enc_args(false, true, false, 0, boxes_view(r.pats@)).0
}

/// The two rules of a pattern rule: the query form rewrites to the quoted
/// body, the apply form to the evaluated body (the logging primitive's
/// apply form prints instead).
pub open spec fn rule_rules(r: Rule) -> Seq<RuleM> {
    let name = r.name.name@;
    let query = RuleM {
        lhs: TermM::Ctr(hoas_q(name), seq![orig_var()] + pattern_terms(r)),
        rhs: encode_spec(true, r.body@),
    };
    let apply = if name == "HVM.log"@ {
        RuleM {
            lhs: TermM::Ctr(
                hoas_f(name),
                seq![
                    orig_var(),
                    TermM::Var("a"@),
                    TermM::Var("r"@),
                    TermM::Var("log"@),
                    TermM::Var("ret"@),
                ],
            ),
            rhs: TermM::Ctr(
                "HVM.print"@,
                seq![TermM::Ctr("Kind.Term.show"@, seq![TermM::Var("log"@)]), TermM::Var("ret"@)],
            ),
        }
    } else {
        RuleM {
            lhs: TermM::Ctr(hoas_f(name), seq![orig_var()] + pattern_terms(r)),
            rhs: encode_spec(false, r.body@),
        }
    };
    seq![query, apply]
}

pub open spec fn rules_rules(rs: Seq<Rule>) -> Seq<RuleM>
    decreases rs.len(),
{
    if rs.len() == 0 {
        Seq::empty()
    } else {
        rules_rules(rs.drop_last()) + rule_rules(rs.last())
    }
}

/// The patterns of a rule in its rule table entry: pattern variables are
/// numbered left to right over all the patterns.
pub open spec fn table_patterns(r: Rule) -> Seq<TermM> {
    enc_args(true, false, false, 0, boxes_view(r.pats@)).0
}

#[verifier::opaque]
pub open spec fn rule_chain(r: Rule, ts: Seq<TermM>, i: nat) -> TermM
    decreases ts.len() - i,
{
    if i >= ts.len() {
        TermM::Ctr(
            "Kind.Rule.rhs"@,
            seq![
                TermM::Ctr(
                    "QT"@ + decimal(ts.len()),
                    seq![ctr_name_of(r.name.name@), TermM::U60(u60(pack_range(r.range)))] + ts,
                ),
            ],
        )
    } else {
        TermM::Ctr("Kind.Rule.lhs"@, seq![ts[i as int], rule_chain(r, ts, i + 1)])
    }
}

/// A rule's entry in the rule table: its patterns, left to right, ending
/// in the quoted call that the rule rewrites.
pub open spec fn rule_table_item(r: Rule) -> TermM {
    rule_chain(r, table_patterns(r), 0)
}

pub open spec fn rule_table(rs: Seq<Rule>) -> TermM {
    list_term(Seq::new(rs.len(), |i: int| rule_table_item(rs[i])))
}

/// The six rules that every entry has, whatever its rules.
pub open spec fn entry_head_rules(e: Entry, hash: u64) -> Seq<RuleM> {
    let name = e.name.name@;
    let n = e.args@.len();
    let call = seq![orig_var()] + base_vars(n);
    seq![
        RuleM { lhs: keyed("Kind.Axiom.NameOf"@, name), rhs: str_term(name) },
        RuleM {
            lhs: keyed("Kind.Axiom.OrigOf"@, name),
            rhs: TermM::U60(u60(pack_range(e.name.range))),
        },
        RuleM { lhs: keyed("Kind.Axiom.HashOf"@, name), rhs: TermM::U60(u60(hash)) },
        RuleM { lhs: keyed("Kind.Axiom.TypeOf"@, name), rhs: type_term(e.args@, e.typ@) },
        RuleM {
            lhs: lifted_ctr("Kind.Term.FN"@ + decimal(n), seq![ctr_name_of(name), orig_var()] + base_vars(n)),
            rhs: TermM::Ctr(hoas_f(name), call),
        },
        RuleM {
            lhs: TermM::Ctr("QT"@ + decimal(n), seq![ctr_name_of(name), orig_var()] + base_vars(n)),
            rhs: TermM::Ctr(hoas_q(name), call),
        },
    ]
}

/// All the rules of one entry; `hash` is the hash of its name.
#[verifier::opaque]
pub open spec fn entry_rules(e: Entry, hash: u64) -> Seq<RuleM> {
    entry_head_rules(e, hash) + rules_rules(e.rules@) + (if e.rules@.len() > 0 {
        rule_end_rules(e.rules@[0])
    } else {
        Seq::empty()
    }) + seq![RuleM { lhs: keyed("Kind.Axiom.RuleOf"@, e.name.name@), rhs: rule_table(e.rules@) }]
}

pub open spec fn entries_rules(es: Seq<Entry>, hs: Seq<u64>) -> Seq<RuleM>
    decreases es.len(),
{
    if es.len() == 0 {
        Seq::empty()
    } else {
        entries_rules(es.drop_last(), hs.drop_last()) + entry_rules(es.last(), hs[es.len() - 1])
    }
}

// Coverage

/// An entry whose coverage the checker program checks.
pub open spec fn covers(e: Entry) -> bool {
    e.rules@.len() > 0 && e.rules@[0].pats@.len() > 0 && !e.attrs.partial && !e.attrs.is_axiom
}

pub open spec fn cover_check_rule(name: Seq<char>) -> RuleM {
    RuleM { lhs: keyed("Kind.Axiom.CoverCheck"@, name), rhs: bool_term(true) }
}

pub open spec fn cover_checks(es: Seq<Entry>) -> Seq<RuleM>
    decreases es.len(),
{
    if es.len() == 0 {
        Seq::empty()
    } else {
        cover_checks(es.drop_last()) + if covers(es.last()) {
            seq![cover_check_rule(es.last().name.name@)]
        } else {
            Seq::empty()
        }
    }
}

/// The number of indices of a family: the arguments of its type entry
/// past its parameters.
pub open spec fn index_count(b: Book, f: Family) -> nat {
    match find_entry_spec(b.entrs@, f.name.name@) {
        Some(k) => if b.entrs@[k].args@.len() > f.parameters@.len() {
            (b.entrs@[k].args@.len() - f.parameters@.len()) as nat
        } else {
            0
        },
        None => 0,
    }
}

/// The arguments of a family's type in a coverage maker's pattern: its
/// parameters by name, then `x_0`, `x_1`, ... for its indices.
pub open spec fn family_vars(b: Book, f: Family) -> Seq<TermM> {
    Seq::new(f.parameters@.len(), |i: int| TermM::Var(f.parameters@[i].name.data@)) + Seq::new(
        index_count(b, f),
        |i: int| TermM::Var("x_"@ + decimal(i as nat)),
    )
}

pub open spec fn var_expr(a: Argument) -> ExprM {
    ExprM { data: ExprKindM::Var { name: a.name@ }, range: a.name.range }
}

/// A constructor applied to its arguments by name.
pub open spec fn ctr_expr(c: QualifiedIdent, args: Seq<Argument>) -> ExprM {
    ExprM {
        data: ExprKindM::Ctr { name: c@, args: Seq::new(args.len(), |i: int| var_expr(args[i])) },
        range: c.range,
    }
}

/// A coverage maker from the `i`-th argument of a constructor on: one
/// binder per argument around the fully applied constructor.
#[verifier::opaque]
pub open spec fn maker_from(c: QualifiedIdent, args: Seq<Argument>, i: nat) -> TermM
    decreases args.len() - i,
{
    if i >= args.len() {
        TermM::Ctr("Kind.Coverage.Maker.End"@, seq![encode_spec(false, ctr_expr(c, args))])
    } else {
        TermM::Ctr(
            "Kind.Coverage.Maker.Cons"@,
            seq![
                TermM::U60(u60(pack_range(args[i as int].range))),
                encode_spec(false, args[i as int].typ@),
                TermM::Lam(args[i as int].name.data@, Box::new(maker_from(c, args, i + 1))),
            ],
        )
    }
}

pub open spec fn compare_rule(c: Seq<char>) -> RuleM {
    RuleM {
        lhs: TermM::Ctr("Kind.Axiom.Compare"@, seq![ctr_name_of(c), ctr_name_of(c)]),
        rhs: bool_term(true),
    }
}

/// The coverage rules of one constructor of a family; none where the
/// constructor has no entry.
#[verifier::opaque]
pub open spec fn constructor_rules(b: Book, f: Family, c: QualifiedIdent) -> Seq<RuleM> {
    match find_entry_spec(b.entrs@, c.name@) {
        None => Seq::empty(),
        Some(k) => {
            let e = b.entrs@[k];
            let vars = family_vars(b, f);
            seq![
                RuleM {
                    lhs: TermM::Ctr(
                        "Kind.Coverage.Maker.Mk"@,
                        seq![
                            ctr_name_of(c.name@),
                            orig_var(),
                            lifted_ctr(
                                mode_tag(true, TermTag::Ctr(vars.len() as u64)),
                                seq![ctr_name_of(f.name.name@), orig_var()] + vars,
                            ),
                        ],
                    ),
                    rhs: TermM::Ctr(
                        "Maybe.some"@,
                        seq![maker_from(c, e.args@, f.parameters@.len())],
                    ),
                },
                compare_rule(c.name@),
                RuleM {
                    lhs: keyed("Kind.Axiom.ArgsCount"@, c.name@),
                    rhs: TermM::U60(u60(e.args@.len() as u64)),
                },
            ]
        },
    }
}

pub open spec fn constructors_rules(b: Book, f: Family, cs: Seq<QualifiedIdent>) -> Seq<RuleM>
    decreases cs.len(),
{
    if cs.len() == 0 {
        Seq::empty()
    } else {
        constructors_rules(b, f, cs.drop_last()) + constructor_rules(b, f, cs.last())
    }
}

pub open spec fn family_rules(b: Book, f: Family) -> Seq<RuleM> {
    seq![
        RuleM {
            lhs: keyed("Kind.Axiom.Family.Constructors"@, f.name.name@),
            rhs: TermM::Ctr(
                "Maybe.some"@,
                seq![
                    list_term(
                        Seq::new(
                            f.constructors@.len(),
                            |i: int| ctr_name_of(f.constructors@[i].name@),
                        ),
                    ),
                ],
            ),
        },
        RuleM {
            lhs: keyed("Kind.Axiom.Family.Params"@, f.name.name@),
            rhs: TermM::U60(u60(f.parameters@.len() as u64)),
        },
    ] + constructors_rules(b, f, f.constructors@)
}

pub open spec fn families_rules(b: Book, fs: Seq<Family>) -> Seq<RuleM>
    decreases fs.len(),
{
    if fs.len() == 0 {
        Seq::empty()
    } else {
        families_rules(b, fs.drop_last()) + family_rules(b, fs.last())
    }
}

/// The coverage data of a book.
pub open spec fn coverage_rules(b: Book) -> Seq<RuleM> {
    cover_checks(b.entrs@) + families_rules(b, b.families@)
}

/// The fallback facts: no coverage check, and "unknown" for comparisons,
/// coverage makers and constructor lists. They follow every specific fact,
/// so they answer only what no fact answers.
pub open spec fn default_rules() -> Seq<RuleM> {
    seq![
        RuleM {
            lhs: TermM::Ctr("Kind.Axiom.CoverCheck"@, seq![TermM::Var("_"@)]),
            rhs: bool_term(false),
        },
        RuleM {
            lhs: TermM::Ctr("Kind.Axiom.Compare"@, seq![TermM::Var("a"@), TermM::Var("b"@)]),
            rhs: bool_term(false),
        },
        RuleM {
            lhs: TermM::Ctr(
                "Kind.Coverage.Maker.Mk"@,
                seq![TermM::Var("cons"@), TermM::Var("a"@), TermM::Var("b"@)],
            ),
            rhs: TermM::Ctr("Maybe.none"@, Seq::empty()),
        },
        RuleM {
            lhs: TermM::Ctr("Kind.Axiom.Family.Constructors"@, seq![TermM::Var("_"@)]),
            rhs: TermM::Ctr("Maybe.none"@, Seq::empty()),
        },
    ]
}

pub open spec fn prelude_rules(b: Book, fns: Seq<String>) -> Seq<RuleM> {
    seq![
        RuleM {
            lhs: TermM::Ctr("Kind.Axiom.Functions"@, Seq::empty()),
            rhs: list_term(Seq::new(fns.len(), |i: int| ctr_name_of(fns[i]@))),
        },
        RuleM { lhs: TermM::Ctr("HoleInit"@, Seq::empty()), rhs: TermM::U60(u60(b.holes)) },
    ]
}

/// The rule set of a book; `hs` holds the hash of each entry's name.
#[verifier::opaque]
pub open spec fn book_file(b: Book, check_coverage: bool, fns: Seq<String>, hs: Seq<u64>) -> FileM {
    FileM {
        rules: prelude_rules(b, fns) + entries_rules(b.entrs@, hs) + (if check_coverage {
            coverage_rules(b)
        } else {
            Seq::empty()
        }) + default_rules(),
        smaps: prelude_smaps(),
    }
}

/// The strictness map of the two argument-less heads of the prelude.
pub open spec fn prelude_smaps() -> Seq<(Seq<char>, Seq<bool>)> {
    seq![("Kind.Axiom.Functions"@, Seq::<bool>::empty()), ("HoleInit"@, Seq::<bool>::empty())]
}

/// Encoding is deterministic: the rule set is a function of the book, the
/// coverage flag, the functions to check and the hashes of the entry names,
/// so encoding one book twice gives the same rules in the same order.
pub proof fn lemma_book_file_deterministic(
    b1: Book,
    b2: Book,
    check_coverage: bool,
    f1: Seq<String>,
    f2: Seq<String>,
    hs: Seq<u64>,
)
    requires
        b1 == b2,
        f1 == f2,
    ensures
        book_file(b1, check_coverage, f1, hs) == book_file(b2, check_coverage, f2, hs),
{
}

proof fn lemma_cover_checks_has(es: Seq<Entry>, i: int)
    requires
        0 <= i < es.len(),
        covers(es[i]),
    ensures
        cover_checks(es).contains(cover_check_rule(es[i].name.name@)),
    decreases es.len(),
{
    let last = es.len() - 1;
    let tail = if covers(es.last()) {
        seq![cover_check_rule(es.last().name.name@)]
    } else {
        Seq::empty()
    };
    assert(cover_checks(es) == cover_checks(es.drop_last()) + tail);
    if i == last {
        assert(cover_checks(es)[cover_checks(es.drop_last()).len() as int] == cover_check_rule(
            es[i].name.name@,
        ));
    } else {
        lemma_cover_checks_has(es.drop_last(), i);
        let k = choose|k: int|
            0 <= k < cover_checks(es.drop_last()).len() && cover_checks(es.drop_last())[k]
                == cover_check_rule(es[i].name.name@);
        assert(cover_checks(es)[k] == cover_check_rule(es[i].name.name@));
    }
}

/// The coverage switch: with coverage checking on, every entry that has a
/// rule with patterns and is neither partial nor postulated gets its
/// `CoverCheck` fact, and the coverage data comes before the fallback
/// facts; with it off, the rule set holds no coverage data at all, only the
/// fallback facts that answer "no" and "unknown".
pub proof fn lemma_coverage_toggle(b: Book, fns: Seq<String>, hs: Seq<u64>, i: int)
    requires
        0 <= i < b.entrs@.len(),
        covers(b.entrs@[i]),
    ensures
        book_file(b, true, fns, hs).rules.contains(cover_check_rule(b.entrs@[i].name.name@)),
        book_file(b, true, fns, hs).rules == prelude_rules(b, fns) + entries_rules(b.entrs@, hs)
            + coverage_rules(b) + default_rules(),
        book_file(b, false, fns, hs).rules == prelude_rules(b, fns) + entries_rules(b.entrs@, hs)
            + default_rules(),
{
    reveal(book_file);
    lemma_cover_checks_has(b.entrs@, i);
    let pre = prelude_rules(b, fns) + entries_rules(b.entrs@, hs);
    let cc = cover_checks(b.entrs@);
    let k = choose|k: int| 0 <= k < cc.len() && cc[k] == cover_check_rule(b.entrs@[i].name.name@);
    let all = pre + coverage_rules(b) + default_rules();
    assert(all[pre.len() + k] == cover_check_rule(b.entrs@[i].name.name@));
    assert(book_file(b, false, fns, hs).rules =~= pre + default_rules());
}

/// The heads of the coverage facts about a named global.
pub open spec fn coverage_key(name: Seq<char>) -> bool {
    name == "Kind.Axiom.CoverCheck"@ || name == "Kind.Axiom.Family.Constructors"@ || name
        == "Kind.Axiom.Family.Params"@ || name == "Kind.Coverage.Maker.Mk"@ || name
        == "Kind.Axiom.Compare"@ || name == "Kind.Axiom.ArgsCount"@
}

/// A coverage fact about a named global: a coverage head whose first
/// argument is a constructor.
pub open spec fn coverage_fact(t: TermM) -> bool {
    t is Ctr && coverage_key(t->Ctr_0) && t->Ctr_1.len() >= 1 && t->Ctr_1[0] is Ctr
}

spec fn cov_shape(n: Seq<char>) -> bool {
    n.len() > 11 && n[0] == 'K' && (n[5] == 'C' || (n[5] == 'A' && (n[11] == 'C' || n[11] == 'F'
        || n[11] == 'A')))
}

spec fn clear(rs: Seq<RuleM>) -> bool {
    forall|k: int| 0 <= k < rs.len() ==> !coverage_fact(#[trigger] rs[k].lhs)
}

proof fn lemma_key_shape(n: Seq<char>)
    ensures
        coverage_key(n) ==> cov_shape(n),
{
    reveal_strlit("Kind.Axiom.CoverCheck");
    reveal_strlit("Kind.Axiom.Family.Constructors");
    reveal_strlit("Kind.Axiom.Family.Params");
    reveal_strlit("Kind.Coverage.Maker.Mk");
    reveal_strlit("Kind.Axiom.Compare");
    reveal_strlit("Kind.Axiom.ArgsCount");
}

proof fn lemma_clear_concat(a: Seq<RuleM>, b: Seq<RuleM>)
    requires
        clear(a),
        clear(b),
    ensures
        clear(a + b),
{
    assert forall|k: int| 0 <= k < (a + b).len() implies !coverage_fact(#[trigger] (a + b)[k].lhs) by {
        if k < a.len() {
            assert((a + b)[k] == a[k]);
        } else {
            assert((a + b)[k] == b[k - a.len()]);
        }
    }
}

proof fn lemma_head_not_cov(name: Seq<char>, prefix: Seq<char>, args: Seq<TermM>)
    requires
        prefix.len() > 0,
        prefix[0] != 'K',
    ensures
        !coverage_fact(TermM::Ctr(prefix + name, args)),
{
    lemma_key_shape(prefix + name);
    assert((prefix + name)[0] == prefix[0]);
}

proof fn lemma_rules_clear(rs: Seq<Rule>)
    ensures
        clear(rules_rules(rs)),
    decreases rs.len(),
{
    if rs.len() > 0 {
        lemma_rules_clear(rs.drop_last());
        let r = rs.last();
        reveal_strlit("Q$");
        reveal_strlit("F$");
        let rr = rule_rules(r);
        lemma_head_not_cov(r.name.name@, "Q$"@, rr[0].lhs->Ctr_1);
        lemma_head_not_cov(r.name.name@, "F$"@, rr[1].lhs->Ctr_1);
        assert(clear(rr));
        lemma_clear_concat(rules_rules(rs.drop_last()), rr);
    }
}

proof fn lemma_entry_clear(e: Entry, h: u64)
    ensures
        clear(entry_rules(e, h)),
{
    reveal(entry_rules);
    let name = e.name.name@;
    let n = e.args@.len();
    reveal_strlit("Kind.Axiom.NameOf");
    reveal_strlit("Kind.Axiom.OrigOf");
    reveal_strlit("Kind.Axiom.HashOf");
    reveal_strlit("Kind.Axiom.TypeOf");
    reveal_strlit("Kind.Axiom.RuleOf");
    reveal_strlit("Kind.Term.FN");
    reveal_strlit("QT");
    reveal_strlit("Q$");
    reveal_strlit("F$");
    let head = entry_head_rules(e, h);
    lemma_key_shape("Kind.Axiom.NameOf"@);
    lemma_key_shape("Kind.Axiom.OrigOf"@);
    lemma_key_shape("Kind.Axiom.HashOf"@);
    lemma_key_shape("Kind.Axiom.TypeOf"@);
    lemma_key_shape("Kind.Axiom.RuleOf"@);
    lemma_key_shape("Kind.Term.FN"@ + decimal(n));
    assert(("Kind.Term.FN"@ + decimal(n))[5] == 'T');
    lemma_head_not_cov(decimal(n), "QT"@, head[5].lhs->Ctr_1);
    lemma_head_not_cov(name, "F$"@, head[4].rhs->Ctr_1);
    assert(clear(head));
    lemma_rules_clear(e.rules@);
    let ends = if e.rules@.len() > 0 {
        rule_end_rules(e.rules@[0])
    } else {
        Seq::empty()
    };
    if e.rules@.len() > 0 {
        let r = e.rules@[0];
        lemma_head_not_cov(r.name.name@, "Q$"@, ends[0].lhs->Ctr_1);
        lemma_head_not_cov(r.name.name@, "F$"@, ends[1].lhs->Ctr_1);
    }
    assert(clear(ends));
    let last = seq![RuleM { lhs: keyed("Kind.Axiom.RuleOf"@, name), rhs: rule_table(e.rules@) }];
    assert(clear(last));
    lemma_clear_concat(head, rules_rules(e.rules@));
    lemma_clear_concat(head + rules_rules(e.rules@), ends);
    lemma_clear_concat(head + rules_rules(e.rules@) + ends, last);
}

proof fn lemma_entries_clear(es: Seq<Entry>, hs: Seq<u64>)
    ensures
        clear(entries_rules(es, hs)),
    decreases es.len(),
{
    if es.len() > 0 {
        lemma_entries_clear(es.drop_last(), hs.drop_last());
        lemma_entry_clear(es.last(), hs[es.len() - 1]);
        lemma_clear_concat(entries_rules(es.drop_last(), hs.drop_last()), entry_rules(es.last(), hs[es.len() - 1]));
    }
}

/// With coverage checking off, no rule is a coverage fact about a named
/// global: no `CoverCheck`, family, coverage maker, comparison or
/// argument-count fact for any entry, family or constructor. Only the
/// fallback facts, whose arguments are variables, answer those queries.
pub proof fn lemma_coverage_off(b: Book, fns: Seq<String>, hs: Seq<u64>)
    ensures
        forall|k: int|
            0 <= k < book_file(b, false, fns, hs).rules.len() ==> !coverage_fact(
                #[trigger] book_file(b, false, fns, hs).rules[k].lhs,
            ),
{
    reveal(book_file);
    lemma_entries_clear(b.entrs@, hs);
    assert(clear(prelude_rules(b, fns)));
    assert(clear(default_rules()));
    lemma_clear_concat(prelude_rules(b, fns), entries_rules(b.entrs@, hs));
    lemma_clear_concat(prelude_rules(b, fns) + entries_rules(b.entrs@, hs), default_rules());
    assert(book_file(b, false, fns, hs).rules =~= prelude_rules(b, fns) + entries_rules(b.entrs@, hs)
        + default_rules());
}

// Executable compiler

fn base_vars_vec(n: usize) -> (r: Vec<Box<Term>>)
    ensures
        views(r@) == base_vars(n as nat),
{
    let mut v: Vec<Box<Term>> = Vec::new();
    let mut i: usize = 0;
    while i < n
        invariant
            i <= n,
            views(v@) =~= base_vars(i as nat),
        decreases n - i,
    {
        let ghost before = views(v@);
        let t = Box::new(Term::Var { name: numbered("x", i as u64) });
        assert(t@ == var_x(i as nat));
        v.push(t);
        assert(views(v@) =~= before.push(var_x(i as nat)));
        assert(base_vars((i + 1) as nat) =~= base_vars(i as nat).push(var_x(i as nat)));
        i = i + 1;
    }
    v
}

/// A string as the chain of `String.cons` / `String.nil` of its codes.
pub fn codegen_str(input: &str) -> (r: Box<Term>)
    ensures
        r@ == str_term(input@),
{
    let len = input.unicode_len();
    let mut acc = mk_single_ctr(String::from_str("String.nil"));
    assert(input@.skip(len as int).len() == 0);
    let mut i: usize = len;
    while i > 0
        invariant
            i <= len,
            len == input@.len(),
            acc@ == str_term(input@.skip(i as int)),
        decreases i,
    {
        i = i - 1;
        let c = input.get_char(i);
        acc = mk_ctr(String::from_str("String.cons"), spine2(mk_u60(c as u64), acc));
        proof {
            assert(input@.skip(i as int).skip(1) =~= input@.skip(i + 1));
            assert(input@.skip(i as int)[0] == input@[i as int]);
        }
    }
    assert(input@.skip(0) =~= input@);
    acc
}

/// A list of terms as the chain of `List.cons` / `List.nil`.
pub fn codegen_vec(exprs: Vec<Box<Term>>) -> (r: Box<Term>)
    ensures
        r@ == list_term(views(exprs@)),
{
    let ghost all = views(exprs@);
    let mut rest = exprs;
    let mut acc = mk_single_ctr(String::from_str("List.nil"));
    assert(all.skip(all.len() as int).len() == 0);
    while rest.len() > 0
        invariant
            views(rest@) == all.take(rest@.len() as int),
            rest@.len() <= all.len(),
            acc@ == list_term(all.skip(rest@.len() as int)),
        decreases rest@.len(),
    {
        let ghost k = rest@.len() - 1;
        let last = rest.pop().unwrap();
        proof {
            assert(all.take(k + 1)[k] == last@);
            assert(all.skip(k).skip(1) =~= all.skip(k + 1));
            assert(all.skip(k)[0] == all[k]);
            assert(views(rest@) =~= all.take(k));
        }
        acc = mk_ctr(String::from_str("List.cons"), spine2(last, acc));
    }
    assert(all.skip(0) =~= all);
    acc
}

fn type_step(arg: &Argument, body: Box<Term>) -> (r: Box<Term>)
    requires
        no_err(arg.typ@),
    ensures
        r@ == lifted_ctr(
            mode_tag(true, TermTag::All),
            seq![
                TermM::U60(u60(pack_range(arg.range))),
                code_term(arg.name.data@),
                encode_spec(true, arg.typ@),
                TermM::Lam(arg.name.data@, Box::new(body@)),
            ],
        ),
{
    mk_lifted_ctr(
        eval_ctr(true, TermTag::All),
        spine4(
            range_to_num(false, arg.range),
            mk_u60(arg.name.encode()),
            codegen_expr(true, &arg.typ),
            lam(arg.name.to_str(), body),
        ),
    )
}

/// The quoted type of an entry: its telescope folded into dependent
/// function types around the result type.
pub fn codegen_type(args: &Vec<Argument>, typ: &Expr) -> (r: Box<Term>)
    requires
        no_err(typ@),
        forall|i: int| 0 <= i < args@.len() ==> no_err(#[trigger] args@[i].typ@),
    ensures
        r@ == type_term(args@, typ@),
{
    reveal(type_term);
    let mut acc = codegen_expr(true, typ);
    let mut i: usize = args.len();
    assert(args@.skip(i as int).len() == 0);
    while i > 0
        invariant
            i <= args@.len(),
            forall|j: int| 0 <= j < args@.len() ==> no_err(#[trigger] args@[j].typ@),
            acc@ == type_term(args@.skip(i as int), typ@),
        decreases i,
    {
        reveal(type_term);
        i = i - 1;
        proof {
            assert(no_err(args@[i as int].typ@));
        }
        acc = type_step(&args[i], acc);
        proof {
            assert(args@.skip(i as int).skip(1) =~= args@.skip(i + 1));
            assert(args@.skip(i as int)[0] == args@[i as int]);
        }
    }
    assert(args@.skip(0) =~= args@);
    acc
}

/// The catch-all rules that follow an entry's first rule.
pub fn codegen_rule_end(file: &mut File, rule: &Rule)
    ensures
        final(file)@.rules == old(file)@.rules + rule_end_rules(*rule),
        final(file)@.smaps == old(file)@.smaps,
{
    let n = rule.pats.len();
    let lhs_q = mk_ctr(
        TermTag::HoasQ(rule.name.name.clone()).to_string(),
        prepend1(mk_var("orig"), base_vars_vec(n)),
    );
    let rhs_q = mk_lifted_ctr(
        eval_ctr(false, TermTag::Fun(n as u64)),
        prepend2(mk_ctr_name_from_str(rule.name.to_str()), mk_var("orig"), base_vars_vec(n)),
    );
    push_rule(file, lhs_q, rhs_q);
    let lhs_f = mk_ctr(
        TermTag::HoasF(rule.name.name.clone()).to_string(),
        prepend1(mk_var("orig"), base_vars_vec(n)),
    );
    let rhs_f = mk_lifted_ctr(
        eval_ctr(false, TermTag::Fun(n as u64)),
        prepend2(mk_ctr_name_from_str(rule.name.to_str()), mk_var("orig"), base_vars_vec(n)),
    );
    push_rule(file, lhs_f, rhs_f);
    assert(final(file)@.rules =~= old(file)@.rules + rule_end_rules(*rule));
}

fn query_rule(rule: &Rule) -> (r: (Box<Term>, Box<Term>))
    requires
        rule_ok(*rule),
    ensures
        (RuleM { lhs: r.0@, rhs: r.1@ }) == rule_rules(*rule)[0],
{
    let mut count: u64 = 0;
    let lhs_args = codegen_args(false, true, &mut count, false, &rule.pats);
    let lhs = mk_ctr(TermTag::HoasQ(rule.name.name.clone()).to_string(), prepend1(mk_var("orig"), lhs_args));
    (lhs, codegen_expr(true, &rule.body))
}

fn apply_rule(rule: &Rule) -> (r: (Box<Term>, Box<Term>))
    requires
        rule_ok(*rule),
    ensures
        (RuleM { lhs: r.0@, rhs: r.1@ }) == rule_rules(*rule)[1],
{
    if rule.name.name == String::from_str("HVM.log") {
        let lhs = mk_ctr(
            TermTag::HoasF(rule.name.name.clone()).to_string(),
            prepend1(mk_var("orig"), spine4(mk_var("a"), mk_var("r"), mk_var("log"), mk_var("ret"))),
        );
        let rhs = mk_ctr(
            String::from_str("HVM.print"),
            spine2(mk_ctr(String::from_str("Kind.Term.show"), spine1(mk_var("log"))), mk_var("ret")),
        );
        assert(lhs@->Ctr_1 =~= seq![
            orig_var(),
            TermM::Var("a"@),
            TermM::Var("r"@),
            TermM::Var("log"@),
            TermM::Var("ret"@),
        ]);
        (lhs, rhs)
    } else {
        let mut count: u64 = 0;
        let lhs_args = codegen_args(false, true, &mut count, false, &rule.pats);
        let lhs = mk_ctr(
            TermTag::HoasF(rule.name.name.clone()).to_string(),
            prepend1(mk_var("orig"), lhs_args),
        );
        (lhs, codegen_expr(false, &rule.body))
    }
}

/// The query and apply rules of one pattern rule.
pub fn codegen_rule(file: &mut File, rule: &Rule)
    requires
        rule_ok(*rule),
    ensures
        final(file)@.rules == old(file)@.rules + rule_rules(*rule),
        final(file)@.smaps == old(file)@.smaps,
{
    let (lhs, rhs) = query_rule(rule);
    push_rule(file, lhs, rhs);
    let (lhs, rhs) = apply_rule(rule);
    push_rule(file, lhs, rhs);
    assert(final(file)@.rules =~= old(file)@.rules + rule_rules(*rule));
}

/// A rule's entry in the rule table.
pub fn codegen_entry_rules(rule: &Rule) -> (r: Box<Term>)
    requires
        rule_ok(*rule),
    ensures
        r@ == rule_table_item(*rule),
{
    reveal(rule_chain);
    let ghost ts = table_patterns(*rule);
    let mut count: u64 = 0;
    let args = codegen_args(true, false, &mut count, false, &rule.pats);
    let n = args.len();
    let mut acc = mk_ctr(
        String::from_str("Kind.Rule.rhs"),
        spine1(
            mk_ctr(
                numbered("QT", n as u64),
                prepend2(mk_ctr_name_from_str(rule.name.to_str()), range_to_num(false, rule.range), args),
            ),
        ),
    );
    let mut count: u64 = 0;
    let mut rest = codegen_args(true, false, &mut count, false, &rule.pats);
    assert(views(rest@) =~= ts.take(rest@.len() as int));
    while rest.len() > 0
        invariant
            views(rest@) == ts.take(rest@.len() as int),
            rest@.len() <= ts.len(),
            acc@ == rule_chain(*rule, ts, rest@.len() as nat),
        decreases rest@.len(),
    {
        reveal(rule_chain);
        let ghost k = rest@.len() - 1;
        let last = rest.pop().unwrap();
        proof {
            assert(ts.take(k + 1)[k] == last@);
            assert(views(rest@) =~= ts.take(k));
        }
        acc = mk_ctr(String::from_str("Kind.Rule.lhs"), spine2(last, acc));
    }
    acc
}

/// The metadata rules and the two native entry points of an entry.
fn codegen_entry_head(file: &mut File, entry: &Entry, hash: u64)
    requires
        entry_ok(*entry),
    ensures
        final(file)@.rules == old(file)@.rules + entry_head_rules(*entry, hash),
        final(file)@.smaps == old(file)@.smaps,
{
    let name = entry.name.to_str();
    push_rule(
        file,
        mk_ctr(String::from_str("Kind.Axiom.NameOf"), spine1(mk_ctr_name_from_str(name))),
        codegen_str(name),
    );
    push_rule(
        file,
        mk_ctr(String::from_str("Kind.Axiom.OrigOf"), spine1(mk_ctr_name_from_str(name))),
        range_to_num(false, entry.name.range),
    );
    push_rule(
        file,
        mk_ctr(String::from_str("Kind.Axiom.HashOf"), spine1(mk_ctr_name_from_str(name))),
        mk_u60(hash),
    );
    push_rule(
        file,
        mk_ctr(String::from_str("Kind.Axiom.TypeOf"), spine1(mk_ctr_name_from_str(name))),
        codegen_type(&entry.args, &entry.typ),
    );
    let n = entry.args.len();
    push_rule(
        file,
        mk_lifted_ctr(
            numbered("Kind.Term.FN", n as u64),
            prepend2(mk_ctr_name_from_str(name), mk_var("orig"), base_vars_vec(n)),
        ),
        mk_ctr(TermTag::HoasF(entry.name.name.clone()).to_string(), prepend1(mk_var("orig"), base_vars_vec(n))),
    );
    push_rule(
        file,
        mk_ctr(numbered("QT", n as u64), prepend2(mk_ctr_name_from_str(name), mk_var("orig"), base_vars_vec(n))),
        mk_ctr(TermTag::HoasQ(entry.name.name.clone()).to_string(), prepend1(mk_var("orig"), base_vars_vec(n))),
    );
    assert(file@.rules =~= old(file)@.rules + entry_head_rules(*entry, hash));
}

/// All the rules of one entry; `hash` is the hash of its name.
pub fn codegen_entry(file: &mut File, entry: &Entry, hash: u64)
    requires
        entry_ok(*entry),
    ensures
        final(file)@.rules == old(file)@.rules + entry_rules(*entry, hash),
        final(file)@.smaps == old(file)@.smaps,
{
    reveal(entry_rules);
    let name = entry.name.to_str();
    codegen_entry_head(file, entry, hash);
    let ghost start = old(file)@.rules + entry_head_rules(*entry, hash);
    let mut i: usize = 0;
    while i < entry.rules.len()
        invariant
            i <= entry.rules@.len(),
            entry_ok(*entry),
            file@.rules == start + rules_rules(entry.rules@.take(i as int)),
            file@.smaps == old(file)@.smaps,
        decreases entry.rules@.len() - i,
    {
        proof {
            assert(entry.rules@.take(i + 1).drop_last() =~= entry.rules@.take(i as int));
            assert(rule_ok(entry.rules@[i as int]));
        }
        codegen_rule(file, &entry.rules[i]);
        proof {
            assert(start + rules_rules(entry.rules@.take(i as int)) + rule_rules(entry.rules@[i as int])
                =~= start + rules_rules(entry.rules@.take(i + 1)));
        }
        i = i + 1;
    }
    assert(entry.rules@.take(entry.rules@.len() as int) =~= entry.rules@);
    if entry.rules.len() > 0 {
        codegen_rule_end(file, &entry.rules[0]);
    }
    let mut items: Vec<Box<Term>> = Vec::new();
    let mut k: usize = 0;
    while k < entry.rules.len()
        invariant
            k <= entry.rules@.len(),
            entry_ok(*entry),
            views(items@) =~= Seq::new(k as nat, |j: int| rule_table_item(entry.rules@[j])),
        decreases entry.rules@.len() - k,
    {
        proof {
            assert(rule_ok(entry.rules@[k as int]));
        }
        let ghost before = views(items@);
        let t = codegen_entry_rules(&entry.rules[k]);
        items.push(t);
        assert(views(items@) =~= before.push(t@));
        k = k + 1;
    }
    push_rule(
        file,
        mk_ctr(String::from_str("Kind.Axiom.RuleOf"), spine1(mk_ctr_name_from_str(name))),
        codegen_vec(items),
    );
    assert(file@.rules =~= old(file)@.rules + entry_rules(*entry, hash));
}

/// The arguments of a family's type, by name, in a coverage maker.
fn family_vars_vec(book: &Book, family: &Family) -> (r: Vec<Box<Term>>)
    ensures
        views(r@) == family_vars(*book, *family),
{
    let ghost ps = family.parameters@;
    let mut v: Vec<Box<Term>> = Vec::new();
    let mut i: usize = 0;
    while i < family.parameters.len()
        invariant
            i <= ps.len(),
            ps == family.parameters@,
            views(v@) =~= Seq::new(i as nat, |j: int| TermM::Var(ps[j].name.data@)),
        decreases ps.len() - i,
    {
        let ghost before = views(v@);
        let t = Box::new(Term::Var { name: family.parameters[i].name.data.clone() });
        v.push(t);
        assert(views(v@) =~= before.push(t@));
        i = i + 1;
    }
    let plen = family.parameters.len();
    let extra: usize = match book.find_entry(family.name.to_str()) {
        Some(k) => if book.entrs[k].args.len() > plen {
            book.entrs[k].args.len() - plen
        } else {
            0
        },
        None => 0,
    };
    assert(extra == index_count(*book, *family));
    let ghost first = views(v@);
    let mut j: usize = 0;
    while j < extra
        invariant
            j <= extra,
            views(v@) =~= first + Seq::new(j as nat, |m: int| TermM::Var("x_"@ + decimal(m as nat))),
        decreases extra - j,
    {
        let ghost before = views(v@);
        let t = Box::new(Term::Var { name: numbered("x_", j as u64) });
        v.push(t);
        assert(views(v@) =~= before.push(t@));
        j = j + 1;
    }
    v
}

/// A constructor applied to its arguments by name.
fn ctr_of_args(c: &QualifiedIdent, args: &Vec<Argument>) -> (r: Expr)
    ensures
        r@ == ctr_expr(*c, args@),
        no_err(r@),
{
    let mut vars: Vec<Box<Expr>> = Vec::new();
    let mut i: usize = 0;
    while i < args.len()
        invariant
            i <= args@.len(),
            boxes_view(vars@) =~= Seq::new(i as nat, |j: int| var_expr(args@[j])),
        decreases args@.len() - i,
    {
        let ghost before = boxes_view(vars@);
        let v = Box::new(Expr { data: ExprKind::Var { name: args[i].name.copy() }, range: args[i].name.range });
        vars.push(v);
        assert(boxes_view(vars@) =~= before.push(v@));
        i = i + 1;
    }
    let r = Expr { data: ExprKind::Ctr { name: c.copy(), args: vars }, range: c.range };
    proof {
        crate::expr::lemma_ctr_args_view(r);
        assert(r@.data->Ctr_args =~= Seq::new(args@.len(), |j: int| var_expr(args@[j])));
        assert(r@ =~= ctr_expr(*c, args@));
        assert forall|j: int| 0 <= j < r@.data->Ctr_args.len() implies no_err(
            #[trigger] r@.data->Ctr_args[j],
        ) by {
            assert(r@.data->Ctr_args[j] == var_expr(args@[j]));
        }
    }
    r
}

/// The coverage maker of a constructor, from its `start`-th argument on.
fn codegen_maker(c: &QualifiedIdent, args: &Vec<Argument>, start: usize) -> (r: Box<Term>)
    requires
        forall|i: int| 0 <= i < args@.len() ==> no_err(#[trigger] args@[i].typ@),
    ensures
        r@ == maker_from(*c, args@, start as nat),
{
    reveal(maker_from);
    let e = ctr_of_args(c, args);
    let mut acc = mk_ctr(String::from_str("Kind.Coverage.Maker.End"), spine1(codegen_expr(false, &e)));
    let mut i: usize = args.len();
    while i > start
        invariant
            i <= args@.len(),
            forall|j: int| 0 <= j < args@.len() ==> no_err(#[trigger] args@[j].typ@),
            acc@ == maker_from(*c, args@, i as nat),
            start <= i || i == args@.len(),
        decreases i,
    {
        reveal(maker_from);
        i = i - 1;
        proof {
            assert(no_err(args@[i as int].typ@));
        }
        acc = mk_ctr(
            String::from_str("Kind.Coverage.Maker.Cons"),
            spine3(
                range_to_num(false, args[i].range),
                codegen_expr(false, &args[i].typ),
                lam(args[i].name.to_str(), acc),
            ),
        );
    }
    proof {
        reveal_with_fuel(maker_from, 1);
        if start as nat >= args@.len() {
            assert(maker_from(*c, args@, start as nat) == maker_from(*c, args@, i as nat));
        }
    }
    acc
}

fn compare_lhs(c: &QualifiedIdent) -> (r: Box<Term>)
    ensures
        r@ == compare_rule(c.name@).lhs,
{
    mk_ctr(
        String::from_str("Kind.Axiom.Compare"),
        spine2(mk_ctr_name_from_str(c.to_str()), mk_ctr_name_from_str(c.to_str())),
    )
}

/// The coverage rules of one constructor of a family.
fn codegen_constructor(file: &mut File, book: &Book, family: &Family, c: &QualifiedIdent)
    requires
        book_ok(*book),
    ensures
        final(file)@.rules == old(file)@.rules + constructor_rules(*book, *family, *c),
        final(file)@.smaps == old(file)@.smaps,
{
    reveal(constructor_rules);
    match book.find_entry(c.to_str()) {
        None => {
            assert(file@.rules =~= old(file)@.rules + constructor_rules(*book, *family, *c));
        },
        Some(k) => {
            let entry = &book.entrs[k];
            proof {
                assert(entry_ok(book.entrs@[k as int]));
            }
            let maker = codegen_maker(c, &entry.args, family.parameters.len());
            let vars = family_vars_vec(book, family);
            let nv = vars.len();
            let pat = mk_lifted_ctr(
                eval_ctr(true, TermTag::Ctr(nv as u64)),
                prepend2(mk_ctr_name_from_str(family.name.to_str()), mk_var("orig"), vars),
            );
            push_rule(
                file,
                mk_ctr(
                    String::from_str("Kind.Coverage.Maker.Mk"),
                    spine3(mk_ctr_name_from_str(c.to_str()), mk_var("orig"), pat),
                ),
                mk_ctr(String::from_str("Maybe.some"), spine1(maker)),
            );
            push_rule(file, compare_lhs(c), mk_single_ctr(String::from_str("Bool.true")));
            push_rule(
                file,
                mk_ctr(String::from_str("Kind.Axiom.ArgsCount"), spine1(mk_ctr_name_from_str(c.to_str()))),
                mk_u60(entry.args.len() as u64),
            );
            assert(file@.rules =~= old(file)@.rules + constructor_rules(*book, *family, *c));
        },
    }
}

/// The constructor list, the parameter count and the per-constructor
/// coverage rules of one family.
fn codegen_family(file: &mut File, book: &Book, family: &Family)
    requires
        book_ok(*book),
    ensures
        final(file)@.rules == old(file)@.rules + family_rules(*book, *family),
        final(file)@.smaps == old(file)@.smaps,
{
    let ghost cs = family.constructors@;
    let mut names: Vec<Box<Term>> = Vec::new();
    let mut i: usize = 0;
    while i < family.constructors.len()
        invariant
            i <= cs.len(),
            cs == family.constructors@,
            views(names@) =~= Seq::new(i as nat, |j: int| ctr_name_of(cs[j].name@)),
        decreases cs.len() - i,
    {
        let ghost before = views(names@);
        let t = mk_ctr_name_from_str(family.constructors[i].to_str());
        names.push(t);
        assert(views(names@) =~= before.push(t@));
        i = i + 1;
    }
    push_rule(
        file,
        mk_ctr(
            String::from_str("Kind.Axiom.Family.Constructors"),
            spine1(mk_ctr_name_from_str(family.name.to_str())),
        ),
        mk_ctr(String::from_str("Maybe.some"), spine1(codegen_vec(names))),
    );
    push_rule(
        file,
        mk_ctr(String::from_str("Kind.Axiom.Family.Params"), spine1(mk_ctr_name_from_str(family.name.to_str()))),
        mk_u60(family.parameters.len() as u64),
    );
    let ghost start = file@.rules;
    assert(start =~= old(file)@.rules + family_rules(*book, *family).take(2));
    let mut k: usize = 0;
    while k < family.constructors.len()
        invariant
            k <= cs.len(),
            cs == family.constructors@,
            book_ok(*book),
            file@.rules == start + constructors_rules(*book, *family, cs.take(k as int)),
            file@.smaps == old(file)@.smaps,
        decreases cs.len() - k,
    {
        proof {
            assert(cs.take(k + 1).drop_last() =~= cs.take(k as int));
        }
        codegen_constructor(file, book, family, &family.constructors[k]);
        proof {
            assert(start + constructors_rules(*book, *family, cs.take(k as int)) + constructor_rules(
                *book,
                *family,
                cs[k as int],
            ) =~= start + constructors_rules(*book, *family, cs.take(k + 1)));
        }
        k = k + 1;
    }
    assert(cs.take(cs.len() as int) =~= cs);
    assert(file@.rules =~= old(file)@.rules + family_rules(*book, *family));
}

/// The coverage data of a book: a check fact per entry that has
/// non-trivial rules and is neither partial nor postulated, then the data
/// of every family.
pub fn codegen_coverage(file: &mut File, book: &Book)
    requires
        book_ok(*book),
    ensures
        final(file)@.rules == old(file)@.rules + coverage_rules(*book),
        final(file)@.smaps == old(file)@.smaps,
{
    let ghost es = book.entrs@;
    let mut i: usize = 0;
    while i < book.entrs.len()
        invariant
            i <= es.len(),
            es == book.entrs@,
            file@.rules == old(file)@.rules + cover_checks(es.take(i as int)),
            file@.smaps == old(file)@.smaps,
        decreases es.len() - i,
    {
        let entry = &book.entrs[i];
        proof {
            assert(es.take(i + 1).drop_last() =~= es.take(i as int));
            assert(es.take(i + 1).last() == es[i as int]);
        }
        if entry.rules.len() > 0 && entry.rules[0].pats.len() > 0 && !entry.attrs.partial
            && !entry.attrs.is_axiom {
            push_rule(
                file,
                mk_ctr(String::from_str("Kind.Axiom.CoverCheck"), spine1(mk_ctr_name_from_str(entry.name.to_str()))),
                mk_single_ctr(String::from_str("Bool.true")),
            );
        }
        proof {
            assert(file@.rules =~= old(file)@.rules + cover_checks(es.take(i + 1)));
        }
        i = i + 1;
    }
    assert(es.take(es.len() as int) =~= es);
    let ghost fs = book.families@;
    let ghost start = file@.rules;
    let mut k: usize = 0;
    while k < book.families.len()
        invariant
            k <= fs.len(),
            fs == book.families@,
            book_ok(*book),
            file@.rules == start + families_rules(*book, fs.take(k as int)),
            file@.smaps == old(file)@.smaps,
        decreases fs.len() - k,
    {
        proof {
            assert(fs.take(k + 1).drop_last() =~= fs.take(k as int));
        }
        codegen_family(file, book, &book.families[k]);
        proof {
            assert(start + families_rules(*book, fs.take(k as int)) + family_rules(*book, fs[k as int])
                =~= start + families_rules(*book, fs.take(k + 1)));
        }
        k = k + 1;
    }
    assert(fs.take(fs.len() as int) =~= fs);
    assert(file@.rules =~= old(file)@.rules + coverage_rules(*book));
}

/// Relies on `fxhash::hash64`: a 64-bit hash of the name's bytes. The
/// hasher reads the bytes in the machine's byte order, so nothing is
/// stated of the value.
#[verifier::external_body]
fn name_hash(name: &str) -> (r: u64) {
    fxhash::hash64(name)
}

fn push_defaults(file: &mut File)
    ensures
        final(file)@.rules == old(file)@.rules + default_rules(),
        final(file)@.smaps == old(file)@.smaps,
{
    push_rule(
        file,
        mk_ctr(String::from_str("Kind.Axiom.CoverCheck"), spine1(mk_var("_"))),
        mk_single_ctr(String::from_str("Bool.false")),
    );
    push_rule(
        file,
        mk_ctr(String::from_str("Kind.Axiom.Compare"), spine2(mk_var("a"), mk_var("b"))),
        mk_single_ctr(String::from_str("Bool.false")),
    );
    push_rule(
        file,
        mk_ctr(String::from_str("Kind.Coverage.Maker.Mk"), spine3(mk_var("cons"), mk_var("a"), mk_var("b"))),
        mk_single_ctr(String::from_str("Maybe.none")),
    );
    push_rule(
        file,
        mk_ctr(String::from_str("Kind.Axiom.Family.Constructors"), spine1(mk_var("_"))),
        mk_single_ctr(String::from_str("Maybe.none")),
    );
    assert(file@.rules =~= old(file)@.rules + default_rules());
}

fn codegen_prelude(book: &Book, functions_to_check: &Vec<String>) -> (r: File)
    ensures
        r@.rules == prelude_rules(*book, functions_to_check@),
        r@.smaps == prelude_smaps(),
{
    let ghost fns = functions_to_check@;
    let mut names: Vec<Box<Term>> = Vec::new();
    let mut i: usize = 0;
    while i < functions_to_check.len()
        invariant
            i <= fns.len(),
            fns == functions_to_check@,
            views(names@) =~= Seq::new(i as nat, |j: int| ctr_name_of(fns[j]@)),
        decreases fns.len() - i,
    {
        let ghost before = views(names@);
        let t = mk_ctr_name_from_str(functions_to_check[i].as_str());
        names.push(t);
        assert(views(names@) =~= before.push(t@));
        i = i + 1;
    }
    let mut file = File { rules: Vec::new(), smaps: Vec::new() };
    assert(file@.rules =~= Seq::<RuleM>::empty());
    let list = codegen_vec(names);
    let empty1: Vec<Box<Term>> = Vec::new();
    assert(views(empty1@) =~= Seq::<TermM>::empty());
    let key1 = mk_ctr(String::from_str("Kind.Axiom.Functions"), empty1);
    push_rule(&mut file, key1, list);
    let empty2: Vec<Box<Term>> = Vec::new();
    assert(views(empty2@) =~= Seq::<TermM>::empty());
    let key2 = mk_ctr(String::from_str("HoleInit"), empty2);
    push_rule(&mut file, key2, mk_u60(book.holes));
    let ghost rules = file@.rules;
    assert(file@.smaps =~= Seq::<(Seq<char>, Seq<bool>)>::empty());
    let s1: Vec<bool> = Vec::new();
    let s2: Vec<bool> = Vec::new();
    assert(s1@ =~= Seq::<bool>::empty());
    assert(s2@ =~= Seq::<bool>::empty());
    file.smaps.push((String::from_str("Kind.Axiom.Functions"), s1));
    assert(file@.smaps =~= seq![("Kind.Axiom.Functions"@, Seq::<bool>::empty())]);
    file.smaps.push((String::from_str("HoleInit"), s2));
    assert(file@.smaps =~= seq![("Kind.Axiom.Functions"@, Seq::<bool>::empty()), ("HoleInit"@, Seq::<bool>::empty())]);
    assert(file@.rules =~= rules);
    assert(file@.rules =~= prelude_rules(*book, functions_to_check@));
    assert(file@.smaps =~= prelude_smaps());
    file
}

/// Compiles a book into the rule set that the type checker program runs
/// on, with or without the coverage data.
pub fn codegen_book(book: &Book, check_coverage: bool, functions_to_check: Vec<String>) -> (r: File)
    requires
        book_ok(*book),
    ensures
        exists|hs: Seq<u64>|
            hs.len() == book.entrs@.len() && r@ == #[trigger] book_file(
                *book,
                check_coverage,
                functions_to_check@,
                hs,
            ),
{
    let mut file = codegen_prelude(book, &functions_to_check);
    let ghost pre = file@.rules;
    let ghost es = book.entrs@;
    let ghost mut hs: Seq<u64> = Seq::empty();
    let mut i: usize = 0;
    while i < book.entrs.len()
        invariant
            i <= es.len(),
            es == book.entrs@,
            book_ok(*book),
            hs.len() == i,
            file@.rules == pre + entries_rules(es.take(i as int), hs),
            file@.smaps == prelude_smaps(),
        decreases es.len() - i,
    {
        let entry = &book.entrs[i];
        let h = name_hash(entry.name.to_str());
        proof {
            assert(entry_ok(es[i as int]));
            assert(es.take(i + 1).drop_last() =~= es.take(i as int));
            assert(hs.push(h).drop_last() =~= hs);
        }
        codegen_entry(&mut file, entry, h);
        proof {
            hs = hs.push(h);
            assert(pre + entries_rules(es.take(i as int), hs.drop_last()) + entry_rules(es[i as int], h)
                =~= pre + entries_rules(es.take(i + 1), hs));
        }
        i = i + 1;
    }
    assert(es.take(es.len() as int) =~= es);
    if check_coverage {
        codegen_coverage(&mut file, book);
    }
    push_defaults(&mut file);
    reveal(book_file);
    assert(file@.rules =~= book_file(*book, check_coverage, functions_to_check@, hs).rules);
    assert(file@ == book_file(*book, check_coverage, functions_to_check@, hs));
    file
}

} // verus!
