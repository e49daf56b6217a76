use kind_checker::book::{Argument, Attributes, Book, Entry, Family, Rule};
use kind_checker::compile::{codegen_book, codegen_entry_rules, codegen_str};
use kind_checker::encode::codegen_expr;
use kind_checker::expr::{AppBinding, Expr, ExprKind, Operator};
use kind_checker::ident::{Ident, QualifiedIdent};
use kind_checker::range::{EncodedRange, Range};
use kind_checker::report::parse_expr;
use kind_checker::tags::{eval_ctr, TermTag};
use kind_checker::term::{File, Term};

fn r(start: u64) -> Range {
    Range::new(1, start, start + 1)
}

fn e(data: ExprKind, range: Range) -> Box<Expr> {
    Box::new(Expr { data, range })
}

fn var(name: &str, range: Range) -> Box<Expr> {
    e(ExprKind::Var { name: Ident::new(name.to_string(), range) }, range)
}

fn num(n: u64, range: Range) -> Box<Expr> {
    e(ExprKind::NumU60 { numb: n }, range)
}

fn qid(name: &str) -> QualifiedIdent {
    QualifiedIdent::new_static(name, r(0))
}

fn ctr(name: &str, args: Vec<Box<Expr>>, range: Range) -> Box<Expr> {
    e(ExprKind::Ctr { name: qid(name), args }, range)
}

fn ctr_args(t: &Term) -> &Vec<Box<Term>> {
    match t {
        Term::Ctr { args, .. } => args,
        _ => panic!("not a constructor"),
    }
}

fn ctr_name(t: &Term) -> &str {
    match t {
        Term::Ctr { name, .. } => name.as_str(),
        _ => panic!("not a constructor"),
    }
}

#[test]
fn range_round_trip() {
    let range = Range::new(4095, 16_777_215, 12);
    assert_eq!(range.encode().to_range(), range);
    let small = Range::new(0, 0, 0);
    assert_eq!(small.encode().to_range(), small);
}

#[test]
fn range_packing_layout() {
    let range = Range::new(1, 2, 3);
    assert_eq!(range.encode(), EncodedRange((1u64 << 48) | (3u64 << 24) | 2));
    assert!(Range::new(4095, 16_777_215, 16_777_215).encode().0 < (1u64 << 60));
}

#[test]
fn name_code_round_trip() {
    let id = Ident::new("foo".to_string(), r(0));
    let code = id.encode();
    assert_eq!(code, (42 << 12) + (51 << 6) + 51);
    assert_eq!(Ident::decode(code), "foo");
}

#[test]
fn reduced_tags_in_evaluated_mode() {
    assert_eq!(eval_ctr(false, TermTag::Binary), "Kind.Term.Eval.op2");
    assert_eq!(eval_ctr(false, TermTag::Let), "Kind.Term.Eval.let");
    assert_eq!(eval_ctr(false, TermTag::Ann), "Kind.Term.Eval.ann");
    assert_eq!(eval_ctr(false, TermTag::Sub), "Kind.Term.Eval.sub");
    assert_eq!(eval_ctr(false, TermTag::App), "Kind.Term.Quoted.app");
    assert_eq!(eval_ctr(true, TermTag::Binary), "Kind.Term.Quoted.op2");
    assert_eq!(eval_ctr(true, TermTag::Ctr(3)), "Kind.Term.Quoted.ctr3");
}

#[test]
fn string_chain() {
    let t = codegen_str("ab");
    assert_eq!(ctr_name(&t), "String.cons");
    let args = ctr_args(&t);
    assert!(matches!(*args[0], Term::U6O { numb: 97 }));
    assert_eq!(ctr_name(&args[1]), "String.cons");
    let inner = ctr_args(&args[1]);
    assert!(matches!(*inner[0], Term::U6O { numb: 98 }));
    assert_eq!(ctr_name(&inner[1]), "String.nil");
}

#[test]
fn quoted_round_trip_binder() {
    let body = var("x", r(7));
    let typ = e(ExprKind::Typ, r(5));
    let all = e(
        ExprKind::All { param: Ident::new("x".to_string(), r(3)), typ, body, erased: false },
        r(2),
    );
    let t = codegen_expr(true, &all);
    let back = parse_expr(&t).unwrap();
    assert_eq!(back.range, r(2));
    match back.data {
        ExprKind::All { param, typ, body, .. } => {
            assert_eq!(param.data, "x");
            assert!(matches!(typ.data, ExprKind::Typ));
            assert_eq!(typ.range, r(5));
            assert_eq!(body.range, r(7));
            match body.data {
                ExprKind::Var { name } => assert_eq!(name.data, "x"),
                _ => panic!("expected a variable"),
            }
        },
        _ => panic!("expected a dependent function type"),
    }
}

#[test]
fn quoted_round_trip_operators_and_literals() {
    let left = num(7, r(1));
    let right = e(ExprKind::Hole { num: 9 }, r(2));
    let bin = e(ExprKind::Binary { op: Operator::Shl, left, right }, r(3));
    let app = e(
        ExprKind::App { fun: var("f", r(4)), args: vec![AppBinding { data: bin, erased: false }] },
        r(5),
    );
    let t = codegen_expr(true, &app);
    let back = parse_expr(&t).unwrap();
    assert_eq!(back.range, r(5));
    match back.data {
        ExprKind::App { fun, args } => {
            assert_eq!(fun.range, r(4));
            assert_eq!(args.len(), 1);
            assert_eq!(args[0].data.range, r(3));
            match &args[0].data.data {
                ExprKind::Binary { op, left, right } => {
                    assert_eq!(*op, Operator::Shl);
                    assert!(matches!(left.data, ExprKind::NumU60 { numb: 7 }));
                    assert!(matches!(right.data, ExprKind::Hole { num: 9 }));
                },
                _ => panic!("expected a binary operator"),
            }
        },
        _ => panic!("expected an application"),
    }
}

fn spine_round_trip(n: u64) {
    let args: Vec<Box<Expr>> = (0..n).map(|i| num(i * 3, r(10 + i))).collect();
    let c = ctr("Foo.bar", args, r(1));
    let t = codegen_expr(true, &c);
    assert!(ctr_args(&t).len() <= 16);
    let back = parse_expr(&t).unwrap();
    match back.data {
        ExprKind::Ctr { name, args } => {
            assert_eq!(name.name, "Foo.bar");
            assert_eq!(args.len() as u64, n);
            for (i, a) in args.iter().enumerate() {
                let i = i as u64;
                assert_eq!(a.range, r(10 + i));
                match a.data {
                    ExprKind::NumU60 { numb } => assert_eq!(numb, i * 3),
                    _ => panic!("expected a number"),
                }
            }
        },
        _ => panic!("expected a constructor"),
    }
}

#[test]
fn arity_lifting_two() {
    spine_round_trip(2);
}

#[test]
fn arity_lifting_sixteen() {
    spine_round_trip(16);
}

#[test]
fn arity_lifting_seventeen() {
    spine_round_trip(17);
}

#[test]
fn arity_lifting_forty() {
    spine_round_trip(40);
}

#[test]
fn arity_lifting_wire_shape() {
    let args: Vec<Box<Expr>> = (0..17).map(|i| num(i, r(0))).collect();
    let t = codegen_expr(true, &ctr("A", args, r(0)));
    assert_eq!(ctr_name(&t), "Kind.Term.Quoted.ctr17");
    let spine = ctr_args(&t);
    assert_eq!(spine.len(), 3);
    assert_eq!(ctr_name(&spine[0]), "A.");
    assert_eq!(ctr_name(&spine[2]), "Kind.Term.args17");
    assert_eq!(ctr_args(&spine[2]).len(), 17);
}

fn var_indices(t: &Term, out: &mut Vec<u64>) {
    if let Term::Ctr { name, args } = t {
        if name == "Kind.Term.Quoted.var" {
            if let Term::U6O { numb } = *args[2] {
                out.push(numb);
            }
        }
        for a in args {
            var_indices(a, out);
        }
    }
}

#[test]
fn pattern_variable_numbering() {
    let pats = vec![
        ctr("Cons", vec![var("x", r(1)), var("xs", r(2))], r(0)),
        var("y", r(3)),
        ctr("Pair", vec![var("a", r(4)), var("b", r(5))], r(0)),
    ];
    let rule = Rule { name: qid("F"), pats, body: num(0, r(0)), range: r(0) };
    let table = codegen_entry_rules(&rule);
    let mut found = Vec::new();
    let mut cur: &Term = &table;
    while ctr_name(cur) == "Kind.Rule.lhs" {
        var_indices(&ctr_args(cur)[0], &mut found);
        cur = &ctr_args(cur)[1];
    }
    assert_eq!(found, vec![0, 1, 2, 3, 4]);
    assert_eq!(ctr_name(cur), "Kind.Rule.rhs");
    assert_eq!(ctr_name(&ctr_args(cur)[0]), "QT3");
}

fn list_book() -> Book {
    let list_typ = || ctr("List", vec![], r(0));
    let arg = |name: &str| Argument {
        hidden: false,
        erased: false,
        name: Ident::new(name.to_string(), r(0)),
        typ: list_typ(),
        range: r(0),
    };
    let rules = vec![
        Rule {
            name: qid("Len"),
            pats: vec![ctr("List.cons", vec![var("x", r(1)), var("xs", r(2))], r(0))],
            body: num(1, r(0)),
            range: r(0),
        },
        Rule { name: qid("Len"), pats: vec![ctr("List.nil", vec![], r(0))], body: num(0, r(0)), range: r(0) },
    ];
    let len = Entry {
        name: qid("Len"),
        args: vec![arg("l")],
        typ: e(ExprKind::NumTypeU60, r(0)),
        rules,
        attrs: Attributes { partial: false, is_axiom: false },
        range: r(0),
    };
    let list = Entry {
        name: qid("List"),
        args: vec![],
        typ: e(ExprKind::Typ, r(0)),
        rules: vec![],
        attrs: Attributes { partial: false, is_axiom: false },
        range: r(0),
    };
    let nil = Entry {
        name: qid("List.nil"),
        args: vec![],
        typ: list_typ(),
        rules: vec![],
        attrs: Attributes { partial: false, is_axiom: false },
        range: r(0),
    };
    let cons = Entry {
        name: qid("List.cons"),
        args: vec![arg("head"), arg("tail")],
        typ: list_typ(),
        rules: vec![],
        attrs: Attributes { partial: false, is_axiom: false },
        range: r(0),
    };
    let family = Family { name: qid("List"), parameters: vec![], constructors: vec![qid("List.nil"), qid("List.cons")] };
    Book { entrs: vec![len, list, nil, cons], families: vec![family], holes: 3 }
}

fn heads(file: &File) -> Vec<String> {
    file.rules
        .iter()
        .map(|rule| {
            let lhs = ctr_name(&rule.lhs).to_string();
            match ctr_args(&rule.lhs).first().map(|a| &**a) {
                Some(Term::Ctr { name, .. }) => format!("{} {}", lhs, name),
                _ => lhs,
            }
        })
        .collect()
}

#[test]
fn idempotent_metadata_emission() {
    let book = list_book();
    let a = codegen_book(&book, true, vec!["Len".to_string()]);
    let b = codegen_book(&book, true, vec!["Len".to_string()]);
    assert_eq!(format!("{:?}", a), format!("{:?}", b));
}

#[test]
fn coverage_toggle_on() {
    let book = list_book();
    let file = codegen_book(&book, true, vec![]);
    let hs = heads(&file);
    assert!(hs.contains(&"Kind.Axiom.CoverCheck Len.".to_string()));
    assert!(!hs.contains(&"Kind.Axiom.CoverCheck List.".to_string()));
    assert!(hs.contains(&"Kind.Axiom.Family.Constructors List.".to_string()));
    assert!(hs.contains(&"Kind.Coverage.Maker.Mk List.cons.".to_string()));
    assert_eq!(hs.iter().filter(|h| *h == "Kind.Axiom.Compare List.cons.").count(), 1);
}

#[test]
fn coverage_toggle_off() {
    let book = list_book();
    let file = codegen_book(&book, false, vec![]);
    let hs = heads(&file);
    assert!(!hs.contains(&"Kind.Axiom.CoverCheck Len.".to_string()));
    assert!(!hs.contains(&"Kind.Axiom.Family.Constructors List.".to_string()));
    let unknown: Vec<&kind_checker::term::Rule> = file
        .rules
        .iter()
        .filter(|rule| matches!(&*rule.rhs, Term::Ctr { name, .. } if name == "Maybe.none"))
        .collect();
    assert_eq!(unknown.len(), 2);
    assert!(hs.contains(&"Kind.Axiom.Compare".to_string()));
}

#[test]
fn book_prelude_and_entry_metadata() {
    let book = list_book();
    let file = codegen_book(&book, false, vec!["Len".to_string()]);
    assert_eq!(ctr_name(&file.rules[0].lhs), "Kind.Axiom.Functions");
    assert_eq!(ctr_name(&file.rules[0].rhs), "List.cons");
    assert_eq!(ctr_name(&file.rules[1].lhs), "HoleInit");
    assert!(matches!(*file.rules[1].rhs, Term::U6O { numb: 3 }));
    assert_eq!(file.smaps.len(), 2);
    assert_eq!(ctr_name(&file.rules[2].lhs), "Kind.Axiom.NameOf");
    assert_eq!(ctr_name(&file.rules[4].lhs), "Kind.Axiom.HashOf");
    let expected = fxhash::hash64("Len") & 0xFFF_FFFF_FFFF_FFFF;
    assert!(matches!(*file.rules[4].rhs, Term::U6O { numb } if numb == expected));
    assert_eq!(ctr_name(&file.rules[6].lhs), "Kind.Term.FN1");
    assert_eq!(ctr_name(&file.rules[6].rhs), "F$Len");
    assert_eq!(ctr_name(&file.rules[7].lhs), "QT1");
    assert_eq!(ctr_name(&file.rules[7].rhs), "Q$Len");
}

#[test]
fn log_primitive_prints() {
    let rule = Rule { name: qid("HVM.log"), pats: vec![var("a", r(0)), var("r", r(0))], body: num(0, r(0)), range: r(0) };
    let entry = Entry {
        name: qid("HVM.log"),
        args: vec![],
        typ: e(ExprKind::Typ, r(0)),
        rules: vec![rule],
        attrs: Attributes { partial: false, is_axiom: false },
        range: r(0),
    };
    let book = Book { entrs: vec![entry], families: vec![], holes: 0 };
    let file = codegen_book(&book, false, vec![]);
    let print = file.rules.iter().find(|rule| ctr_name(&rule.lhs) == "F$HVM.log" && ctr_name(&rule.rhs) == "HVM.print");
    assert!(print.is_some());
}

#[test]
fn invalid_marker_is_detected() {
    let mut book = list_book();
    assert!(book.is_ok());
    book.entrs[0].rules[0].body = e(ExprKind::Invalid, r(0));
    assert!(!book.is_ok());
}

#[test]
fn quoted_round_trip_string() {
    let s = e(ExprKind::Str { val: "hi".to_string() }, r(4));
    let back = parse_expr(&codegen_expr(true, &s)).unwrap();
    assert_eq!(back.range, r(4));
    match back.data {
        ExprKind::Ctr { name, args } => {
            assert_eq!(name.name, "String.cons");
            assert_eq!(args.len(), 2);
            assert!(matches!(args[0].data, ExprKind::NumU60 { numb: 104 }));
            match &args[1].data {
                ExprKind::Ctr { name, args } => {
                    assert_eq!(name.name, "String.cons");
                    assert!(matches!(args[0].data, ExprKind::NumU60 { numb: 105 }));
                    assert!(matches!(&args[1].data, ExprKind::Ctr { name, args } if name.name == "String.nil" && args.is_empty()));
                },
                _ => panic!("expected a constructor"),
            }
        },
        _ => panic!("expected a constructor"),
    }
}

#[test]
fn evaluated_call_uses_apply_form() {
    let call = e(ExprKind::Fun { name: qid("Nat.add"), args: vec![num(1, r(1)), var("y", r(2))] }, r(0));
    let t = codegen_expr(false, &call);
    assert_eq!(ctr_name(&t), "F$Nat.add");
    let args = ctr_args(&t);
    assert_eq!(args.len(), 3);
    assert!(matches!(&*args[2], Term::Var { name } if name == "y"));
    let q = codegen_expr(true, &call);
    assert_eq!(ctr_name(&q), "Kind.Term.Quoted.fun2");
}
