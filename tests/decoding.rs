use kind_checker::diagnostic::TypeDiagnostic;
use kind_checker::expr::ExprKind;
use kind_checker::range::Range;
use kind_checker::report::{parse_expr, parse_list, parse_op, parse_report, transform_entry, DecodeError};
use kind_checker::term::Term;

fn c(name: &str, args: Vec<Term>) -> Term {
    Term::Ctr { name: name.to_string(), args: args.into_iter().map(Box::new).collect() }
}

fn n(numb: u64) -> Term {
    Term::U6O { numb }
}

fn list(items: Vec<Term>) -> Term {
    items.into_iter().rev().fold(c("List.nil", vec![]), |acc, x| c("List.cons", vec![x, acc]))
}

fn orig(start: u64) -> u64 {
    Range::new(0, start, start + 2).encode().0
}

#[test]
fn decode_failure_on_malformed_diagnostic() {
    let good = c("Kind.Error.Quoted.unbound_variable", vec![list(vec![]), n(orig(4))]);
    let bad = c("foo", vec![list(vec![]), n(orig(5))]);
    let report = parse_report(&list(vec![good, bad])).unwrap();
    assert_eq!(report.len(), 2);
    match &report[0] {
        Ok(TypeDiagnostic::UnboundVariable(ctx, range)) => {
            assert_eq!(ctx.0.len(), 0);
            assert_eq!(*range, Range::new(0, 4, 6));
        },
        other => panic!("unexpected {:?}", other),
    }
    match &report[1] {
        Err(DecodeError::UnexpectedTag { tag }) => assert_eq!(tag, "foo"),
        other => panic!("unexpected {:?}", other),
    }
}

#[test]
fn type_mismatch_with_context() {
    let typ = c("Kind.Term.Quoted.typ", vec![n(orig(1))]);
    let u60 = c("Kind.Term.Quoted.u60", vec![n(orig(2))]);
    let entry = c("Pair.new", vec![c("x", vec![]), c("Pair.new", vec![c("Kind.Term.Quoted.typ", vec![n(orig(3))]), list(vec![n(1)])])]);
    let diag = c("Kind.Error.Quoted.type_mismatch", vec![list(vec![entry]), n(orig(9)), typ, u60]);
    let report = parse_report(&list(vec![diag])).unwrap();
    match &report[0] {
        Ok(TypeDiagnostic::TypeMismatch(ctx, range, a, b)) => {
            assert_eq!(ctx.0.len(), 1);
            assert_eq!(ctx.0[0].0, "x");
            assert_eq!(ctx.0[0].2.len(), 0);
            assert_eq!(*range, Range::new(0, 9, 11));
            assert!(matches!(a.data, ExprKind::Typ));
            assert!(matches!(b.data, ExprKind::NumTypeU60));
        },
        other => panic!("unexpected {:?}", other),
    }
}

#[test]
fn malformed_list_fails_whole_report() {
    let r = parse_report(&c("List.cons", vec![n(1)]));
    assert!(matches!(r, Err(DecodeError::WrongArity { .. })));
    let r = parse_report(&n(3));
    assert!(matches!(r, Err(DecodeError::NotConstructor)));
}

#[test]
fn list_items_in_order() {
    let three = list(vec![n(1), n(2), n(3)]);
    let items = parse_list(&three).unwrap();
    assert_eq!(items.len(), 3);
    assert!(matches!(items[2], Term::U6O { numb: 3 }));
    let other = c("Other", vec![]);
    let err = parse_list(&other).unwrap_err();
    assert!(matches!(err, DecodeError::UnexpectedTag { tag } if tag == "Other"));
}

#[test]
fn decode_error_variants() {
    assert!(matches!(parse_expr(&n(1)), Err(DecodeError::NotConstructor)));
    assert!(matches!(parse_expr(&c("Kind.Term.Quoted.typ", vec![c("x", vec![])])), Err(DecodeError::NotNumber)));
    assert!(matches!(parse_expr(&c("Kind.Term.Quoted.typ", vec![])), Err(DecodeError::WrongArity { .. })));
    assert!(matches!(parse_expr(&c("Kind.Term.Quoted.nope", vec![])), Err(DecodeError::UnexpectedTag { .. })));
}

#[test]
fn operator_table() {
    assert!(matches!(parse_op(&c("Kind.Operator.gte", vec![])), Ok(kind_checker::expr::Operator::Gte)));
    assert!(matches!(parse_op(&c("Kind.Operator.pow", vec![])), Err(DecodeError::UnexpectedTag { .. })));
}

#[test]
fn context_entry_drops_undecodable_values() {
    let entry = c(
        "Pair.new",
        vec![c("y", vec![]), c("Pair.new", vec![c("Kind.Term.Quoted.hlp", vec![n(orig(1))]), list(vec![n(5), c("Kind.Term.Quoted.typ", vec![n(orig(2))])])])],
    );
    let (name, typ, values) = transform_entry(&entry).unwrap();
    assert_eq!(name, "y");
    assert!(matches!(typ.data, ExprKind::Hlp { .. }));
    assert_eq!(values.len(), 1);
    assert!(matches!(transform_entry(&c("Pair.old", vec![])), Err(DecodeError::UnexpectedTag { .. })));
}

#[test]
fn float_literal_word_kept() {
    let t = c("Kind.Term.Quoted.numf60", vec![n(orig(0)), Term::F6O { numb: 0x0400_0000_0000_0000 }]);
    let e = parse_expr(&t).unwrap();
    assert!(matches!(e.data, ExprKind::NumF60 { numb: 0x0400_0000_0000_0000 }));
}

#[test]
fn decode_listed_constructor() {
    let t = c(
        "Kind.Term.Quoted.ctr",
        vec![c("List.cons.", vec![]), n(orig(7)), list(vec![c("Kind.Term.Quoted.typ", vec![n(orig(1))]), c("Kind.Term.Quoted.num", vec![n(orig(2)), n(42)])])],
    );
    let e = parse_expr(&t).unwrap();
    assert_eq!(e.range, Range::new(0, 7, 9));
    match e.data {
        ExprKind::Ctr { name, args } => {
            assert_eq!(name.name, "List.cons");
            assert_eq!(args.len(), 2);
            assert!(matches!(args[0].data, ExprKind::Typ));
            assert!(matches!(args[1].data, ExprKind::NumU60 { numb: 42 }));
        },
        other => panic!("unexpected {:?}", other),
    }
}

#[test]
fn decode_listed_call_and_empty_list() {
    let t = c("Kind.Term.Quoted.fun", vec![c("Nat.add.", vec![]), n(orig(3)), list(vec![])]);
    let e = parse_expr(&t).unwrap();
    match e.data {
        ExprKind::Fun { name, args } => {
            assert_eq!(name.name, "Nat.add");
            assert!(args.is_empty());
        },
        other => panic!("unexpected {:?}", other),
    }
}

#[test]
fn decode_listed_failures() {
    let bad_item = c("Kind.Term.Quoted.ctr", vec![c("A.", vec![]), n(orig(0)), list(vec![c("Kind.Term.Quoted.typ", vec![n(orig(0))]), c("bogus", vec![])])]);
    assert!(matches!(parse_expr(&bad_item), Err(DecodeError::UnexpectedTag { tag }) if tag == "bogus"));
    let bad_list = c("Kind.Term.Quoted.ctr", vec![c("A.", vec![]), n(orig(0)), c("List.cons", vec![n(1)])]);
    assert!(matches!(parse_expr(&bad_list), Err(DecodeError::WrongArity { tag }) if tag == "List.cons"));
    let short = c("Kind.Term.Quoted.ctr", vec![c("A.", vec![]), n(orig(0))]);
    assert!(matches!(parse_expr(&short), Err(DecodeError::WrongArity { .. })));
}

#[test]
fn diagnostic_carrying_constructor() {
    let ctr = c("Kind.Term.Quoted.ctr", vec![c("Pair.new.", vec![]), n(orig(1)), list(vec![c("Kind.Term.Quoted.u60", vec![n(orig(2))])])]);
    let diag = c("Kind.Error.Quoted.inspection", vec![list(vec![]), n(orig(5)), ctr]);
    let report = parse_report(&list(vec![diag])).unwrap();
    match &report[0] {
        Ok(TypeDiagnostic::Inspection(_, _, e)) => {
            assert!(matches!(&e.data, ExprKind::Ctr { name, args } if name.name == "Pair.new" && args.len() == 1));
        },
        other => panic!("unexpected {:?}", other),
    }
}
