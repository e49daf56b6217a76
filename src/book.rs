//! The resolved program that the compiler reads: entries with their
//! telescopes and rules, and the constructor families of sum types.
use vstd::prelude::*;
use crate::expr::{Expr, boxes_view, no_err};
use crate::ident::{Ident, QualifiedIdent};
use crate::range::Range;

verus! {

/// One argument of a telescope.
#[derive(Debug)]
pub struct Argument {
    pub hidden: bool,
    pub erased: bool,
    pub name: Ident,
    pub typ: Box<Expr>,
    pub range: Range,
}

/// One pattern-matching rule of an entry: a pattern per argument and a body.
#[derive(Debug)]
pub struct Rule {
    pub name: QualifiedIdent,
    pub pats: Vec<Box<Expr>>,
    pub body: Box<Expr>,
    pub range: Range,
}

#[derive(Clone, Copy, Debug, PartialEq, Eq, Structural)]
pub struct Attributes {
    /// The entry is not checked for coverage.
    pub partial: bool,
    /// The entry is postulated, with no definition to check.
    pub is_axiom: bool,
}

/// A function definition, or a postulate.
#[derive(Debug)]
pub struct Entry {
    pub name: QualifiedIdent,
    pub args: Vec<Argument>,
    pub typ: Box<Expr>,
    pub rules: Vec<Rule>,
    pub attrs: Attributes,
    pub range: Range,
}

/// The constructors of a sum type, and the parameters they share.
#[derive(Debug)]
pub struct Family {
    pub name: QualifiedIdent,
    pub parameters: Vec<Argument>,
    pub constructors: Vec<QualifiedIdent>,
}

/// A whole program. Entries and families are kept in the order in which
/// they were declared. Entry names are unique (`names_unique`); lookups
/// take the first entry with a name, which is then the only one.
#[derive(Debug)]
pub struct Book {
    pub entrs: Vec<Entry>,
    pub families: Vec<Family>,
    /// The number of holes handed out before this book was encoded.
    pub holes: u64,
}

/// No expression of the rule is the invalid one.
pub open spec fn rule_ok(r: Rule) -> bool {
    &&& no_err(r.body@)
    &&& forall|i: int| 0 <= i < r.pats@.len() ==> no_err(#[trigger] boxes_view(r.pats@)[i])
}

/// No expression of the entry is the invalid one.
pub open spec fn entry_ok(e: Entry) -> bool {
    &&& no_err(e.typ@)
    &&& forall|i: int| 0 <= i < e.args@.len() ==> no_err(#[trigger] e.args@[i].typ@)
    &&& forall|i: int| 0 <= i < e.rules@.len() ==> rule_ok(#[trigger] e.rules@[i])
}

/// No expression of the book is the invalid one.
pub open spec fn book_ok(b: Book) -> bool {
    forall|i: int| 0 <= i < b.entrs@.len() ==> entry_ok(#[trigger] b.entrs@[i])
}

/// The index of the first entry with the given name, at or after `i`.
pub open spec fn find_from(es: Seq<Entry>, name: Seq<char>, i: int) -> Option<int>
    decreases es.len() - i,
{
    if i < 0 || i >= es.len() {
        None
    } else if es[i].name.name@ == name {
        Some(i)
    } else {
        find_from(es, name, i + 1)
    }
}

pub open spec fn find_entry_spec(es: Seq<Entry>, name: Seq<char>) -> Option<int> {
    find_from(es, name, 0)
}

/// No two entries share a name.
pub open spec fn names_unique(es: Seq<Entry>) -> bool {
    forall|i: int, j: int|
        0 <= i < j < es.len() ==> #[trigger] es[i].name.name@ != #[trigger] es[j].name.name@
}

proof fn lemma_find_from_bounds(es: Seq<Entry>, name: Seq<char>, i: int)
    requires
        0 <= i,
    ensures
        find_from(es, name, i) matches Some(k) ==> i <= k < es.len() && es[k].name.name@ == name,
        find_from(es, name, i) is None ==> forall|j: int|
            i <= j < es.len() ==> #[trigger] es[j].name.name@ != name,
    decreases es.len() - i,
{
    if 0 <= i < es.len() && es[i].name.name@ != name {
        lemma_find_from_bounds(es, name, i + 1);
    }
}

/// Where entry names are unique, a lookup finds exactly the entry with the
/// name, and finds nothing only where no entry has it.
pub proof fn lemma_find_unique(es: Seq<Entry>, name: Seq<char>)
    requires
        names_unique(es),
    ensures
        forall|k: int|
            0 <= k < es.len() && es[k].name.name@ == name ==> find_entry_spec(es, name) == Some(k),
        find_entry_spec(es, name) is None ==> forall|j: int|
            0 <= j < es.len() ==> #[trigger] es[j].name.name@ != name,
{
    lemma_find_from_bounds(es, name, 0);
    assert forall|k: int|
        0 <= k < es.len() && es[k].name.name@ == name implies find_entry_spec(es, name) == Some(k) by {
        match find_entry_spec(es, name) {
            Some(f) => {
                if f != k {
                    if f < k {
                        assert(es[f].name.name@ != es[k].name.name@);
                    } else {
                        assert(es[k].name.name@ != es[f].name.name@);
                    }
                }
            },
            None => {},
        }
    }
}

impl Book {
    /// The position of the first entry with the given name.
    pub fn find_entry(&self, name: &str) -> (r: Option<usize>)
        ensures
            r matches Some(k) ==> find_entry_spec(self.entrs@, name@) == Some(k as int),
            r is None ==> find_entry_spec(self.entrs@, name@) is None,
            r is None ==> forall|j: int|
                0 <= j < self.entrs@.len() ==> #[trigger] self.entrs@[j].name.name@ != name@,
            names_unique(self.entrs@) ==> forall|j: int|
                0 <= j < self.entrs@.len() && self.entrs@[j].name.name@ == name@ ==> r == Some(
                    j as usize,
                ),
            r matches Some(k) ==> k < self.entrs@.len() && self.entrs@[k as int].name.name@ == name@,
    {
        let target = String::from_str(name);
        let mut i: usize = self.entrs.len();
        let mut found: Option<usize> = None;
        proof {
            lemma_find_from_bounds(self.entrs@, name@, i as int);
        }
        while i > 0
            invariant
                i <= self.entrs@.len(),
                target@ == name@,
                found matches Some(k) ==> find_from(self.entrs@, name@, i as int) == Some(k as int),
                found is None ==> find_from(self.entrs@, name@, i as int) is None,
            decreases i,
        {
            i = i - 1;
            if self.entrs[i].name.name == target {
                found = Some(i);
            }
        }
        proof {
            lemma_find_from_bounds(self.entrs@, name@, 0);
            if names_unique(self.entrs@) {
                lemma_find_unique(self.entrs@, name@);
            }
        }
        found
    }

    /// Whether no expression of the book is the invalid one.
    pub fn is_ok(&self) -> (r: bool)
        ensures
            r == book_ok(*self),
    {
        let mut i: usize = 0;
        while i < self.entrs.len()
            invariant
                i <= self.entrs@.len(),
                forall|j: int| 0 <= j < i ==> entry_ok(#[trigger] self.entrs@[j]),
            decreases self.entrs@.len() - i,
        {
            if !entry_is_ok(&self.entrs[i]) {
                return false;
            }
            i = i + 1;
        }
        true
    }
}

/// Whether an expression, or one inside it, is the invalid one.
pub fn expr_is_ok(e: &Expr) -> (r: bool)
    ensures
        r == no_err(e@),
    decreases e, 1nat,
{
    match &e.data {
        crate::expr::ExprKind::Invalid => false,
        crate::expr::ExprKind::All { typ, body, .. } => expr_is_ok(typ) && expr_is_ok(body),
        crate::expr::ExprKind::Lambda { body, .. } => expr_is_ok(body),
        crate::expr::ExprKind::App { fun, args } => {
            if !expr_is_ok(fun) {
                return false;
            }
            proof {
                crate::expr::lemma_app_args_view(*e);
            }
            let mut i: usize = 0;
            while i < args.len()
                invariant
                    i <= args.len(),
                    e.data == (crate::expr::ExprKind::App { fun: *fun, args: *args }),
                    e@.data->App_args == crate::expr::bindings_view(args@),
                    forall|j: int| 0 <= j < i ==> no_err(#[trigger] e@.data->App_args[j].data),
                decreases args.len() - i,
            {
                proof {
                    assert(decreases_to!(*e => e.data));
                    assert(decreases_to!(e.data => e.data->App_args));
                    vstd::std_specs::vec::axiom_vec_index_decreases(e.data->App_args, i as int);
                    assert(decreases_to!(e.data->App_args => e.data->App_args[i as int]));
                    assert(decreases_to!(*e => *e.data->App_args[i as int].data));
                }
                if !expr_is_ok(&args[i].data) {
                    assert(e@.data->App_args[i as int].data == args@[i as int].data@);
                    return false;
                }
                i = i + 1;
            }
            true
        },
        crate::expr::ExprKind::Ctr { args, .. } => {
            proof {
                crate::expr::lemma_ctr_args_view(*e);
                assert(decreases_to!(*e => e.data));
                assert(decreases_to!(e.data => e.data->Ctr_args));
            }
            all_ok(args)
        },
        crate::expr::ExprKind::Fun { args, .. } => {
            proof {
                crate::expr::lemma_fun_args_view(*e);
                assert(decreases_to!(*e => e.data));
                assert(decreases_to!(e.data => e.data->Fun_args));
            }
            all_ok(args)
        },
        crate::expr::ExprKind::Let { val, next, .. } => expr_is_ok(val) && expr_is_ok(next),
        crate::expr::ExprKind::Ann { expr, typ } => expr_is_ok(expr) && expr_is_ok(typ),
        crate::expr::ExprKind::Sub { expr, .. } => expr_is_ok(expr),
        crate::expr::ExprKind::Binary { left, right, .. } => expr_is_ok(left) && expr_is_ok(right),
        _ => true,
    }
}

/// Whether no expression of the list is, or holds, the invalid one.
pub fn all_ok(args: &Vec<Box<Expr>>) -> (r: bool)
    ensures
        r == forall|i: int| 0 <= i < args@.len() ==> no_err(#[trigger] boxes_view(args@)[i]),
    decreases args, 0nat,
{
    let mut i: usize = 0;
    while i < args.len()
        invariant
            i <= args.len(),
            forall|j: int| 0 <= j < i ==> no_err(#[trigger] boxes_view(args@)[j]),
        decreases args.len() - i,
    {
        proof {
            vstd::std_specs::vec::axiom_vec_index_decreases(*args, i as int);
            assert(decreases_to!(*args => *args[i as int]));
        }
        if !expr_is_ok(&args[i]) {
            assert(!no_err(boxes_view(args@)[i as int]));
            return false;
        }
        i = i + 1;
    }
    true
}

fn entry_is_ok(e: &Entry) -> (r: bool)
    ensures
        r == entry_ok(*e),
{
    if !expr_is_ok(&e.typ) {
        return false;
    }
    let mut i: usize = 0;
    while i < e.args.len()
        invariant
            i <= e.args@.len(),
            forall|j: int| 0 <= j < i ==> no_err(#[trigger] e.args@[j].typ@),
        decreases e.args@.len() - i,
    {
        if !expr_is_ok(&e.args[i].typ) {
            return false;
        }
        i = i + 1;
    }
    let mut k: usize = 0;
    while k < e.rules.len()
        invariant
            k <= e.rules@.len(),
            forall|j: int| 0 <= j < k ==> rule_ok(#[trigger] e.rules@[j]),
        decreases e.rules@.len() - k,
    {
        if !expr_is_ok(&e.rules[k].body) || !all_ok(&e.rules[k].pats) {
            return false;
        }
        k = k + 1;
    }
    true
}

} // verus!
