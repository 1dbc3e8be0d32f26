//! Which variables of the enclosing scope a closure captures.
use vstd::prelude::*;
use crate::ast::{Block, Expr, MatchArm, OnClause, Param, Stmt, SwitchCase, TemplatePartExpr};
use crate::ir::{IrType, Value};
use crate::names::{NameMap, NameSet};
use crate::text::str_eq;

verus! {

/// A well-formed capture list for closure parameters `p` over scope `l`:
/// names are distinct, and each is a variable of the scope (with its type)
/// that is not a parameter, or `self` (a pointer-sized integer).
pub open spec fn caps_ok(caps: Seq<(String, IrType)>, p: Set<Seq<char>>, l: Map<Seq<char>, (Value, IrType, bool)>) -> bool {
    &&& forall|i: int| 0 <= i < caps.len() ==> {
        let (n, t) = #[trigger] caps[i];
        ||| (l.contains_key(n@) && l[n@].1 == t && !p.contains(n@))
        ||| (n@ == "self"@ && t == IrType::I64)
    }
    &&& forall|i: int, j: int| 0 <= i < j < caps.len() ==> (#[trigger] caps[i]).0@ != (#[trigger] caps[j]).0@
}

/// The names of a capture list.
pub open spec fn names_of(caps: Seq<(String, IrType)>) -> Set<Seq<char>> {
    Set::new(|n: Seq<char>| exists|i: int| 0 <= i < caps.len() && (#[trigger] caps[i]).0@ == n)
}

/// The names of a parameter list.
pub open spec fn param_name_set(ps: Seq<Param>) -> Set<Seq<char>> {
    Set::new(|n: Seq<char>| exists|i: int| 0 <= i < ps.len() && (#[trigger] ps[i]).name@ == n)
}

/// The variables that expression `e` makes a closure capture, for closure
/// parameters `p` and enclosing variables `l`: with `d` (direct references
/// count), each variable of `l` it names that is not a parameter, and
/// `self` for `self` or `parent`; at any depth, what the closures that `e`
/// creates capture themselves (from their own bodies, with their own
/// parameters), except the parameters `p`.
pub open spec fn expr_caps(e: Expr, d: bool, p: Set<Seq<char>>, l: Set<Seq<char>>) -> Set<Seq<char>>
    decreases e, 0int,
{
    match e {
        Expr::Ident(n, _) => if d && !p.contains(n@) && l.contains(n@) { set![n@] } else { Set::empty() },
        Expr::SelfExpr(_) | Expr::ParentExpr(_) => if d { set!["self"@] } else { Set::empty() },
        Expr::Binary { left, right, .. } => expr_caps(*left, d, p, l).union(expr_caps(*right, d, p, l)),
        Expr::Unary { operand, .. } => expr_caps(*operand, d, p, l),
        Expr::Field { object, .. } => expr_caps(*object, d, p, l),
        Expr::Call { callee, args, .. } => {
            proof {
                assert(decreases_to!(e => args));
                assert(decreases_to!(args => args@));
            }
            expr_caps(*callee, d, p, l).union(exprs_caps(args@, args@.len() as int, d, p, l))
        },
        Expr::StaticCall { args, .. } | Expr::New { args, .. } => {
            proof {
                assert(decreases_to!(e => args));
                assert(decreases_to!(args => args@));
            }
            exprs_caps(args@, args@.len() as int, d, p, l)
        },
        Expr::Index { object, index, .. } => expr_caps(*object, d, p, l).union(expr_caps(*index, d, p, l)),
        Expr::Range { start, end, .. } => expr_caps(*start, d, p, l).union(expr_caps(*end, d, p, l)),
        Expr::Array { elements, .. } => {
            proof {
                assert(decreases_to!(e => elements));
                assert(decreases_to!(elements => elements@));
            }
            exprs_caps(elements@, elements@.len() as int, d, p, l)
        },
        Expr::Dict { entries, .. } => {
            proof {
                assert(decreases_to!(e => entries));
                assert(decreases_to!(entries => entries@));
            }
            entries_caps(entries@, entries@.len() as int, d, p, l)
        },
        Expr::Template { parts, .. } => {
            proof {
                assert(decreases_to!(e => parts));
                assert(decreases_to!(parts => parts@));
            }
            parts_caps(parts@, parts@.len() as int, d, p, l)
        },
        Expr::Match { subject, arms, .. } => {
            proof {
                assert(decreases_to!(e => arms));
                assert(decreases_to!(arms => arms@));
            }
            expr_caps(*subject, d, p, l).union(arms_caps(arms@, arms@.len() as int, d, p, l))
        },
        Expr::IsCheck { expr: inner, .. } | Expr::Resolve { expr: inner, .. } => expr_caps(*inner, d, p, l),
        Expr::IncDec { target, .. } => expr_caps(*target, d, p, l),
        Expr::Nameless { params, body, .. } => {
            proof {
                assert(decreases_to!(e => body));
                assert(decreases_to!(body => body.stmts));
                assert(decreases_to!(body.stmts => body.stmts@));
            }
            stmts_caps(body.stmts@, body.stmts@.len() as int, true, param_name_set(params@), l).difference(p)
        },
        Expr::Literal(..) | Expr::StaticConst { .. } => Set::empty(),
    }
}

/// `expr_caps` of the first `k` expressions of `es`.
pub open spec fn exprs_caps(es: Seq<Expr>, k: int, d: bool, p: Set<Seq<char>>, l: Set<Seq<char>>) -> Set<Seq<char>>
    decreases es, k,
{
    if 0 < k <= es.len() {
        exprs_caps(es, k - 1, d, p, l).union(expr_caps(es[k - 1], d, p, l))
    } else {
        Set::empty()
    }
}

/// `expr_caps` of the keys and values of the first `k` entries of `es`.
pub open spec fn entries_caps(es: Seq<(Expr, Expr)>, k: int, d: bool, p: Set<Seq<char>>, l: Set<Seq<char>>) -> Set<Seq<char>>
    decreases es, k,
{
    if 0 < k <= es.len() {
        proof {
            assert(decreases_to!(es => es[k - 1]));
        }
        entries_caps(es, k - 1, d, p, l).union(expr_caps(es[k - 1].0, d, p, l)).union(expr_caps(es[k - 1].1, d, p, l))
    } else {
        Set::empty()
    }
}

/// `expr_caps` of the expression parts among the first `k` parts of `ps`.
pub open spec fn parts_caps(ps: Seq<TemplatePartExpr>, k: int, d: bool, p: Set<Seq<char>>, l: Set<Seq<char>>) -> Set<Seq<char>>
    decreases ps, k,
{
    if 0 < k <= ps.len() {
        parts_caps(ps, k - 1, d, p, l).union(match ps[k - 1] {
            TemplatePartExpr::Expr(e) => expr_caps(e, d, p, l),
            TemplatePartExpr::Literal(_) => Set::empty(),
        })
    } else {
        Set::empty()
    }
}

/// `expr_caps` of the bodies of the first `k` arms of `arms`.
pub open spec fn arms_caps(arms: Seq<MatchArm>, k: int, d: bool, p: Set<Seq<char>>, l: Set<Seq<char>>) -> Set<Seq<char>>
    decreases arms, k,
{
    if 0 < k <= arms.len() {
        proof {
            assert(decreases_to!(arms => arms[k - 1]));
        }
        arms_caps(arms, k - 1, d, p, l).union(expr_caps(arms[k - 1].body, d, p, l))
    } else {
        Set::empty()
    }
}

/// What statement `s` makes a closure capture (see `expr_caps`): the
/// union over the expressions and blocks it contains.
pub open spec fn stmt_caps(s: Stmt, d: bool, p: Set<Seq<char>>, l: Set<Seq<char>>) -> Set<Seq<char>>
    decreases s, 0int,
{
    match s {
        Stmt::Var { value, .. } | Stmt::Const { value, .. } | Stmt::Raise { value, .. } | Stmt::Emit { value, .. } =>
            expr_caps(value, d, p, l),
        Stmt::Expr(e) => expr_caps(e, d, p, l),
        Stmt::Assign { target, value, .. } => expr_caps(target, d, p, l).union(expr_caps(value, d, p, l)),
        Stmt::Return { value, .. } | Stmt::Result { value, .. } => match value {
            Some(e) => {
                proof {
                    assert(decreases_to!(value => e));
                }
                expr_caps(e, d, p, l)
            },
            None => Set::empty(),
        },
        Stmt::Break { .. } | Stmt::Continue { .. } => Set::empty(),
        Stmt::If { condition, then_block, elseif, else_block, .. } => {
            proof {
                assert(decreases_to!(s => then_block));
                assert(decreases_to!(then_block => then_block.stmts));
                assert(decreases_to!(then_block.stmts => then_block.stmts@));
                assert(decreases_to!(s => elseif));
                assert(decreases_to!(elseif => elseif@));
            }
            expr_caps(condition, d, p, l)
                .union(stmts_caps(then_block.stmts@, then_block.stmts@.len() as int, d, p, l))
                .union(elseif_caps(elseif@, elseif@.len() as int, d, p, l))
                .union(match else_block {
                    Some(b) => {
                        proof {
                            assert(decreases_to!(s => else_block));
                            assert(decreases_to!(else_block => b));
                            assert(decreases_to!(b => b.stmts));
                            assert(decreases_to!(b.stmts => b.stmts@));
                        }
                        stmts_caps(b.stmts@, b.stmts@.len() as int, d, p, l)
                    },
                    None => Set::empty(),
                })
        },
        Stmt::While { condition: c, body, .. } | Stmt::ForIn { iter: c, body, .. } | Stmt::ForMap { iter: c, body, .. } => {
            proof {
                assert(decreases_to!(s => body));
                assert(decreases_to!(body => body.stmts));
                assert(decreases_to!(body.stmts => body.stmts@));
            }
            expr_caps(c, d, p, l).union(stmts_caps(body.stmts@, body.stmts@.len() as int, d, p, l))
        },
        Stmt::Switch { subject, cases, default, .. } => {
            proof {
                assert(decreases_to!(s => cases));
                assert(decreases_to!(cases => cases@));
            }
            expr_caps(subject, d, p, l)
                .union(cases_caps(cases@, cases@.len() as int, d, p, l))
                .union(match default {
                    Some(b) => {
                        proof {
                            assert(decreases_to!(s => default));
                            assert(decreases_to!(default => b));
                            assert(decreases_to!(b => b.stmts));
                            assert(decreases_to!(b.stmts => b.stmts@));
                        }
                        stmts_caps(b.stmts@, b.stmts@.len() as int, d, p, l)
                    },
                    None => Set::empty(),
                })
        },
        Stmt::Try { body, handlers, .. } => {
            proof {
                assert(decreases_to!(s => body));
                assert(decreases_to!(body => body.stmts));
                assert(decreases_to!(body.stmts => body.stmts@));
                assert(decreases_to!(s => handlers));
                assert(decreases_to!(handlers => handlers@));
            }
            stmts_caps(body.stmts@, body.stmts@.len() as int, d, p, l)
                .union(handlers_caps(handlers@, handlers@.len() as int, d, p, l))
        },
    }
}

/// `stmt_caps` of the first `k` statements of `ss`.
pub open spec fn stmts_caps(ss: Seq<Stmt>, k: int, d: bool, p: Set<Seq<char>>, l: Set<Seq<char>>) -> Set<Seq<char>>
    decreases ss, k,
{
    if 0 < k <= ss.len() {
        stmts_caps(ss, k - 1, d, p, l).union(stmt_caps(ss[k - 1], d, p, l))
    } else {
        Set::empty()
    }
}

/// The conditions and blocks of the first `k` `else if` branches.
pub open spec fn elseif_caps(es: Seq<(Expr, Block)>, k: int, d: bool, p: Set<Seq<char>>, l: Set<Seq<char>>) -> Set<Seq<char>>
    decreases es, k,
{
    if 0 < k <= es.len() {
        proof {
            assert(decreases_to!(es => es[k - 1]));
            assert(decreases_to!(es[k - 1] => es[k - 1].1));
            assert(decreases_to!(es[k - 1].1 => es[k - 1].1.stmts));
            assert(decreases_to!(es[k - 1].1.stmts => es[k - 1].1.stmts@));
        }
        elseif_caps(es, k - 1, d, p, l).union(expr_caps(es[k - 1].0, d, p, l))
            .union(stmts_caps(es[k - 1].1.stmts@, es[k - 1].1.stmts@.len() as int, d, p, l))
    } else {
        Set::empty()
    }
}

/// The bodies of the first `k` cases of a `switch`.
pub open spec fn cases_caps(cs: Seq<SwitchCase>, k: int, d: bool, p: Set<Seq<char>>, l: Set<Seq<char>>) -> Set<Seq<char>>
    decreases cs, k,
{
    if 0 < k <= cs.len() {
        proof {
            assert(decreases_to!(cs => cs[k - 1]));
            assert(decreases_to!(cs[k - 1] => cs[k - 1].body));
            assert(decreases_to!(cs[k - 1].body => cs[k - 1].body.stmts));
            assert(decreases_to!(cs[k - 1].body.stmts => cs[k - 1].body.stmts@));
        }
        cases_caps(cs, k - 1, d, p, l).union(stmts_caps(cs[k - 1].body.stmts@, cs[k - 1].body.stmts@.len() as int, d, p, l))
    } else {
        Set::empty()
    }
}

/// The bodies of the first `k` handlers of a `try`.
pub open spec fn handlers_caps(hs: Seq<OnClause>, k: int, d: bool, p: Set<Seq<char>>, l: Set<Seq<char>>) -> Set<Seq<char>>
    decreases hs, k,
{
    if 0 < k <= hs.len() {
        proof {
            assert(decreases_to!(hs => hs[k - 1]));
            assert(decreases_to!(hs[k - 1] => hs[k - 1].body));
            assert(decreases_to!(hs[k - 1].body => hs[k - 1].body.stmts));
            assert(decreases_to!(hs[k - 1].body.stmts => hs[k - 1].body.stmts@));
        }
        handlers_caps(hs, k - 1, d, p, l).union(stmts_caps(hs[k - 1].body.stmts@, hs[k - 1].body.stmts@.len() as int, d, p, l))
    } else {
        Set::empty()
    }
}

/// What block `b` makes a closure capture (see `stmt_caps`).
pub open spec fn block_caps(b: Block, d: bool, p: Set<Seq<char>>, l: Set<Seq<char>>) -> Set<Seq<char>> {
    stmts_caps(b.stmts@, b.stmts@.len() as int, d, p, l)
}

/// The walk's bookkeeping: `seen` holds every captured name.
pub open spec fn walk_ok(caps: Seq<(String, IrType)>, seen: Set<Seq<char>>, p: Set<Seq<char>>, l: Map<Seq<char>, (Value, IrType, bool)>) -> bool {
    &&& caps_ok(caps, p, l)
    &&& seen == names_of(caps)
}

proof fn lemma_names_of_push(caps: Seq<(String, IrType)>, x: (String, IrType))
    ensures
        names_of(caps.push(x)) == names_of(caps).insert(x.0@),
{
    let c2 = caps.push(x);
    assert forall|n: Seq<char>| names_of(caps).insert(x.0@).contains(n) implies names_of(c2).contains(n) by {
        if n == x.0@ {
            assert(c2[caps.len() as int].0@ == n);
        } else {
            let i = choose|i: int| 0 <= i < caps.len() && (#[trigger] caps[i]).0@ == n;
            assert(c2[i] == caps[i]);
        }
    }
    assert forall|n: Seq<char>| names_of(c2).contains(n) implies names_of(caps).insert(x.0@).contains(n) by {
        let i = choose|i: int| 0 <= i < c2.len() && (#[trigger] c2[i]).0@ == n;
        if i < caps.len() {
            assert(caps[i] == c2[i]);
        }
    }
    assert(names_of(c2) =~= names_of(caps).insert(x.0@));
}

proof fn lemma_names_of_empty()
    ensures
        names_of(Seq::<(String, IrType)>::empty()) == Set::<Seq<char>>::empty(),
{
    assert(names_of(Seq::<(String, IrType)>::empty()) =~= Set::<Seq<char>>::empty());
}

/// A capture list is empty exactly when it names nothing.
pub proof fn lemma_names_of_empty_iff(caps: Seq<(String, IrType)>)
    ensures
        (caps.len() == 0) == (names_of(caps) == Set::<Seq<char>>::empty()),
{
    if caps.len() == 0 {
        assert(caps =~= Seq::<(String, IrType)>::empty());
        lemma_names_of_empty();
    } else {
        assert(names_of(caps).contains(caps[0].0@));
        assert(!Set::<Seq<char>>::empty().contains(caps[0].0@));
    }
}

/// The walk only appended to `caps`.
pub open spec fn grew(before: Seq<(String, IrType)>, after: Seq<(String, IrType)>) -> bool {
    before.len() <= after.len() && after.subrange(0, before.len() as int) == before
}

proof fn lemma_grew_trans(a: Seq<(String, IrType)>, b: Seq<(String, IrType)>, c: Seq<(String, IrType)>)
    requires
        grew(a, b),
        grew(b, c),
    ensures
        grew(a, c),
{
    assert(c.subrange(0, a.len() as int) =~= b.subrange(0, a.len() as int));
}

proof fn lemma_grew_refl(a: Seq<(String, IrType)>)
    ensures
        grew(a, a),
{
    assert(a.subrange(0, a.len() as int) =~= a);
}

fn add_capture(
    caps: &mut Vec<(String, IrType)>,
    seen: &mut NameSet,
    name: String,
    ty: IrType,
    Ghost(p): Ghost<Set<Seq<char>>>,
    Ghost(l): Ghost<Map<Seq<char>, (Value, IrType, bool)>>,
)
    requires
        walk_ok(old(caps)@, old(seen)@, p, l),
        !old(seen)@.contains(name@),
        (l.contains_key(name@) && l[name@].1 == ty && !p.contains(name@)) || (name@ == "self"@ && ty == IrType::I64),
    ensures
        walk_ok(final(caps)@, final(seen)@, p, l),
        grew(old(caps)@, final(caps)@),
        old(seen)@.subset_of(final(seen)@),
        names_of(final(caps)@) == names_of(old(caps)@).insert(name@),
{
    let ghost before = caps@;
    let ghost n = name@;
    seen.insert(name.clone());
    let ghost entry = (name, ty);
    caps.push((name, ty));
    proof {
        lemma_names_of_push(before, entry);
        assert(caps@.subrange(0, before.len() as int) =~= before);
        assert forall|i: int, j: int| 0 <= i < j < caps@.len() implies (#[trigger] caps@[i]).0@ != (#[trigger] caps@[j]).0@ by {
            if j == before.len() {
                assert(old(seen)@.contains(caps@[i].0@));
            }
        }
    }
}

/// Variables of the enclosing scope `locals` referenced in closure body
/// `body`, excluding the closure's own parameters, each once, in order of
/// first reference; `self`/`parent` count as a capture of `self`. Variables
/// needed by closures nested in `body` are captured too.
pub fn collect_captures(
    body: &Block,
    param_names: &NameSet,
    locals: &NameMap<(Value, IrType, bool)>,
) -> (r: Vec<(String, IrType)>)
    ensures
        caps_ok(r@, param_names@, locals@),
        names_of(r@) == block_caps(*body, true, param_names@, locals@.dom()),
    decreases body, 1nat,
{
    let mut caps: Vec<(String, IrType)> = Vec::new();
    let mut seen = NameSet::new();
    proof {
        lemma_names_of_empty();
        assert(caps@ =~= Seq::<(String, IrType)>::empty());
    }
    walk_block_caps(body, param_names, locals, &mut caps, &mut seen, true);
    proof {
        assert(names_of(caps@) =~= block_caps(*body, true, param_names@, locals@.dom()));
    }
    caps
}

/// Variables of `locals` that closures created inside `body` (at any depth)
/// capture; direct references of `body` itself do not count. Used to move
/// such variables to the heap before a loop whose body creates closures.
pub fn names_captured_by_nested_closures(
    body: &Block,
    locals: &NameMap<(Value, IrType, bool)>,
) -> (r: Vec<(String, IrType)>)
    ensures
        caps_ok(r@, Set::empty(), locals@),
        names_of(r@) == block_caps(*body, false, Set::empty(), locals@.dom()),
{
    let mut caps: Vec<(String, IrType)> = Vec::new();
    let mut seen = NameSet::new();
    let no_params = NameSet::new();
    proof {
        lemma_names_of_empty();
        assert(caps@ =~= Seq::<(String, IrType)>::empty());
    }
    walk_block_caps(body, &no_params, locals, &mut caps, &mut seen, false);
    proof {
        assert(names_of(caps@) =~= block_caps(*body, false, Set::empty(), locals@.dom()));
    }
    caps
}

fn walk_block_caps(
    b: &Block,
    p: &NameSet,
    l: &NameMap<(Value, IrType, bool)>,
    caps: &mut Vec<(String, IrType)>,
    seen: &mut NameSet,
    count_direct_refs: bool,
)
    requires
        walk_ok(old(caps)@, old(seen)@, p@, l@),
    ensures
        walk_ok(final(caps)@, final(seen)@, p@, l@),
        grew(old(caps)@, final(caps)@),
        old(seen)@.subset_of(final(seen)@),
        names_of(final(caps)@) == names_of(old(caps)@).union(block_caps(*b, count_direct_refs, p@, l@.dom())),
    decreases b, 0nat,
{
    let mut i: usize = 0;
    proof {
        lemma_grew_refl(caps@);
        assert(names_of(caps@) =~= names_of(caps@).union(stmts_caps(b.stmts@, 0, count_direct_refs, p@, l@.dom())));
    }
    while i < b.stmts.len()
        invariant
            i <= b.stmts@.len(),
            walk_ok(caps@, seen@, p@, l@),
            grew(old(caps)@, caps@),
            old(seen)@.subset_of(seen@),
            names_of(caps@) == names_of(old(caps)@).union(stmts_caps(b.stmts@, i as int, count_direct_refs, p@, l@.dom())),
        decreases b.stmts@.len() - i,
    {
        proof {
            assert(decreases_to!(*b => b.stmts));
            assert(decreases_to!(b.stmts => b.stmts@));
            assert(decreases_to!(b.stmts@ => b.stmts@[i as int]));
        }
        let ghost before = caps@;
        walk_stmt_caps(&b.stmts[i], p, l, caps, seen, count_direct_refs);
        proof {
            lemma_grew_trans(old(caps)@, before, caps@);
            assert(names_of(caps@) =~= names_of(old(caps)@).union(
                stmts_caps(b.stmts@, i + 1, count_direct_refs, p@, l@.dom())));
        }
        i = i + 1;
    }
}

fn walk_exprs_caps(
    es: &Vec<Expr>,
    p: &NameSet,
    l: &NameMap<(Value, IrType, bool)>,
    caps: &mut Vec<(String, IrType)>,
    seen: &mut NameSet,
    count_direct_refs: bool,
)
    requires
        walk_ok(old(caps)@, old(seen)@, p@, l@),
    ensures
        walk_ok(final(caps)@, final(seen)@, p@, l@),
        grew(old(caps)@, final(caps)@),
        old(seen)@.subset_of(final(seen)@),
        names_of(final(caps)@) == names_of(old(caps)@).union(exprs_caps(es@, es@.len() as int, count_direct_refs, p@, l@.dom())),
    decreases es, 0nat,
{
    let mut i: usize = 0;
    proof {
        lemma_grew_refl(caps@);
        assert(names_of(caps@) =~= names_of(caps@).union(exprs_caps(es@, 0, count_direct_refs, p@, l@.dom())));
    }
    while i < es.len()
        invariant
            i <= es@.len(),
            walk_ok(caps@, seen@, p@, l@),
            grew(old(caps)@, caps@),
            old(seen)@.subset_of(seen@),
            names_of(caps@) == names_of(old(caps)@).union(exprs_caps(es@, i as int, count_direct_refs, p@, l@.dom())),
        decreases es@.len() - i,
    {
        proof {
            assert(decreases_to!(*es => es@));
            assert(decreases_to!(es@ => es@[i as int]));
        }
        let ghost before = caps@;
        walk_expr_caps(&es[i], p, l, caps, seen, count_direct_refs);
        proof {
            lemma_grew_trans(old(caps)@, before, caps@);
            assert(names_of(caps@) =~= names_of(old(caps)@).union(
                exprs_caps(es@, i + 1, count_direct_refs, p@, l@.dom())));
        }
        i = i + 1;
    }
}

fn walk_stmt_caps(
    stmt: &Stmt,
    p: &NameSet,
    l: &NameMap<(Value, IrType, bool)>,
    caps: &mut Vec<(String, IrType)>,
    seen: &mut NameSet,
    count_direct_refs: bool,
)
    requires
        walk_ok(old(caps)@, old(seen)@, p@, l@),
    ensures
        walk_ok(final(caps)@, final(seen)@, p@, l@),
        grew(old(caps)@, final(caps)@),
        old(seen)@.subset_of(final(seen)@),
        names_of(final(caps)@) == names_of(old(caps)@).union(stmt_caps(*stmt, count_direct_refs, p@, l@.dom())),
    decreases stmt, 0nat,
{
    let ghost c0 = caps@;
    let ghost d = count_direct_refs;
    let ghost ps = p@;
    let ghost ls = l@.dom();
    proof {
        lemma_grew_refl(caps@);
    }
    match stmt {
        Stmt::Var { value, .. } => walk_expr_caps(value, p, l, caps, seen, count_direct_refs),
        Stmt::Const { value, .. } => walk_expr_caps(value, p, l, caps, seen, count_direct_refs),
        Stmt::Expr(e) => walk_expr_caps(e, p, l, caps, seen, count_direct_refs),
        Stmt::Assign { target, value, .. } => {
            walk_expr_caps(target, p, l, caps, seen, count_direct_refs);
            let ghost c1 = caps@;
            walk_expr_caps(value, p, l, caps, seen, count_direct_refs);
            proof {
                lemma_grew_trans(c0, c1, caps@);
                assert(names_of(caps@) =~= names_of(c0).union(stmt_caps(*stmt, d, ps, ls)));
            }
        },
        Stmt::Return { value: Some(e), .. } | Stmt::Result { value: Some(e), .. } =>
            walk_expr_caps(e, p, l, caps, seen, count_direct_refs),
        Stmt::Return { .. } | Stmt::Result { .. } | Stmt::Break { .. } | Stmt::Continue { .. } => {
            proof {
                assert(names_of(caps@) =~= names_of(c0).union(stmt_caps(*stmt, d, ps, ls)));
            }
        },
        Stmt::If { condition, then_block, elseif, else_block, .. } => {
            walk_expr_caps(condition, p, l, caps, seen, count_direct_refs);
            let ghost c1 = caps@;
            walk_block_caps(then_block, p, l, caps, seen, count_direct_refs);
            proof { lemma_grew_trans(c0, c1, caps@); }
            let ghost c1b = caps@;
            let mut i: usize = 0;
            proof {
                assert(decreases_to!(*stmt => *elseif));
                assert(names_of(caps@) =~= names_of(c1b).union(elseif_caps(elseif@, 0, d, ps, ls)));
            }
            while i < elseif.len()
                invariant
                    i <= elseif@.len(),
                    decreases_to!(*stmt => *elseif),
                    walk_ok(caps@, seen@, p@, l@),
                    grew(c0, caps@),
                    old(seen)@.subset_of(seen@),
                    d == count_direct_refs,
                    ps == p@,
                    ls == l@.dom(),
                    names_of(caps@) == names_of(c1b).union(elseif_caps(elseif@, i as int, d, ps, ls)),
                decreases elseif@.len() - i,
            {
                proof {
                    assert(decreases_to!(*elseif => elseif@));
                    assert(decreases_to!(elseif@ => elseif@[i as int]));
                    assert(decreases_to!(elseif@[i as int] => elseif@[i as int].0));
                    assert(decreases_to!(elseif@[i as int] => elseif@[i as int].1));
                }
                let ghost c2 = caps@;
                walk_expr_caps(&elseif[i].0, p, l, caps, seen, count_direct_refs);
                let ghost c3 = caps@;
                walk_block_caps(&elseif[i].1, p, l, caps, seen, count_direct_refs);
                proof {
                    lemma_grew_trans(c2, c3, caps@);
                    lemma_grew_trans(c0, c2, caps@);
                    assert(names_of(caps@) =~= names_of(c1b).union(elseif_caps(elseif@, i + 1, d, ps, ls)));
                }
                i = i + 1;
            }
            let ghost c4 = caps@;
            match else_block {
                Some(blk) => {
                    walk_block_caps(blk, p, l, caps, seen, count_direct_refs);
                    proof { lemma_grew_trans(c0, c4, caps@); }
                },
                None => {},
            }
            proof {
                assert(names_of(caps@) =~= names_of(c0).union(stmt_caps(*stmt, d, ps, ls)));
            }
        },
        Stmt::While { condition, body, .. } => {
            walk_expr_caps(condition, p, l, caps, seen, count_direct_refs);
            let ghost c1 = caps@;
            walk_block_caps(body, p, l, caps, seen, count_direct_refs);
            proof {
                lemma_grew_trans(c0, c1, caps@);
                assert(names_of(caps@) =~= names_of(c0).union(stmt_caps(*stmt, d, ps, ls)));
            }
        },
        Stmt::ForIn { iter, body, .. } => {
            walk_expr_caps(iter, p, l, caps, seen, count_direct_refs);
            let ghost c1 = caps@;
            walk_block_caps(body, p, l, caps, seen, count_direct_refs);
            proof {
                lemma_grew_trans(c0, c1, caps@);
                assert(names_of(caps@) =~= names_of(c0).union(stmt_caps(*stmt, d, ps, ls)));
            }
        },
        Stmt::ForMap { iter, body, .. } => {
            walk_expr_caps(iter, p, l, caps, seen, count_direct_refs);
            let ghost c1 = caps@;
            walk_block_caps(body, p, l, caps, seen, count_direct_refs);
            proof {
                lemma_grew_trans(c0, c1, caps@);
                assert(names_of(caps@) =~= names_of(c0).union(stmt_caps(*stmt, d, ps, ls)));
            }
        },
        Stmt::Switch { subject, cases, default, .. } => {
            walk_expr_caps(subject, p, l, caps, seen, count_direct_refs);
            let ghost c1 = caps@;
            let mut i: usize = 0;
            proof {
                assert(decreases_to!(*stmt => *cases));
                assert(names_of(caps@) =~= names_of(c1).union(cases_caps(cases@, 0, d, ps, ls)));
            }
            while i < cases.len()
                invariant
                    i <= cases@.len(),
                    decreases_to!(*stmt => *cases),
                    walk_ok(caps@, seen@, p@, l@),
                    grew(c0, caps@),
                    old(seen)@.subset_of(seen@),
                    d == count_direct_refs,
                    ps == p@,
                    ls == l@.dom(),
                    names_of(caps@) == names_of(c1).union(cases_caps(cases@, i as int, d, ps, ls)),
                decreases cases@.len() - i,
            {
                proof {
                    assert(decreases_to!(*cases => cases@));
                    assert(decreases_to!(cases@ => cases@[i as int]));
                    assert(decreases_to!(cases@[i as int] => cases@[i as int].body));
                }
                let ghost c2 = caps@;
                walk_block_caps(&cases[i].body, p, l, caps, seen, count_direct_refs);
                proof {
                    lemma_grew_trans(c0, c2, caps@);
                    assert(names_of(caps@) =~= names_of(c1).union(cases_caps(cases@, i + 1, d, ps, ls)));
                }
                i = i + 1;
            }
            let ghost c4 = caps@;
            match default {
                Some(blk) => {
                    walk_block_caps(blk, p, l, caps, seen, count_direct_refs);
                    proof { lemma_grew_trans(c0, c4, caps@); }
                },
                None => {},
            }
            proof {
                assert(names_of(caps@) =~= names_of(c0).union(stmt_caps(*stmt, d, ps, ls)));
            }
        },
        Stmt::Try { body, handlers, .. } => {
            walk_block_caps(body, p, l, caps, seen, count_direct_refs);
            let ghost c1 = caps@;
            let mut i: usize = 0;
            proof {
                assert(decreases_to!(*stmt => *handlers));
                assert(names_of(caps@) =~= names_of(c1).union(handlers_caps(handlers@, 0, d, ps, ls)));
            }
            while i < handlers.len()
                invariant
                    i <= handlers@.len(),
                    decreases_to!(*stmt => *handlers),
                    walk_ok(caps@, seen@, p@, l@),
                    grew(c0, caps@),
                    old(seen)@.subset_of(seen@),
                    d == count_direct_refs,
                    ps == p@,
                    ls == l@.dom(),
                    names_of(caps@) == names_of(c1).union(handlers_caps(handlers@, i as int, d, ps, ls)),
                decreases handlers@.len() - i,
            {
                proof {
                    assert(decreases_to!(*handlers => handlers@));
                    assert(decreases_to!(handlers@ => handlers@[i as int]));
                    assert(decreases_to!(handlers@[i as int] => handlers@[i as int].body));
                }
                let ghost c2 = caps@;
                walk_block_caps(&handlers[i].body, p, l, caps, seen, count_direct_refs);
                proof {
                    lemma_grew_trans(c0, c2, caps@);
                    assert(names_of(caps@) =~= names_of(c1).union(handlers_caps(handlers@, i + 1, d, ps, ls)));
                }
                i = i + 1;
            }
            proof {
                assert(names_of(caps@) =~= names_of(c0).union(stmt_caps(*stmt, d, ps, ls)));
            }
        },
        Stmt::Raise { value, .. } => walk_expr_caps(value, p, l, caps, seen, count_direct_refs),
        Stmt::Emit { value, .. } => walk_expr_caps(value, p, l, caps, seen, count_direct_refs),
    }
}

fn walk_expr_caps(
    expr: &Expr,
    p: &NameSet,
    l: &NameMap<(Value, IrType, bool)>,
    caps: &mut Vec<(String, IrType)>,
    seen: &mut NameSet,
    count_direct_refs: bool,
)
    requires
        walk_ok(old(caps)@, old(seen)@, p@, l@),
    ensures
        walk_ok(final(caps)@, final(seen)@, p@, l@),
        grew(old(caps)@, final(caps)@),
        old(seen)@.subset_of(final(seen)@),
        names_of(final(caps)@) == names_of(old(caps)@).union(expr_caps(*expr, count_direct_refs, p@, l@.dom())),
    decreases expr, 0nat,
{
    let ghost c0 = caps@;
    let ghost d = count_direct_refs;
    let ghost ps = p@;
    let ghost ls = l@.dom();
    proof {
        lemma_grew_refl(caps@);
    }
    match expr {
        Expr::Ident(name, _) => {
            if count_direct_refs && !p.contains(name.as_str()) && !seen.contains(name.as_str()) {
                match l.get(name.as_str()) {
                    Some(entry) => {
                        add_capture(caps, seen, name.clone(), entry.1, Ghost(p@), Ghost(l@));
                    },
                    None => {},
                }
            }
            proof {
                assert(names_of(caps@) =~= names_of(c0).union(expr_caps(*expr, d, ps, ls)));
            }
        },
        Expr::SelfExpr(_) | Expr::ParentExpr(_) => {
            proof {
                reveal_strlit("self");
            }
            if count_direct_refs && !seen.contains("self") {
                add_capture(caps, seen, "self".to_owned(), IrType::I64, Ghost(p@), Ghost(l@));
            }
            proof {
                assert(names_of(caps@) =~= names_of(c0).union(expr_caps(*expr, d, ps, ls)));
            }
        },
        Expr::Binary { left, right, .. } => {
            walk_expr_caps(left, p, l, caps, seen, count_direct_refs);
            let ghost c1 = caps@;
            walk_expr_caps(right, p, l, caps, seen, count_direct_refs);
            proof {
                lemma_grew_trans(c0, c1, caps@);
                assert(names_of(caps@) =~= names_of(c0).union(expr_caps(*expr, d, ps, ls)));
            }
        },
        Expr::Unary { operand, .. } => walk_expr_caps(operand, p, l, caps, seen, count_direct_refs),
        Expr::Field { object, .. } => walk_expr_caps(object, p, l, caps, seen, count_direct_refs),
        Expr::Call { callee, args, .. } => {
            walk_expr_caps(callee, p, l, caps, seen, count_direct_refs);
            let ghost c1 = caps@;
            walk_exprs_caps(args, p, l, caps, seen, count_direct_refs);
            proof {
                lemma_grew_trans(c0, c1, caps@);
                assert(names_of(caps@) =~= names_of(c0).union(expr_caps(*expr, d, ps, ls)));
            }
        },
        Expr::StaticCall { args, .. } => walk_exprs_caps(args, p, l, caps, seen, count_direct_refs),
        Expr::New { args, .. } => walk_exprs_caps(args, p, l, caps, seen, count_direct_refs),
        Expr::Index { object, index, .. } => {
            walk_expr_caps(object, p, l, caps, seen, count_direct_refs);
            let ghost c1 = caps@;
            walk_expr_caps(index, p, l, caps, seen, count_direct_refs);
            proof {
                lemma_grew_trans(c0, c1, caps@);
                assert(names_of(caps@) =~= names_of(c0).union(expr_caps(*expr, d, ps, ls)));
            }
        },
        Expr::Range { start, end, .. } => {
            walk_expr_caps(start, p, l, caps, seen, count_direct_refs);
            let ghost c1 = caps@;
            walk_expr_caps(end, p, l, caps, seen, count_direct_refs);
            proof {
                lemma_grew_trans(c0, c1, caps@);
                assert(names_of(caps@) =~= names_of(c0).union(expr_caps(*expr, d, ps, ls)));
            }
        },
        Expr::Array { elements, .. } => walk_exprs_caps(elements, p, l, caps, seen, count_direct_refs),
        Expr::Dict { entries, .. } => {
            let mut i: usize = 0;
            proof {
                assert(decreases_to!(*expr => *entries));
                assert(names_of(caps@) =~= names_of(c0).union(entries_caps(entries@, 0, d, ps, ls)));
            }
            while i < entries.len()
                invariant
                    i <= entries@.len(),
                    decreases_to!(*expr => *entries),
                    walk_ok(caps@, seen@, p@, l@),
                    grew(c0, caps@),
                    old(seen)@.subset_of(seen@),
                    d == count_direct_refs,
                    ps == p@,
                    ls == l@.dom(),
                    names_of(caps@) == names_of(c0).union(entries_caps(entries@, i as int, d, ps, ls)),
                decreases entries@.len() - i,
            {
                proof {
                    assert(decreases_to!(*entries => entries@));
                    assert(decreases_to!(entries@ => entries@[i as int]));
                    assert(decreases_to!(entries@[i as int] => entries@[i as int].0));
                    assert(decreases_to!(entries@[i as int] => entries@[i as int].1));
                }
                let ghost c2 = caps@;
                walk_expr_caps(&entries[i].0, p, l, caps, seen, count_direct_refs);
                let ghost c3 = caps@;
                walk_expr_caps(&entries[i].1, p, l, caps, seen, count_direct_refs);
                proof {
                    lemma_grew_trans(c2, c3, caps@);
                    lemma_grew_trans(c0, c2, caps@);
                    assert(names_of(caps@) =~= names_of(c0).union(entries_caps(entries@, i + 1, d, ps, ls)));
                }
                i = i + 1;
            }
        },
        Expr::Template { parts, .. } => {
            let mut i: usize = 0;
            proof {
                assert(decreases_to!(*expr => *parts));
                assert(names_of(caps@) =~= names_of(c0).union(parts_caps(parts@, 0, d, ps, ls)));
            }
            while i < parts.len()
                invariant
                    i <= parts@.len(),
                    decreases_to!(*expr => *parts),
                    walk_ok(caps@, seen@, p@, l@),
                    grew(c0, caps@),
                    old(seen)@.subset_of(seen@),
                    d == count_direct_refs,
                    ps == p@,
                    ls == l@.dom(),
                    names_of(caps@) == names_of(c0).union(parts_caps(parts@, i as int, d, ps, ls)),
                decreases parts@.len() - i,
            {
                proof {
                    assert(decreases_to!(*parts => parts@));
                    assert(decreases_to!(parts@ => parts@[i as int]));
                }
                match &parts[i] {
                    TemplatePartExpr::Expr(e) => {
                        let ghost c2 = caps@;
                        walk_expr_caps(e, p, l, caps, seen, count_direct_refs);
                        proof { lemma_grew_trans(c0, c2, caps@); }
                    },
                    TemplatePartExpr::Literal(_) => {},
                }
                proof {
                    assert(names_of(caps@) =~= names_of(c0).union(parts_caps(parts@, i + 1, d, ps, ls)));
                }
                i = i + 1;
            }
        },
        Expr::Match { subject, arms, .. } => {
            walk_expr_caps(subject, p, l, caps, seen, count_direct_refs);
            let ghost c1 = caps@;
            let mut i: usize = 0;
            proof {
                assert(decreases_to!(*expr => *arms));
                assert(names_of(caps@) =~= names_of(c1).union(arms_caps(arms@, 0, d, ps, ls)));
            }
            while i < arms.len()
                invariant
                    i <= arms@.len(),
                    decreases_to!(*expr => *arms),
                    walk_ok(caps@, seen@, p@, l@),
                    grew(c0, caps@),
                    old(seen)@.subset_of(seen@),
                    d == count_direct_refs,
                    ps == p@,
                    ls == l@.dom(),
                    names_of(caps@) == names_of(c1).union(arms_caps(arms@, i as int, d, ps, ls)),
                decreases arms@.len() - i,
            {
                proof {
                    assert(decreases_to!(*arms => arms@));
                    assert(decreases_to!(arms@ => arms@[i as int]));
                    assert(decreases_to!(arms@[i as int] => arms@[i as int].body));
                }
                let ghost c2 = caps@;
                walk_expr_caps(&arms[i].body, p, l, caps, seen, count_direct_refs);
                proof {
                    lemma_grew_trans(c0, c2, caps@);
                    assert(names_of(caps@) =~= names_of(c1).union(arms_caps(arms@, i + 1, d, ps, ls)));
                }
                i = i + 1;
            }
            proof {
                assert(names_of(caps@) =~= names_of(c0).union(expr_caps(*expr, d, ps, ls)));
            }
        },
        Expr::IsCheck { expr: inner, .. } => walk_expr_caps(inner, p, l, caps, seen, count_direct_refs),
        Expr::Resolve { expr: inner, .. } => walk_expr_caps(inner, p, l, caps, seen, count_direct_refs),
        Expr::IncDec { target, .. } => walk_expr_caps(target, p, l, caps, seen, count_direct_refs),
        Expr::Nameless { params, body, .. } => {
            let mut nested_params = NameSet::new();
            let mut k: usize = 0;
            while k < params.len()
                invariant
                    k <= params@.len(),
                    forall|n: Seq<char>| nested_params@.contains(n)
                        <==> exists|j: int| 0 <= j < k && (#[trigger] params@[j]).name@ == n,
                decreases params@.len() - k,
            {
                nested_params.insert(params[k].name.clone());
                proof {
                    assert forall|n: Seq<char>| (exists|j: int| 0 <= j < k + 1 && (#[trigger] params@[j]).name@ == n)
                        implies nested_params@.contains(n) by {
                        let j = choose|j: int| 0 <= j < k + 1 && (#[trigger] params@[j]).name@ == n;
                        if j < k {
                            assert(exists|j2: int| 0 <= j2 < k && (#[trigger] params@[j2]).name@ == n);
                        }
                    }
                }
                k = k + 1;
            }
            proof {
                assert(nested_params@ =~= param_name_set(params@));
            }
            let nested = collect_captures(body, &nested_params, l);
            let ghost nested_set = block_caps(*body, true, param_name_set(params@), ls);
            let mut i: usize = 0;
            proof {
                assert(names_of(nested@.take(0)) =~= Set::<Seq<char>>::empty());
                assert(names_of(caps@) =~= names_of(c0).union(names_of(nested@.take(0)).difference(ps)));
            }
            while i < nested.len()
                invariant
                    i <= nested@.len(),
                    caps_ok(nested@, nested_params@, l@),
                    walk_ok(caps@, seen@, p@, l@),
                    grew(c0, caps@),
                    old(seen)@.subset_of(seen@),
                    ps == p@,
                    names_of(caps@) == names_of(c0).union(names_of(nested@.take(i as int)).difference(ps)),
                decreases nested@.len() - i,
            {
                let name = &nested[i].0;
                let ty = nested[i].1;
                let ghost c2 = caps@;
                if !p.contains(name.as_str()) && !seen.contains(name.as_str()) {
                    proof {
                        let _e = nested@[i as int];
                    }
                    add_capture(caps, seen, name.clone(), ty, Ghost(p@), Ghost(l@));
                    proof { lemma_grew_trans(c0, c2, caps@); }
                }
                proof {
                    assert(nested@.take(i + 1) =~= nested@.take(i as int).push(nested@[i as int]));
                    lemma_names_of_push(nested@.take(i as int), nested@[i as int]);
                    assert(names_of(caps@) =~= names_of(c0).union(names_of(nested@.take(i + 1)).difference(ps)));
                }
                i = i + 1;
            }
            proof {
                assert(nested@.take(nested@.len() as int) =~= nested@);
                assert(names_of(caps@) =~= names_of(c0).union(expr_caps(*expr, d, ps, ls)));
            }
        },
        Expr::Literal(..) | Expr::StaticConst { .. } => {
            proof {
                assert(names_of(caps@) =~= names_of(c0).union(expr_caps(*expr, d, ps, ls)));
            }
        },
    }
}

/// The statements of `b` from position `from` on.
pub open spec fn stmts_from(b: Block, from: int) -> Seq<Stmt> {
    if 0 <= from <= b.stmts@.len() { b.stmts@.subrange(from, b.stmts@.len() as int) } else { Seq::empty() }
}

/// True when a statement of `block` from position `from` on refers to
/// `name` (directly or through a closure it creates): `name` is among what
/// those statements make a closure capture when `name` is the only
/// variable in scope (see `stmt_caps`).
pub fn references_after(block: &Block, from: usize, name: &str) -> (r: bool)
    ensures
        r == stmts_caps(stmts_from(*block, from as int), stmts_from(*block, from as int).len() as int, true,
            Set::empty(), set![name@]).contains(name@),
{
    let mut l: NameMap<(Value, IrType, bool)> = NameMap::new();
    l.insert(name.to_owned(), (Value(0), IrType::Ptr, false));
    let p = NameSet::new();
    let mut caps: Vec<(String, IrType)> = Vec::new();
    let mut seen = NameSet::new();
    let ghost rest = stmts_from(*block, from as int);
    proof {
        lemma_names_of_empty();
        assert(caps@ =~= Seq::<(String, IrType)>::empty());
        assert(l@.dom() =~= set![name@]);
        assert(p@ =~= Set::<Seq<char>>::empty());
        assert(names_of(caps@) =~= stmts_caps(rest, 0, true, p@, l@.dom()));
    }
    let start: usize = if from <= block.stmts.len() { from } else { block.stmts.len() };
    proof {
        assert(rest =~= block.stmts@.subrange(start as int, block.stmts@.len() as int));
    }
    let mut j: usize = start;
    while j < block.stmts.len()
        invariant
            walk_ok(caps@, seen@, p@, l@),
            start <= j <= block.stmts@.len(),
            rest == block.stmts@.subrange(start as int, block.stmts@.len() as int),
            names_of(caps@) == stmts_caps(rest, j - start, true, p@, l@.dom()),
        decreases block.stmts@.len() - j,
    {
        proof {
            assert(rest[j - start] == block.stmts@[j as int]);
        }
        walk_stmt_caps(&block.stmts[j], &p, &l, &mut caps, &mut seen, true);
        proof {
            assert(names_of(caps@) =~= stmts_caps(rest, j - start + 1, true, p@, l@.dom()));
        }
        j = j + 1;
    }
    let ghost full = stmts_caps(rest, rest.len() as int, true, Set::empty(), set![name@]);
    proof {
        assert(l@.dom() =~= set![name@]);
        assert(p@ =~= Set::<Seq<char>>::empty());
        assert(names_of(caps@) == full);
    }
    let mut k: usize = 0;
    while k < caps.len()
        invariant
            k <= caps@.len(),
            names_of(caps@) == full,
            full == stmts_caps(stmts_from(*block, from as int), stmts_from(*block, from as int).len() as int, true,
                Set::empty(), set![name@]),
            forall|m: int| 0 <= m < k ==> (#[trigger] caps@[m]).0@ != name@,
        decreases caps@.len() - k,
    {
        if str_eq(caps[k].0.as_str(), name) {
            proof {
                assert(caps@[k as int].0@ == name@);
                assert(names_of(caps@).contains(name@));
            }
            return true;
        }
        k = k + 1;
    }
    proof {
        assert(!names_of(caps@).contains(name@));
    }
    false
}

} // verus!
