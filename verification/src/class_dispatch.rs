//! Dynamic dispatch for class inheritance: calls on a class that has
//! subclasses go through `__dispatch_<Class>_<method>`, which picks the
//! implementation of the object's actual class.
use vstd::prelude::*;
use vstd::set_lib::{lemma_int_range, lemma_len_subset, set_int_range};
use crate::ast::{ClassDecl, ClassMember, FuncDecl, Program};
use crate::builder::LowerBuilder;
use crate::helpers::opt_view;
use crate::ir::{BlockId, Inst, InstV, IrModule, IrParam, IrType, Value, ir_type_of};
use crate::names::NameSet;
use crate::text::{concat, mangle, mangle_spec, str_eq};

verus! {

/// Name of the dispatcher of `class_name.method_name()`.
pub open spec fn dispatcher_name_spec(class_name: Seq<char>, method_name: Seq<char>) -> Seq<char> {
    "__dispatch_"@ + class_name + "_"@ + method_name
}

/// The dispatcher of `class_name.method_name()`, or `None` when the class
/// has no subclass (the direct call then suffices).
pub fn class_dispatcher_name(module: &IrModule, class_name: &str, method_name: &str) -> (r: Option<String>)
    ensures
        module.classes_with_subclasses@.contains(class_name@) ==> r is Some
            && r.unwrap()@ == dispatcher_name_spec(class_name@, method_name@),
        !module.classes_with_subclasses@.contains(class_name@) ==> r is None,
{
    if !module.classes_with_subclasses.contains(class_name) {
        return None;
    }
    let a = concat("__dispatch_", class_name);
    let b = concat(a.as_str(), "_");
    Some(concat(b.as_str(), method_name))
}

/// Class `i` of `classes` directly extends the class named `parent`.
pub open spec fn extends_name(classes: Seq<ClassDecl>, i: int, parent: Seq<char>) -> bool {
    0 <= i < classes.len() && opt_view(classes[i].extends) == Some(parent)
}

/// Some class directly extends the class named `parent`.
pub open spec fn has_child(classes: Seq<ClassDecl>, parent: Seq<char>) -> bool {
    exists|i: int| #[trigger] extends_name(classes, i, parent)
}

/// `chain` (indices of classes) leads from a class named `d` up to a child
/// of `root`: each class extends the next, the last one extends `root`.
pub open spec fn is_chain(classes: Seq<ClassDecl>, chain: Seq<int>, d: Seq<char>, root: Seq<char>) -> bool {
    &&& chain.len() > 0
    &&& 0 <= chain[0] < classes.len() && classes[chain[0]].name@ == d
    &&& forall|k: int| 0 <= k < chain.len() ==> 0 <= #[trigger] chain[k] < classes.len()
    &&& forall|k: int| 0 <= k < chain.len() - 1 ==>
        opt_view(classes[#[trigger] chain[k]].extends) == Some(classes[chain[k + 1]].name@)
    &&& extends_name(classes, chain.last(), root)
}

/// A class named `d` extends `root`, directly or through other classes.
pub open spec fn is_descendant(classes: Seq<ClassDecl>, d: Seq<char>, root: Seq<char>) -> bool {
    exists|chain: Seq<int>| #[trigger] is_chain(classes, chain, d, root)
}

/// The names of `s` are distinct.
pub open spec fn distinct(s: Seq<String>) -> bool {
    forall|a: int, b: int| 0 <= a < b < s.len() ==> (#[trigger] s[a])@ != (#[trigger] s[b])@
}

/// `s` holds a string equal to `x`.
pub open spec fn holds(s: Seq<String>, x: Seq<char>) -> bool {
    exists|k: int| 0 <= k < s.len() && (#[trigger] s[k])@ == x
}

fn contains_name(v: &Vec<String>, x: &str) -> (r: bool)
    ensures
        r == holds(v@, x@),
{
    let mut i: usize = 0;
    while i < v.len()
        invariant
            i <= v@.len(),
            forall|k: int| 0 <= k < i ==> (#[trigger] v@[k])@ != x@,
        decreases v@.len() - i,
    {
        if str_eq(v[i].as_str(), x) {
            return true;
        }
        i = i + 1;
    }
    false
}

/// Every class that extends `class_name`, directly or transitively, each
/// name once, in the order a depth-first walk from `class_name` meets them.
/// Every name returned is a descendant, and every child of `class_name` or
/// of a returned class is returned.
pub fn transitive_descendants(class_name: &str, all_classes: &Vec<ClassDecl>) -> (r: Vec<String>)
    ensures
        distinct(r@),
        forall|k: int| 0 <= k < r@.len() ==> is_descendant(all_classes@, (#[trigger] r@[k])@, class_name@),
        forall|i: int| #[trigger] extends_name(all_classes@, i, class_name@) ==> holds(r@, all_classes@[i].name@),
        forall|k: int, i: int| 0 <= k < r@.len() && #[trigger] extends_name(all_classes@, i, (#[trigger] r@[k])@)
            ==> holds(r@, all_classes@[i].name@),
{
    let ghost classes = all_classes@;
    let ghost n = classes.len() as int;
    let ghost root = class_name@;
    let mut result: Vec<String> = Vec::new();
    let mut frontier: Vec<String> = Vec::new();
    frontier.push(class_name.to_owned());
    let ghost mut marked: Set<int> = Set::empty();
    proof {
        lemma_int_range(0, n);
        assert(frontier@[0]@ == root);
        assert(holds(frontier@, root));
    }
    while frontier.len() > 0
        invariant
            classes == all_classes@,
            n == classes.len(),
            root == class_name@,
            distinct(result@),
            marked.finite(),
            marked.subset_of(set_int_range(0, n)),
            marked.len() == result@.len(),
            set_int_range(0, n).finite(),
            set_int_range(0, n).len() == n,
            forall|i: int| #[trigger] marked.contains(i) ==> holds(result@, classes[i].name@),
            forall|k: int| 0 <= k < result@.len() ==> is_descendant(classes, (#[trigger] result@[k])@, root),
            forall|k: int| 0 <= k < frontier@.len() ==>
                (#[trigger] frontier@[k])@ == root || holds(result@, frontier@[k]@),
            forall|x: Seq<char>| (x == root || holds(result@, x)) && !holds(frontier@, x) ==>
                forall|i: int| #[trigger] extends_name(classes, i, x) ==> holds(result@, classes[i].name@),
        decreases n - result@.len(), frontier@.len(),
    {
        proof {
            lemma_len_subset(marked, set_int_range(0, n));
        }
        let ghost f_before = frontier@;
        let current = frontier.pop().unwrap();
        let ghost f_after_pop = frontier@;
        proof {
            assert(f_before == f_after_pop.push(current));
            assert(f_before[f_before.len() - 1] == current);
        }
        let ghost r0 = result@;
        let mut j: usize = 0;
        while j < all_classes.len()
            invariant
                classes == all_classes@,
                n == classes.len(),
                root == class_name@,
                j <= n,
                current@ == root || holds(r0, current@),
                r0.is_prefix_of(result@),
                distinct(result@),
                marked.finite(),
                marked.subset_of(set_int_range(0, n)),
                marked.len() == result@.len(),
                forall|i: int| #[trigger] marked.contains(i) ==> holds(result@, classes[i].name@),
                forall|k: int| 0 <= k < result@.len() ==> is_descendant(classes, (#[trigger] result@[k])@, root),
                frontier@.len() >= f_after_pop.len(),
                frontier@.subrange(0, f_after_pop.len() as int) == f_after_pop,
                forall|k: int| f_after_pop.len() <= k < frontier@.len() ==> holds(result@, (#[trigger] frontier@[k])@),
                forall|k: int| 0 <= k < f_after_pop.len() ==>
                    (#[trigger] f_after_pop[k])@ == root || holds(r0, f_after_pop[k]@),
                forall|i: int| 0 <= i < j && #[trigger] extends_name(classes, i, current@) ==> holds(result@, classes[i].name@),
                frontier@.len() - f_after_pop.len() == result@.len() - r0.len(),
                forall|t: int| 0 <= t < result@.len() - r0.len() ==>
                    (#[trigger] frontier@[f_after_pop.len() + t])@ == result@[r0.len() + t]@,
            decreases n - j,
        {
            let c = &all_classes[j];
            let is_child = match &c.extends {
                Some(p) => str_eq(p.as_str(), current.as_str()),
                None => false,
            };
            if is_child && !contains_name(&result, c.name.as_str()) {
                let ghost old_result = result@;
                proof {
                    // The new name is a descendant: extend a chain of `current`.
                    if current@ == root {
                        let ch = seq![j as int];
                        assert(is_chain(classes, ch, c.name@, root));
                    } else {
                        let kk = choose|kk: int| 0 <= kk < r0.len() && (#[trigger] r0[kk])@ == current@;
                        assert(result@[kk] == r0[kk]);
                        assert(is_descendant(classes, result@[kk]@, root));
                        let ch0 = choose|ch0: Seq<int>| #[trigger] is_chain(classes, ch0, current@, root);
                        let ch = seq![j as int] + ch0;
                        assert forall|k: int| 0 <= k < ch.len() - 1 implies
                            opt_view(classes[#[trigger] ch[k]].extends) == Some(classes[ch[k + 1]].name@) by {
                            if k > 0 {
                                assert(ch[k] == ch0[k - 1]);
                                assert(ch[k + 1] == ch0[k]);
                            }
                        }
                        assert forall|k: int| 0 <= k < ch.len() implies 0 <= #[trigger] ch[k] < classes.len() by {
                            if k > 0 {
                                assert(ch[k] == ch0[k - 1]);
                            }
                        }
                        assert(ch.last() == ch0.last());
                        assert(is_chain(classes, ch, c.name@, root));
                    }
                    assert(!marked.contains(j as int));
                    marked = marked.insert(j as int);
                }
                result.push(c.name.clone());
                frontier.push(c.name.clone());
                proof {
                    assert(holds(result@, c.name@)) by {
                        assert(result@[result@.len() - 1]@ == c.name@);
                    }
                    assert forall|a: int, b: int| 0 <= a < b < result@.len() implies
                        (#[trigger] result@[a])@ != (#[trigger] result@[b])@ by {
                        if b == result@.len() - 1 {
                            assert(result@[a] == old_result[a]);
                        }
                    }
                    assert forall|i: int| #[trigger] marked.contains(i) implies holds(result@, classes[i].name@) by {
                        if i != j {
                            let w = choose|w: int| 0 <= w < old_result.len() && (#[trigger] old_result[w])@ == classes[i].name@;
                            assert(result@[w] == old_result[w]);
                        }
                    }
                    assert forall|k: int| 0 <= k < result@.len() implies
                        is_descendant(classes, (#[trigger] result@[k])@, root) by {
                        if k < old_result.len() {
                            assert(result@[k] == old_result[k]);
                        }
                    }
                    assert forall|k: int| f_after_pop.len() <= k < frontier@.len() implies
                        holds(result@, (#[trigger] frontier@[k])@) by {
                        if k == frontier@.len() - 1 {
                        } else {
                            let w = choose|w: int| 0 <= w < old_result.len() && (#[trigger] old_result[w])@ == frontier@[k]@;
                            assert(result@[w] == old_result[w]);
                        }
                    }
                    assert forall|i: int| 0 <= i < j + 1 && #[trigger] extends_name(classes, i, current@)
                        implies holds(result@, classes[i].name@) by {
                        if i < j {
                            let w = choose|w: int| 0 <= w < old_result.len() && (#[trigger] old_result[w])@ == classes[i].name@;
                            assert(result@[w] == old_result[w]);
                        }
                    }
                    assert(r0.is_prefix_of(result@)) by {
                        assert forall|k: int| 0 <= k < r0.len() implies r0[k] == result@[k] by {
                            assert(old_result[k] == r0[k]);
                        }
                        assert(r0 =~= result@.subrange(0, r0.len() as int));
                    }
                    assert(frontier@.subrange(0, f_after_pop.len() as int) =~= f_after_pop);
                    assert forall|t: int| 0 <= t < result@.len() - r0.len() implies
                        (#[trigger] frontier@[f_after_pop.len() + t])@ == result@[r0.len() + t]@ by {
                        if t < old_result.len() - r0.len() {
                            assert(result@[r0.len() + t] == old_result[r0.len() + t]);
                        }
                    }
                }
            } else {
                proof {
                    if is_child {
                        assert(holds(result@, c.name@));
                    }
                }
            }
            j = j + 1;
        }
        proof {
            lemma_len_subset(marked, set_int_range(0, n));
            assert(r0.len() <= result@.len());
            assert forall|k: int| 0 <= k < frontier@.len() implies
                (#[trigger] frontier@[k])@ == root || holds(result@, frontier@[k]@) by {
                if k < f_after_pop.len() {
                    assert(frontier@[k] == f_after_pop[k]);
                    assert(f_before[k] == f_after_pop[k]);
                    if f_after_pop[k]@ != root {
                        let w = choose|w: int| 0 <= w < r0.len() && (#[trigger] r0[w])@ == f_after_pop[k]@;
                        assert(result@[w] == r0[w]);
                    }
                }
            }
            assert forall|x: Seq<char>| (x == root || holds(result@, x)) && !holds(frontier@, x) implies
                (forall|i: int| #[trigger] extends_name(classes, i, x) ==> holds(result@, classes[i].name@)) by {
                if x == current@ {
                } else if x != root && !holds(r0, x) {
                    let w = choose|w: int| 0 <= w < result@.len() && (#[trigger] result@[w])@ == x;
                    if w < r0.len() {
                        assert(r0[w] == result@[w]);
                    }
                    let t = w - r0.len();
                    assert(frontier@[f_after_pop.len() + t]@ == result@[r0.len() + t]@);
                } else {
                    if holds(f_before, x) {
                        let w = choose|w: int| 0 <= w < f_before.len() && (#[trigger] f_before[w])@ == x;
                        if w < f_after_pop.len() {
                            assert(frontier@[w] == f_after_pop[w]);
                        }
                    }
                    assert(!holds(f_before, x));
                    assert forall|i: int| #[trigger] extends_name(classes, i, x) implies holds(result@, classes[i].name@) by {
                        assert(holds(r0, classes[i].name@));
                        let w = choose|w: int| 0 <= w < r0.len() && (#[trigger] r0[w])@ == classes[i].name@;
                        assert(result@[w] == r0[w]);
                    }
                }
            }
        }
    }
    proof {
        assert forall|i: int| #[trigger] extends_name(all_classes@, i, class_name@) implies
            holds(result@, all_classes@[i].name@) by {
            assert(!holds(frontier@, root));
        }
        assert forall|k: int, i: int| 0 <= k < result@.len() && #[trigger] extends_name(all_classes@, i, (#[trigger] result@[k])@)
            implies holds(result@, all_classes@[i].name@) by {
            assert(holds(result@, result@[k]@));
            assert(!holds(frontier@, result@[k]@));
        }
    }
    result
}


/// A class has a descendant exactly when some class extends it directly.
proof fn lemma_descendants_nonempty(classes: Seq<ClassDecl>, root: Seq<char>, r: Seq<String>)
    requires
        forall|k: int| 0 <= k < r.len() ==> is_descendant(classes, (#[trigger] r[k])@, root),
        forall|i: int| #[trigger] extends_name(classes, i, root) ==> holds(r, classes[i].name@),
    ensures
        r.len() > 0 <==> has_child(classes, root),
{
    if r.len() > 0 {
        assert(is_descendant(classes, r[0]@, root));
        let ch = choose|ch: Seq<int>| #[trigger] is_chain(classes, ch, r[0]@, root);
        assert(extends_name(classes, ch.last(), root));
    }
    if has_child(classes, root) {
        let i = choose|i: int| #[trigger] extends_name(classes, i, root);
        assert(holds(r, classes[i].name@));
    }
}

/// Records in the module every class of the program that has a subclass
/// (some class extends it, directly); nothing else of the module changes.
pub fn compute_classes_with_subclasses(module: &mut IrModule, program: &Program)
    ensures
        forall|x: Seq<char>| #[trigger] final(module).classes_with_subclasses@.contains(x) <==>
            (old(module).classes_with_subclasses@.contains(x) || (
                (exists|i: int| 0 <= i < program.classes@.len() && (#[trigger] program.classes@[i]).name@ == x)
                && has_child(program.classes@, x))),
        *final(module) == (IrModule { classes_with_subclasses: final(module).classes_with_subclasses, ..*old(module) }),
{
    let mut c: usize = 0;
    while c < program.classes.len()
        invariant
            c <= program.classes@.len(),
            *module == (IrModule { classes_with_subclasses: module.classes_with_subclasses, ..*old(module) }),
            forall|x: Seq<char>| #[trigger] module.classes_with_subclasses@.contains(x) <==>
                (old(module).classes_with_subclasses@.contains(x) || (
                    (exists|i: int| 0 <= i < c && (#[trigger] program.classes@[i]).name@ == x)
                    && has_child(program.classes@, x))),
        decreases program.classes@.len() - c,
    {
        let name = &program.classes[c].name;
        let d = transitive_descendants(name.as_str(), &program.classes);
        proof {
            lemma_descendants_nonempty(program.classes@, name@, d@);
        }
        if d.len() > 0 {
            module.classes_with_subclasses.insert(name.clone());
        }
        proof {
            assert forall|x: Seq<char>| #[trigger] module.classes_with_subclasses@.contains(x) <==>
                (old(module).classes_with_subclasses@.contains(x) || (
                    (exists|i: int| 0 <= i < c + 1 && (#[trigger] program.classes@[i]).name@ == x)
                    && has_child(program.classes@, x))) by {
                if x == name@ {
                    assert(program.classes@[c as int].name@ == x);
                }
            }
        }
        c = c + 1;
    }
}

/// `decl` is an instance method of class `i` of `classes`.
pub open spec fn is_instance_method_of(classes: Seq<ClassDecl>, i: int, decl: FuncDecl) -> bool {
    0 <= i < classes.len() && exists|k: int| 0 <= k < classes[i].members@.len()
        && is_instance_method_decl(#[trigger] classes[i].members@[k], decl)
}

/// Some class of `classes` has an instance method named `name`.
pub open spec fn is_instance_method_name(classes: Seq<ClassDecl>, name: Seq<char>) -> bool {
    exists|i: int, d: FuncDecl| #[trigger] is_instance_method_of(classes, i, d) && d.name@ == name
}

/// `m` is the instance method `decl`.
pub open spec fn is_instance_method_decl(m: ClassMember, decl: FuncDecl) -> bool {
    match m {
        ClassMember::Method { decl: d, is_static, .. } => !is_static && d == decl,
        _ => false,
    }
}

/// `ci` is the first class of `classes` named `name`: the one that a
/// lookup by name finds.
pub open spec fn first_named(classes: Seq<ClassDecl>, name: Seq<char>, ci: int) -> bool {
    &&& 0 <= ci < classes.len()
    &&& classes[ci].name@ == name
    &&& forall|j: int| 0 <= j < ci ==> (#[trigger] classes[j]).name@ != name
}

/// Member `k` of class `ci` is an instance method named `m`.
pub open spec fn instance_method_named(classes: Seq<ClassDecl>, ci: int, k: int, m: Seq<char>) -> bool {
    &&& 0 <= k < classes[ci].members@.len()
    &&& classes[ci].members@[k] matches ClassMember::Method { decl, is_static, .. } && !is_static && decl.name@ == m
}

/// The class named `class_name` itself declares an instance method `m`.
pub open spec fn declares_instance_method(classes: Seq<ClassDecl>, class_name: Seq<char>, m: Seq<char>) -> bool {
    exists|ci: int, k: int| first_named(classes, class_name, ci) && #[trigger] instance_method_named(classes, ci, k, m)
}

/// `module` holds the dispatcher of `class_name.m()`, which forwards to
/// `Class_m` first (then to the subclasses, by class id).
pub open spec fn has_class_dispatcher(module: IrModule, class_name: Seq<char>, m: Seq<char>) -> bool {
    exists|j: int| 0 <= j < module.functions@.len() && {
        let f = #[trigger] module.functions@[j];
        &&& f.name@ == dispatcher_name_spec(class_name, m)
        &&& f.params@.len() >= 1
        &&& f.params@[0].name@ == "self"@
        &&& forwards_to(f.code()[1], 0, mangle_spec(class_name, m), f.params@[0].slot, (f.params@.len() - 1) as nat)
    }
}

/// Names of the instance methods callable on `class_name`: its own and
/// those inherited along `extends`, each once (static methods and
/// constructors are never dispatched). The walk up the chain is bounded by
/// the number of classes, which an acyclic chain never exceeds.
fn callable_instance_method_names(class_name: &str, all_classes: &Vec<ClassDecl>) -> (r: Vec<String>)
    ensures
        distinct(r@),
        forall|k: int| 0 <= k < r@.len() ==> is_instance_method_name(all_classes@, (#[trigger] r@[k])@),
        forall|m: Seq<char>| #[trigger] declares_instance_method(all_classes@, class_name@, m) ==> holds(r@, m),
{
    let mut names: Vec<String> = Vec::new();
    let mut current: String = class_name.to_owned();
    let mut fuel: usize = all_classes.len();
    while fuel > 0
        invariant
            distinct(names@),
            forall|k: int| 0 <= k < names@.len() ==> is_instance_method_name(all_classes@, (#[trigger] names@[k])@),
            fuel <= all_classes@.len(),
            fuel == all_classes@.len() ==> current@ == class_name@,
            fuel < all_classes@.len() ==> forall|m: Seq<char>| #[trigger] declares_instance_method(all_classes@, class_name@, m)
                ==> holds(names@, m),
        ensures
            distinct(names@),
            forall|k: int| 0 <= k < names@.len() ==> is_instance_method_name(all_classes@, (#[trigger] names@[k])@),
            forall|m: Seq<char>| #[trigger] declares_instance_method(all_classes@, class_name@, m) ==> holds(names@, m),
        decreases fuel,
    {
        let ghost first = fuel == all_classes.len();
        fuel = fuel - 1;
        let mut idx: usize = 0;
        let mut found: Option<usize> = None;
        while idx < all_classes.len()
            invariant
                idx <= all_classes@.len(),
                match found { Some(f) => f < all_classes@.len() && first_named(all_classes@, current@, f as int), None => true },
                forall|j: int| 0 <= j < idx ==> (#[trigger] all_classes@[j]).name@ != current@,
            ensures
                found is None ==> idx == all_classes@.len(),
                forall|j: int| 0 <= j < idx ==> (#[trigger] all_classes@[j]).name@ != current@,
                match found { Some(f) => f < all_classes@.len() && first_named(all_classes@, current@, f as int), None => true },
            decreases all_classes@.len() - idx,
        {
            if str_eq(all_classes[idx].name.as_str(), current.as_str()) {
                found = Some(idx);
                break;
            }
            idx = idx + 1;
        }
        let ci = match found {
            Some(f) => f,
            None => {
                proof {
                    if first {
                        assert forall|m: Seq<char>| #[trigger] declares_instance_method(all_classes@, class_name@, m)
                            implies holds(names@, m) by {
                            let (c2, k) = choose|c2: int, k: int| first_named(all_classes@, class_name@, c2)
                                && #[trigger] instance_method_named(all_classes@, c2, k, m);
                            assert(all_classes@[c2].name@ != current@);
                        }
                    }
                }
                break;
            },
        };
        let ghost names_at = names@;
        let decl = &all_classes[ci];
        let mut m: usize = 0;
        while m < decl.members.len()
            invariant
                ci < all_classes@.len(),
                *decl == all_classes@[ci as int],
                first_named(all_classes@, current@, ci as int),
                first ==> current@ == class_name@,
                !first ==> forall|m2: Seq<char>| #[trigger] declares_instance_method(all_classes@, class_name@, m2)
                    ==> holds(names@, m2),
                forall|m2: Seq<char>| holds(names_at, m2) ==> holds(names@, m2),
                first ==> forall|k: int, m2: Seq<char>| 0 <= k < m && #[trigger] instance_method_named(all_classes@, ci as int, k, m2)
                    ==> holds(names@, m2),
                distinct(names@),
                forall|k: int| 0 <= k < names@.len() ==> is_instance_method_name(all_classes@, (#[trigger] names@[k])@),
            decreases decl.members@.len() - m,
        {
            match &decl.members[m] {
                ClassMember::Method { decl: md, is_static, .. } => {
                    if !*is_static && !contains_name(&names, md.name.as_str()) {
                        let ghost before = names@;
                        names.push(md.name.clone());
                        proof {
                            assert(names@[before.len() as int]@ == md.name@);
                            assert forall|m2: Seq<char>| holds(before, m2) implies holds(names@, m2) by {
                                let q = choose|q: int| 0 <= q < before.len() && (#[trigger] before[q])@ == m2;
                                assert(names@[q] == before[q]);
                            }
                            assert(is_instance_method_of(all_classes@, ci as int, *md)) by {
                                assert(is_instance_method_decl(all_classes@[ci as int].members@[m as int], *md));
                            }
                            assert forall|a: int, b: int| 0 <= a < b < names@.len() implies
                                (#[trigger] names@[a])@ != (#[trigger] names@[b])@ by {
                                if b == names@.len() - 1 {
                                    assert(names@[a] == before[a]);
                                }
                            }
                            assert forall|k: int| 0 <= k < names@.len() implies
                                is_instance_method_name(all_classes@, (#[trigger] names@[k])@) by {
                                if k < before.len() {
                                    assert(names@[k] == before[k]);
                                } else {
                                    assert(is_instance_method_of(all_classes@, ci as int, *md) && md.name@ == names@[k]@);
                                }
                            }
                        }
                    }
                },
                _ => {},
            }
            m = m + 1;
        }
        proof {
            if first {
                assert forall|m2: Seq<char>| #[trigger] declares_instance_method(all_classes@, class_name@, m2)
                    implies holds(names@, m2) by {
                    let (c2, k) = choose|c2: int, k: int| first_named(all_classes@, class_name@, c2)
                        && #[trigger] instance_method_named(all_classes@, c2, k, m2);
                    if c2 < ci {
                        assert(all_classes@[c2].name@ != current@);
                    } else if c2 > ci {
                        assert(all_classes@[ci as int].name@ != class_name@);
                    }
                }
            }
        }
        match &decl.extends {
            Some(p) => {
                current = p.clone();
            },
            None => {
                break;
            },
        }
    }
    names
}

/// The declaration of instance method `method_name` closest to
/// `class_name` along `extends` (only its signature matters: every class of
/// a family shares it). The walk is bounded by the number of classes.
fn find_method_decl<'c>(class_name: &str, method_name: &str, all_classes: &'c Vec<ClassDecl>) -> (r: Option<&'c FuncDecl>)
    ensures
        match r {
            Some(d) => d.name@ == method_name@ && exists|i: int| #[trigger] is_instance_method_of(all_classes@, i, *d),
            None => !declares_instance_method(all_classes@, class_name@, method_name@),
        },
{
    let mut current: String = class_name.to_owned();
    let mut fuel: usize = all_classes.len();
    while fuel > 0
        invariant
            fuel <= all_classes@.len(),
            fuel == all_classes@.len() ==> current@ == class_name@,
            fuel < all_classes@.len() ==> !declares_instance_method(all_classes@, class_name@, method_name@),
        decreases fuel,
    {
        let ghost first = fuel == all_classes.len();
        fuel = fuel - 1;
        let mut idx: usize = 0;
        let mut found: Option<usize> = None;
        while idx < all_classes.len()
            invariant
                idx <= all_classes@.len(),
                match found { Some(f) => f < all_classes@.len() && first_named(all_classes@, current@, f as int), None => true },
                forall|j: int| 0 <= j < idx ==> (#[trigger] all_classes@[j]).name@ != current@,
            ensures
                found is None ==> idx == all_classes@.len(),
                forall|j: int| 0 <= j < idx ==> (#[trigger] all_classes@[j]).name@ != current@,
                match found { Some(f) => f < all_classes@.len() && first_named(all_classes@, current@, f as int), None => true },
            decreases all_classes@.len() - idx,
        {
            if str_eq(all_classes[idx].name.as_str(), current.as_str()) {
                found = Some(idx);
                break;
            }
            idx = idx + 1;
        }
        let ci = match found {
            Some(f) => f,
            None => {
                proof {
                    if first {
                        assert forall|c2: int, k: int| first_named(all_classes@, class_name@, c2)
                            implies !#[trigger] instance_method_named(all_classes@, c2, k, method_name@) by {
                            assert(all_classes@[c2].name@ != current@);
                        }
                    }
                }
                return None;
            },
        };
        let decl = &all_classes[ci];
        let mut m: usize = 0;
        while m < decl.members.len()
            invariant
                ci < all_classes@.len(),
                *decl == all_classes@[ci as int],
                first_named(all_classes@, current@, ci as int),
                forall|k: int| 0 <= k < m ==> !#[trigger] instance_method_named(all_classes@, ci as int, k, method_name@),
            decreases decl.members@.len() - m,
        {
            match &decl.members[m] {
                ClassMember::Method { decl: md, is_static, .. } => {
                    if !*is_static && str_eq(md.name.as_str(), method_name) {
                        proof {
                            assert(is_instance_method_decl(all_classes@[ci as int].members@[m as int], *md));
                            assert(is_instance_method_of(all_classes@, ci as int, *md));
                        }
                        return Some(md);
                    }
                },
                _ => {},
            }
            m = m + 1;
        }
        proof {
            if first {
                assert forall|c2: int, k: int| first_named(all_classes@, class_name@, c2)
                    implies !#[trigger] instance_method_named(all_classes@, c2, k, method_name@) by {
                    if c2 < ci {
                        assert(all_classes@[c2].name@ != current@);
                    } else if c2 > ci {
                        assert(all_classes@[ci as int].name@ != class_name@);
                    }
                }
            }
        }
        match &decl.extends {
            Some(p) => {
                current = p.clone();
            },
            None => {
                return None;
            },
        }
    }
    None
}

/// Emits the call of `callee` on `self` and the parameters, and returns its
/// result (nothing for `void`).
fn emit_forward_call(b: &mut LowerBuilder, callee: String, self_val: Value, arg_vals: &Vec<Value>, ret_ty: IrType)
    requires
        old(b).wf(),
    ensures
        LowerBuilder::kept(old(b), final(b)),
        final(b).module == old(b).module,
        final(b).func.current == old(b).func.current,
        final(b).func.code().len() == old(b).func.code().len(),
        forwards_to(final(b).func.code()[old(b).func.current as int],
            old(b).func.code()[old(b).func.current as int].len() as int, callee@, self_val, arg_vals@.len()),
        final(b).func.code()[old(b).func.current as int][old(b).func.code()[old(b).func.current as int].len() as int]->Call_args
            == seq![self_val] + arg_vals@,
        forall|i: int| 0 <= i < old(b).func.code().len() && i != old(b).func.current
            ==> #[trigger] final(b).func.code()[i] == old(b).func.code()[i],
{
    let ghost cur = b.func.current as int;
    let ghost n0 = b.func.code()[cur].len() as int;
    let ghost callee_v = callee@;
    let mut call_args: Vec<Value> = Vec::new();
    call_args.push(self_val);
    let mut i: usize = 0;
    while i < arg_vals.len()
        invariant
            i <= arg_vals@.len(),
            call_args@.len() == i + 1,
            call_args@[0] == self_val,
            call_args@ == seq![self_val] + arg_vals@.subrange(0, i as int),
        decreases arg_vals@.len() - i,
    {
        call_args.push(arg_vals[i]);
        proof {
            assert(arg_vals@.subrange(0, i + 1) =~= arg_vals@.subrange(0, i as int).push(arg_vals@[i as int]));
        }
        i = i + 1;
    }
    proof {
        assert(arg_vals@.subrange(0, arg_vals@.len() as int) =~= arg_vals@);
    }
    if ret_ty == IrType::Void {
        b.emit(Inst::Call { dest: None, func: callee, args: call_args, ret_ty: IrType::Void });
        b.emit(Inst::Return { value: None });
    } else {
        let r = b.new_value();
        b.emit(Inst::Call { dest: Some(r), func: callee, args: call_args, ret_ty });
        b.emit(Inst::Return { value: Some(r) });
    }
}

/// From position `n` on, `block` holds the call of `callee` with `self`
/// first and then the `n_args` parameters, followed by a return.
pub open spec fn forwards_to(block: Seq<InstV>, n: int, callee: Seq<char>, self_val: Value, n_args: nat) -> bool {
    &&& block.len() >= n + 2
    &&& block[n] matches InstV::Call { func, args, .. } && func == callee && args.len() == n_args + 1 && args[0] == self_val
    &&& block[n + 1] is Return
}

/// One candidate of a class dispatcher: if the class identity equals
/// `class_id`, control goes to a new block that forwards the call to
/// `callee`; lowering continues in a second new block.
fn emit_candidate_branch(b: &mut LowerBuilder, class_id_val: Value, class_id: i64, callee: String, self_val: Value,
    arg_vals: &Vec<Value>, ret_ty: IrType)
    requires
        old(b).wf(),
    ensures
        LowerBuilder::kept(old(b), final(b)),
        final(b).module == old(b).module,
        final(b).func.code().len() == old(b).func.code().len() + 2,
        forwards_to(final(b).func.code()[old(b).func.code().len() as int], 0, callee@, self_val, arg_vals@.len()),
        final(b).func.current == old(b).func.code().len() + 1,
        final(b).func.code()[old(b).func.current as int] == old(b).func.code()[old(b).func.current as int] + seq![
            InstV::ConstInt { dest: Value(old(b).func.next_value), value: class_id },
            InstV::CmpEq { dest: Value(crate::builder::succ(old(b).func.next_value)), lhs: class_id_val,
                rhs: Value(old(b).func.next_value), ty: IrType::I64 },
            InstV::Branch { cond: Value(crate::builder::succ(old(b).func.next_value)),
                then_bb: BlockId(old(b).func.code().len() as usize), else_bb: BlockId((old(b).func.code().len() + 1) as usize) },
        ],
{
    let ghost b0 = b.func;
    let ghost callee_v = callee@;
    let cid_const = b.new_value();
    b.emit(Inst::ConstInt { dest: cid_const, value: class_id });
    let is_class = b.new_value();
    b.emit(Inst::CmpEq { dest: is_class, lhs: class_id_val, rhs: cid_const, ty: IrType::I64 });
    let call_bb = b.new_block();
    let next_bb = b.new_block();
    b.emit(Inst::Branch { cond: is_class, then_bb: call_bb, else_bb: next_bb });
    let ghost b1 = b.func;
    proof {
        assert(b1.code()[call_bb.0 as int].len() == 0);
    }
    b.switch_to(&call_bb);
    emit_forward_call(b, callee, self_val, arg_vals, ret_ty);
    let ghost b3 = b.func;
    b.switch_to(&next_bb);
    proof {
        assert(forwards_to(b3.code()[call_bb.0 as int], 0, callee_v, self_val, arg_vals@.len()));
        let k = b0.current as int;
        assert(b1.code()[k] =~= b0.code()[k] + seq![
            InstV::ConstInt { dest: cid_const, value: class_id },
            InstV::CmpEq { dest: is_class, lhs: class_id_val, rhs: cid_const, ty: IrType::I64 },
            InstV::Branch { cond: is_class, then_bb: call_bb, else_bb: next_bb },
        ]);
        assert(b.func.code()[k] == b1.code()[k]);
    }
}

/// In block `blk`, the class identity `id_val` is compared with the
/// constant `id`, and the result branches to block `then_b` when they are
/// equal, to block `else_b` otherwise.
pub open spec fn tests_class_id(blk: Seq<InstV>, id_val: Value, id: i64, then_b: int, else_b: int) -> bool {
    exists|p: int| 1 <= p && p + 1 < blk.len() && #[trigger] blk[p] is CmpEq && {
        let test = blk[p];
        &&& test->CmpEq_lhs == id_val && test->CmpEq_ty == IrType::I64
        &&& blk[p - 1] == (InstV::ConstInt { dest: test->CmpEq_rhs, value: id })
        &&& blk[p + 1] == (InstV::Branch { cond: test->CmpEq_dest, then_bb: BlockId(then_b as usize),
            else_bb: BlockId(else_b as usize) })
    }
}

/// The identity a dispatcher tests for class `name` (0 when unknown).
pub open spec fn candidate_id(class_ids: Map<Seq<char>, i64>, name: Seq<char>) -> i64 {
    if class_ids.contains_key(name) { class_ids[name] } else { 0 }
}

/// The block holding the test of candidate `j` of a dispatcher whose
/// forwarding blocks start at `l0`, the first test sitting in block `k0`.
pub open spec fn test_block(k0: int, l0: int, j: int) -> int {
    if j == 0 { k0 } else { l0 + 2 * j - 1 }
}

/// A test stays when code is only added after it.
proof fn lemma_tests_class_id_kept(blk: Seq<InstV>, blk2: Seq<InstV>, id_val: Value, id: i64, then_b: int, else_b: int)
    requires
        tests_class_id(blk, id_val, id, then_b, else_b),
        blk.len() <= blk2.len(),
        forall|i: int| 0 <= i < blk.len() ==> #[trigger] blk2[i] == blk[i],
    ensures
        tests_class_id(blk2, id_val, id, then_b, else_b),
{
    let p = choose|p: int| 1 <= p && p + 1 < blk.len() && #[trigger] blk[p] is CmpEq && {
        let test = blk[p];
        &&& test->CmpEq_lhs == id_val && test->CmpEq_ty == IrType::I64
        &&& blk[p - 1] == (InstV::ConstInt { dest: test->CmpEq_rhs, value: id })
        &&& blk[p + 1] == (InstV::Branch { cond: test->CmpEq_dest, then_bb: BlockId(then_b as usize),
            else_bb: BlockId(else_b as usize) })
    };
    assert(blk2[p] == blk[p]);
    assert(blk2[p - 1] == blk[p - 1]);
    assert(blk2[p + 1] == blk[p + 1]);
}

/// Running the three instructions of `blk` from `p - 1` when the value
/// `id_val` holds `x`: a constant, an equality test and a branch on its
/// result. The block the branch goes to, or `None` when the instructions
/// are not of that form or read other values.
pub open spec fn run_identity_test(blk: Seq<InstV>, p: int, id_val: Value, x: i64) -> Option<BlockId> {
    if 1 <= p && p + 1 < blk.len() {
        match (blk[p - 1], blk[p], blk[p + 1]) {
            (InstV::ConstInt { dest: c, value }, InstV::CmpEq { dest: t, lhs, rhs, .. },
                InstV::Branch { cond, then_bb, else_bb }) => if cond == t && lhs == id_val && rhs == c && c != id_val {
                Some(if x == value { then_bb } else { else_bb })
            } else {
                None
            },
            _ => None,
        }
    } else {
        None
    }
}

/// Law: in a dispatcher body (as `emit_class_id_dispatch` leaves it), the
/// test of candidate `k` sends an object whose class identity is `x` to the
/// block that forwards the call to that candidate's implementation when `x`
/// is the candidate's identity, and otherwise on to the next candidate's
/// test; the forwarding block calls the implementation with `self` first.
pub proof fn law_dispatch_forwards_only_on_matching_identity(code: Seq<Seq<InstV>>, k0: int, l0: int,
    candidates: Seq<String>, class_ids: Map<Seq<char>, i64>, method: Seq<char>, self_val: Value, n_args: nat,
    id_val: Value, k: int, x: i64)
    requires
        forall|j: int| 0 <= j < candidates.len() ==> #[trigger] tests_class_id(code[test_block(k0, l0, j)], id_val,
            candidate_id(class_ids, candidates[j]@), l0 + 2 * j, l0 + 2 * j + 1),
        forall|j: int| 0 <= j < candidates.len() ==> forwards_to(code[l0 + 2 * j], 0,
            mangle_spec(candidates[j]@, method), self_val, n_args),
        0 <= k < candidates.len(),
    ensures
        exists|p: int| 1 <= p && p + 1 < code[test_block(k0, l0, k)].len()
            && (#[trigger] code[test_block(k0, l0, k)][p]) is CmpEq
            && code[test_block(k0, l0, k)][p]->CmpEq_lhs == id_val
            && (code[test_block(k0, l0, k)][p - 1]->ConstInt_dest != id_val
            ==> run_identity_test(code[test_block(k0, l0, k)], p, id_val, x) == Some(
            BlockId((if x == candidate_id(class_ids, candidates[k]@) { l0 + 2 * k } else { l0 + 2 * k + 1 }) as usize))),
        forwards_to(code[l0 + 2 * k], 0, mangle_spec(candidates[k]@, method), self_val, n_args),
        k + 1 < candidates.len() ==> test_block(k0, l0, k + 1) == l0 + 2 * k + 1,
{
    let blk = code[test_block(k0, l0, k)];
    let id = candidate_id(class_ids, candidates[k]@);
    assert(tests_class_id(blk, id_val, id, l0 + 2 * k, l0 + 2 * k + 1));
    let p = choose|p: int| 1 <= p && p + 1 < blk.len() && #[trigger] blk[p] is CmpEq && {
        let test = blk[p];
        &&& test->CmpEq_lhs == id_val && test->CmpEq_ty == IrType::I64
        &&& blk[p - 1] == (InstV::ConstInt { dest: test->CmpEq_rhs, value: id })
        &&& blk[p + 1] == (InstV::Branch { cond: test->CmpEq_dest, then_bb: BlockId((l0 + 2 * k) as usize),
            else_bb: BlockId((l0 + 2 * k + 1) as usize) })
    };
    assert(blk[p - 1]->ConstInt_dest != id_val ==> run_identity_test(blk, p, id_val, x) == Some(
        BlockId((if x == id { l0 + 2 * k } else { l0 + 2 * k + 1 }) as usize)));
}

/// The body of a dispatcher on the identity of `self`'s class (stored 16
/// bytes before the object): for each candidate class in order, a test of
/// its identity (0 when unknown) leading to a call of
/// `<candidate>_<method>`; a value of 0 (or nothing) when none matches.
pub fn emit_class_id_dispatch(b: &mut LowerBuilder, candidates: &Vec<String>, method_name: &str, class_ids: &crate::names::NameMap<i64>, self_val: Value, arg_vals: &Vec<Value>, ret_ty: IrType)
    requires
        old(b).wf(),
    ensures
        LowerBuilder::kept(old(b), final(b)),
        final(b).module == old(b).module,
        forall|k: int| 0 <= k < candidates@.len() ==> forwards_to(
            final(b).func.code()[old(b).func.code().len() + 2 * k], 0,
            mangle_spec(candidates@[k]@, method_name@), self_val, arg_vals@.len()),
        final(b).func.code()[old(b).func.current as int][old(b).func.code()[old(b).func.current as int].len() as int]
            == (InstV::GetField { dest: Value(old(b).func.next_value), obj: self_val, field: "__class_id"@,
                ty: IrType::I64, offset: -16i32 }),
        forall|k: int| 0 <= k < candidates@.len() ==> #[trigger] tests_class_id(
            final(b).func.code()[test_block(old(b).func.current as int, old(b).func.code().len() as int, k)],
            Value(old(b).func.next_value), candidate_id(class_ids@, candidates@[k]@),
            old(b).func.code().len() + 2 * k, old(b).func.code().len() + 2 * k + 1),
{
    let ghost l0 = b.func.code().len() as int;
    let ghost k0 = b.func.current as int;
    let ghost j0 = b.func.code()[k0].len() as int;
    let class_id_val = b.new_value();
    b.emit(Inst::GetField { dest: class_id_val, obj: self_val, field: "__class_id".to_owned(), ty: IrType::I64, offset: -16 });
    let ghost gf = b.func.code()[k0][j0];
    proof {
        assert(gf == (InstV::GetField { dest: class_id_val, obj: self_val, field: "__class_id"@, ty: IrType::I64, offset: -16i32 }));
    }
    let mut k: usize = 0;
    while k < candidates.len()
        invariant
            LowerBuilder::kept(old(b), b),
            b.module == old(b).module,
            l0 == old(b).func.code().len(),
            0 <= k0 < l0,
            k0 == old(b).func.current,
            class_id_val == Value(old(b).func.next_value),
            0 <= j0 < b.func.code()[k0].len(),
            b.func.code()[k0][j0] == gf,
            b.func.current == test_block(k0, l0, k as int),
            k <= candidates@.len(),
            b.func.code().len() == l0 + 2 * k,
            forall|j: int| 0 <= j < k ==> #[trigger] tests_class_id(b.func.code()[test_block(k0, l0, j)], class_id_val,
                candidate_id(class_ids@, candidates@[j]@), l0 + 2 * j, l0 + 2 * j + 1),
            forall|j: int| 0 <= j < k ==> forwards_to(b.func.code()[l0 + 2 * j], 0,
                mangle_spec(candidates@[j]@, method_name@), self_val, arg_vals@.len()),
        decreases candidates@.len() - k,
    {
        let ghost bk = b.func;
        assert(forall|j: int| 0 <= j < k ==> #[trigger] forwards_to(bk.code()[l0 + 2 * j], 0,
            mangle_spec(candidates@[j]@, method_name@), self_val, arg_vals@.len()));
        let class_id: i64 = match class_ids.get(candidates[k].as_str()) {
            Some(id) => *id,
            None => 0,
        };
        emit_candidate_branch(b, class_id_val, class_id, mangle(candidates[k].as_str(), method_name), self_val, arg_vals, ret_ty);
        proof {
            let cur = test_block(k0, l0, k as int);
            assert(class_id == candidate_id(class_ids@, candidates@[k as int]@));
            let blk = b.func.code()[cur];
            let p = bk.code()[cur].len() as int + 1;
            assert(blk[p] is CmpEq);
            assert(tests_class_id(blk, class_id_val, class_id, l0 + 2 * k, l0 + 2 * k + 1));
            assert forall|j: int| 0 <= j < k + 1 implies #[trigger] tests_class_id(b.func.code()[test_block(k0, l0, j)], class_id_val,
                candidate_id(class_ids@, candidates@[j]@), l0 + 2 * j, l0 + 2 * j + 1) by {
                if j < k {
                    let tb = test_block(k0, l0, j);
                    lemma_tests_class_id_kept(bk.code()[tb], b.func.code()[tb], class_id_val,
                        candidate_id(class_ids@, candidates@[j]@), l0 + 2 * j, l0 + 2 * j + 1);
                }
            }
            assert(crate::builder::extends(bk, b.func));
            assert(bk.code()[k0].len() > j0);
            assert(bk.code()[k0].len() <= b.func.code()[k0].len());
            assert(b.func.code()[k0][j0] == bk.code()[k0][j0]);
            assert(crate::builder::extends(bk, b.func));
            assert(bk.code().len() == l0 + 2 * k);
            assert forall|j: int| 0 <= j < k + 1 implies forwards_to(b.func.code()[l0 + 2 * j], 0,
                mangle_spec(candidates@[j]@, method_name@), self_val, arg_vals@.len()) by {
                if j < k {
                    let blk = l0 + 2 * j;
                    assert(forwards_to(bk.code()[l0 + 2 * j], 0,
                        mangle_spec(candidates@[j]@, method_name@), self_val, arg_vals@.len()));
                    assert(b.func.code()[blk][0] == bk.code()[blk][0]);
                    assert(b.func.code()[blk][1] == bk.code()[blk][1]);
                }
            }
        }
        k = k + 1;
    }
    let ghost bl = b.func;
    assert(forall|j: int| 0 <= j < candidates@.len() ==> #[trigger] forwards_to(bl.code()[l0 + 2 * j], 0,
        mangle_spec(candidates@[j]@, method_name@), self_val, arg_vals@.len()));
    if ret_ty == IrType::Void {
        b.emit(Inst::Return { value: None });
    } else {
        let zero = b.new_value();
        b.emit(Inst::ConstInt { dest: zero, value: 0 });
        b.emit(Inst::Return { value: Some(zero) });
    }
    proof {
        assert(b.func.code()[k0][j0] == bl.code()[k0][j0]);
        assert forall|j: int| 0 <= j < candidates@.len() implies #[trigger] tests_class_id(b.func.code()[test_block(k0, l0, j)], class_id_val,
            candidate_id(class_ids@, candidates@[j]@), l0 + 2 * j, l0 + 2 * j + 1) by {
            let tb = test_block(k0, l0, j);
            lemma_tests_class_id_kept(bl.code()[tb], b.func.code()[tb], class_id_val,
                candidate_id(class_ids@, candidates@[j]@), l0 + 2 * j, l0 + 2 * j + 1);
        }
        assert forall|j: int| 0 <= j < candidates@.len() implies forwards_to(b.func.code()[l0 + 2 * j], 0,
            mangle_spec(candidates@[j]@, method_name@), self_val, arg_vals@.len()) by {
            let blk = l0 + 2 * j;
            assert(forwards_to(bl.code()[l0 + 2 * j], 0,
                mangle_spec(candidates@[j]@, method_name@), self_val, arg_vals@.len()));
            assert(b.func.code()[blk][0] == bl.code()[blk][0]);
            assert(b.func.code()[blk][1] == bl.code()[blk][1]);
        }
    }
}

/// `__dispatch_<class>_<method>(self, params...)`: calls the implementation
/// of the candidate class that `self` belongs to (see
/// `emit_class_id_dispatch`). The signature is that of the closest
/// declaration of the method; nothing is generated when there is none.
fn generate_one_class_dispatcher(module: &mut IrModule, class_name: &str, method_name: &str, candidates: &Vec<String>, all_classes: &Vec<ClassDecl>)
    ensures
        crate::builder::functions_grow(*old(module), *final(module)),
        final(module).functions@.len() <= old(module).functions@.len() + 1,
        declares_instance_method(all_classes@, class_name@, method_name@)
            ==> final(module).functions@.len() == old(module).functions@.len() + 1,
        final(module).functions@.len() == old(module).functions@.len() + 1 ==> {
            let f = final(module).functions@.last();
            &&& f.name@ == dispatcher_name_spec(class_name@, method_name@)
            &&& f.params@.len() >= 1
            &&& f.params@[0].name@ == "self"@
            &&& forall|k: int| 0 <= k < candidates@.len() ==> forwards_to(f.code()[1 + 2 * k], 0,
                mangle_spec(candidates@[k]@, method_name@), f.params@[0].slot, (f.params@.len() - 1) as nat)
        },
        final(module).class_ids == old(module).class_ids,
{
    let sig = match find_method_decl(class_name, method_name, all_classes) {
        Some(d) => d,
        None => {
            return;
        },
    };
    let ret_ty = IrType::from_ast(&sig.ret_ty);
    let a = concat("__dispatch_", class_name);
    let bname = concat(a.as_str(), "_");
    let name = concat(bname.as_str(), method_name);
    let mut b = LowerBuilder::new(IrModule::new(""), name, Vec::new(), ret_ty);
    let self_val = b.new_value();
    let mut params: Vec<IrParam> = Vec::new();
    params.push(IrParam { name: "self".to_owned(), ty: IrType::Ptr, slot: self_val });
    proof {
        reveal_strlit("self");
    }
    let mut arg_vals: Vec<Value> = Vec::new();
    let mut i: usize = 0;
    while i < sig.params.len()
        invariant
            b.wf(),
            b.func.name@ == dispatcher_name_spec(class_name@, method_name@),
            b.func.code().len() == 1,
            i <= sig.params@.len(),
            params@.len() == i + 1,
            arg_vals@.len() == i,
            params@[0].name@ == "self"@,
            params@[0].slot == self_val,
        decreases sig.params@.len() - i,
    {
        let v = b.new_value();
        params.push(IrParam { name: sig.params[i].name.clone(), ty: IrType::from_ast(&sig.params[i].ty), slot: v });
        arg_vals.push(v);
        i = i + 1;
    }
    b.func.params = params;
    emit_class_id_dispatch(&mut b, candidates, method_name, &module.class_ids, self_val, &arg_vals, ret_ty);
    module.add_function(b.func);
}

/// For every class with at least one subclass (direct or not), a dispatcher
/// for each instance method callable on it, choosing among the class and
/// its descendants. Every function already in the module stays in place;
/// in particular every class with a subclass has a dispatcher for each
/// instance method it declares itself, which tries the class first
/// (`has_class_dispatcher`).
pub fn generate_class_dispatchers(module: &mut IrModule, program: &Program)
    ensures
        crate::builder::functions_grow(*old(module), *final(module)),
        forall|c: int, m: Seq<char>| 0 <= c < program.classes@.len()
            && has_child(program.classes@, program.classes@[c].name@)
            && #[trigger] declares_instance_method(program.classes@, program.classes@[c].name@, m)
            ==> has_class_dispatcher(*final(module), program.classes@[c].name@, m),
{
    let mut c: usize = 0;
    while c < program.classes.len()
        invariant
            c <= program.classes@.len(),
            crate::builder::functions_grow(*old(module), *module),
            forall|c2: int, m: Seq<char>| 0 <= c2 < c
                && has_child(program.classes@, program.classes@[c2].name@)
                && #[trigger] declares_instance_method(program.classes@, program.classes@[c2].name@, m)
                ==> has_class_dispatcher(*module, program.classes@[c2].name@, m),
        decreases program.classes@.len() - c,
    {
        let ghost m_class = *module;
        let class = &program.classes[c];
        let descendants = transitive_descendants(class.name.as_str(), &program.classes);
        if descendants.len() > 0 {
            let mut candidates: Vec<String> = Vec::new();
            candidates.push(class.name.clone());
            let mut k: usize = 0;
            while k < descendants.len()
                invariant
                    candidates@.len() >= 1,
                    candidates@[0]@ == class.name@,
                decreases descendants@.len() - k,
            {
                candidates.push(descendants[k].clone());
                k = k + 1;
            }
            let methods = callable_instance_method_names(class.name.as_str(), &program.classes);
            let mut m: usize = 0;
            while m < methods.len()
                invariant
                    crate::builder::functions_grow(*old(module), *module),
                    crate::builder::functions_grow(m_class, *module),
                    candidates@.len() >= 1,
                    candidates@[0]@ == class.name@,
                    *class == program.classes@[c as int],
                    forall|i: int| 0 <= i < m && #[trigger] declares_instance_method(program.classes@, class.name@, methods@[i]@)
                        ==> has_class_dispatcher(*module, class.name@, methods@[i]@),
                decreases methods@.len() - m,
            {
                let ghost before = *module;
                generate_one_class_dispatcher(module, class.name.as_str(), methods[m].as_str(), &candidates, &program.classes);
                proof {
                    let mname = methods@[m as int]@;
                    if declares_instance_method(program.classes@, class.name@, mname) {
                        let j = module.functions@.len() - 1;
                        let f = module.functions@[j];
                        assert(forwards_to(f.code()[1 + 2 * 0int], 0, mangle_spec(candidates@[0]@, mname), f.params@[0].slot,
                            (f.params@.len() - 1) as nat));
                        assert(has_class_dispatcher(*module, class.name@, mname));
                    }
                    assert forall|i: int| 0 <= i < m + 1 && #[trigger] declares_instance_method(program.classes@, class.name@, methods@[i]@)
                        implies has_class_dispatcher(*module, class.name@, methods@[i]@) by {
                        if i < m {
                            let j = choose|j: int| 0 <= j < before.functions@.len() && {
                                let f = #[trigger] before.functions@[j];
                                &&& f.name@ == dispatcher_name_spec(class.name@, methods@[i]@)
                                &&& f.params@.len() >= 1
                                &&& f.params@[0].name@ == "self"@
                                &&& forwards_to(f.code()[1], 0, mangle_spec(class.name@, methods@[i]@), f.params@[0].slot, (f.params@.len() - 1) as nat)
                            };
                            assert(module.functions@[j] == before.functions@[j]);
                        }
                    }
                }
                m = m + 1;
            }
            proof {
                assert forall|mn: Seq<char>| #[trigger] declares_instance_method(program.classes@, class.name@, mn)
                    implies has_class_dispatcher(*module, class.name@, mn) by {
                    let i = choose|i: int| 0 <= i < methods@.len() && (#[trigger] methods@[i])@ == mn;
                    assert(declares_instance_method(program.classes@, class.name@, methods@[i]@));
                }
            }
        }
        proof {
            assert forall|c2: int, mn: Seq<char>| 0 <= c2 < c + 1
                && has_child(program.classes@, program.classes@[c2].name@)
                && #[trigger] declares_instance_method(program.classes@, program.classes@[c2].name@, mn)
                implies has_class_dispatcher(*module, program.classes@[c2].name@, mn) by {
                if c2 < c {
                    lemma_dispatcher_kept(m_class, *module, program.classes@[c2].name@, mn);
                } else {
                    if descendants.len() == 0 {
                        let i = choose|i: int| #[trigger] extends_name(program.classes@, i, class.name@);
                        assert(holds(descendants@, program.classes@[i].name@));
                    }
                }
            }
        }
        c = c + 1;
    }
}

/// A dispatcher stays when functions are only added.
proof fn lemma_dispatcher_kept(a: IrModule, b: IrModule, class_name: Seq<char>, m: Seq<char>)
    requires
        has_class_dispatcher(a, class_name, m),
        crate::builder::functions_grow(a, b),
    ensures
        has_class_dispatcher(b, class_name, m),
{
    let j = choose|j: int| 0 <= j < a.functions@.len() && {
        let f = #[trigger] a.functions@[j];
        &&& f.name@ == dispatcher_name_spec(class_name, m)
        &&& f.params@.len() >= 1
        &&& f.params@[0].name@ == "self"@
        &&& forwards_to(f.code()[1], 0, mangle_spec(class_name, m), f.params@[0].slot, (f.params@.len() - 1) as nat)
    };
    assert(b.functions@[j] == a.functions@[j]);
}

} // verus!
