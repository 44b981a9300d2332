//! The class hierarchy classifier: is a class, or one of its superclasses,
//! of a given name? Verdicts are memoized in a bounded cache, which only ever
//! saves work.

use crate::model::{AnalysisClassInfo, HeapDump};
use crate::verdict_cache::{
    cache_contents, cache_get, cache_insert, cache_with_capacity, only_evicted, VerdictCache,
};
use std::collections::HashMap;
use vstd::prelude::*;

verus! {

broadcast use vstd::std_specs::hash::group_hash_axioms;

/// Class `c` is loaded and its name is `target`.
pub open spec fn has_name(
    classes: Map<u64, AnalysisClassInfo>,
    names: Map<u64, String>,
    c: u64,
    target: Seq<char>,
) -> bool {
    &&& classes.contains_key(c)
    &&& names.contains_key(classes[c].class_name_id)
    &&& names[classes[c].class_name_id]@ == target
}

/// The class reached from `c` by following `k` superclass links, while the
/// classes on the way are loaded.
pub open spec fn ancestor(classes: Map<u64, AnalysisClassInfo>, c: u64, k: nat) -> Option<u64>
    decreases k,
{
    if k == 0 {
        Some(c)
    } else if classes.contains_key(c) {
        ancestor(classes, classes[c].super_class_object_id, (k - 1) as nat)
    } else {
        None
    }
}

/// Class `c` or one of its loaded superclasses is named `target`.
pub open spec fn is_kind(
    classes: Map<u64, AnalysisClassInfo>,
    names: Map<u64, String>,
    c: u64,
    target: Seq<char>,
) -> bool {
    exists|k: nat| #[trigger]
        ancestor(classes, c, k) matches Some(a) && has_name(classes, names, a, target)
}

/// A loaded class is of the kind when it is named so or its superclass is of
/// it; a class that is not loaded is of no kind.
pub proof fn lemma_is_kind_step(
    classes: Map<u64, AnalysisClassInfo>,
    names: Map<u64, String>,
    c: u64,
    target: Seq<char>,
)
    ensures
        classes.contains_key(c) ==> (is_kind(classes, names, c, target) <==> (has_name(
            classes,
            names,
            c,
            target,
        ) || is_kind(classes, names, classes[c].super_class_object_id, target))),
        !classes.contains_key(c) ==> !is_kind(classes, names, c, target),
{
    if classes.contains_key(c) {
        let s = classes[c].super_class_object_id;
        if is_kind(classes, names, c, target) && !has_name(classes, names, c, target) {
            let k = choose|k: nat| #[trigger]
                ancestor(classes, c, k) matches Some(a) && has_name(classes, names, a, target);
            assert(k > 0);
            assert(ancestor(classes, c, k) == ancestor(classes, s, (k - 1) as nat));
        }
        if is_kind(classes, names, s, target) {
            let k = choose|k: nat| #[trigger]
                ancestor(classes, s, k) matches Some(a) && has_name(classes, names, a, target);
            assert(ancestor(classes, c, k + 1) == ancestor(classes, s, k));
        }
        if has_name(classes, names, c, target) {
            assert(ancestor(classes, c, 0) == Some(c));
        }
    } else {
        assert forall|k: nat| !(#[trigger] ancestor(classes, c, k) matches Some(a) && has_name(
            classes,
            names,
            a,
            target,
        )) by {
            if k == 0 {
                assert(ancestor(classes, c, k) == Some(c));
            }
        }
    }
}

/// `chain` lists loaded classes each of which is the superclass of the one
/// before it, and `next` is the superclass of the last.
pub open spec fn is_chain(classes: Map<u64, AnalysisClassInfo>, chain: Seq<u64>, next: u64) -> bool {
    &&& forall|t: int| 0 <= t < chain.len() ==> classes.contains_key(#[trigger] chain[t])
    &&& forall|t: int|
        0 <= t < chain.len() - 1 ==> classes[#[trigger] chain[t]].super_class_object_id == chain[t
            + 1]
    &&& chain.len() > 0 ==> classes[chain.last()].super_class_object_id == next
}

/// A chain that leads back into itself reaches only its own classes.
proof fn lemma_cycle_ancestors(classes: Map<u64, AnalysisClassInfo>, chain: Seq<u64>, next: u64, k: nat)
    requires
        is_chain(classes, chain, next),
        chain.contains(next),
    ensures
        forall|t: int|
            0 <= t < chain.len() ==> (#[trigger] ancestor(classes, chain[t], k) matches Some(a)
                && chain.contains(a)),
    decreases k,
{
    if k > 0 {
        lemma_cycle_ancestors(classes, chain, next, (k - 1) as nat);
        assert forall|t: int| 0 <= t < chain.len() implies (#[trigger] ancestor(
            classes,
            chain[t],
            k,
        ) matches Some(a) && chain.contains(a)) by {
            let s = classes[chain[t]].super_class_object_id;
            assert(ancestor(classes, chain[t], k) == ancestor(classes, s, (k - 1) as nat));
            if t < chain.len() - 1 {
                assert(s == chain[t + 1]);
            } else {
                let j = choose|j: int| 0 <= j < chain.len() && chain[j] == next;
                assert(s == chain[j]);
            }
        }
    } else {
        assert forall|t: int| 0 <= t < chain.len() implies (#[trigger] ancestor(
            classes,
            chain[t],
            k,
        ) matches Some(a) && chain.contains(a)) by {
            assert(chain[t] == chain[t]);
        }
    }
}

/// The classes of a chain that leads back into itself, none named `target`,
/// are none of them of the kind.
proof fn lemma_cycle_not_kind(
    classes: Map<u64, AnalysisClassInfo>,
    names: Map<u64, String>,
    chain: Seq<u64>,
    next: u64,
    target: Seq<char>,
)
    requires
        is_chain(classes, chain, next),
        chain.contains(next),
        forall|t: int| 0 <= t < chain.len() ==> !has_name(classes, names, #[trigger] chain[t], target),
    ensures
        forall|t: int| 0 <= t < chain.len() ==> !is_kind(classes, names, #[trigger] chain[t], target),
{
    assert forall|t: int| 0 <= t < chain.len() implies !is_kind(
        classes,
        names,
        #[trigger] chain[t],
        target,
    ) by {
        if is_kind(classes, names, chain[t], target) {
            let k = choose|k: nat| #[trigger]
                ancestor(classes, chain[t], k) matches Some(a) && has_name(classes, names, a, target);
            lemma_cycle_ancestors(classes, chain, next, k);
            let a = ancestor(classes, chain[t], k)->Some_0;
            let j = choose|j: int| 0 <= j < chain.len() && chain[j] == a;
            assert(!has_name(classes, names, chain[j], target));
        }
    }
}

/// The class `class_info` is named exactly `target`.
pub fn class_has_name(names: &HashMap<u64, String>, class_info: &AnalysisClassInfo, target: &String) -> (r: bool)
    ensures
        r == (names@.contains_key(class_info.class_name_id) && names@[class_info.class_name_id]@
            == target@),
{
    match names.get(&class_info.class_name_id) {
        Some(n) => *n == *target,
        None => false,
    }
}

/// Answers whether classes are of the kind named `target`, remembering
/// verdicts in a bounded cache.
pub struct Classifier {
    /// The class name that makes a class, and its subclasses, of the kind.
    pub target: String,
    /// Verdicts by class identifier.
    pub cache: VerdictCache,
}

impl Classifier {
    /// Every verdict in the cache is the true one for `model`.
    pub open spec fn wf(&self, model: &HeapDump) -> bool {
        forall|k: u64| #[trigger]
            cache_contents(self.cache).contains_key(k) ==> cache_contents(self.cache)[k]
                == is_kind(model.classes@, model.names@, k, self.target@)
    }

    /// A classifier for the kind named `target`, with room for `capacity`
    /// verdicts.
    pub fn new(target: String, capacity: u64) -> (r: Classifier)
        ensures
            r.target == target,
            forall|model: &HeapDump| r.wf(model),
    {
        let cache = cache_with_capacity(capacity);
        Classifier { target, cache }
    }

    /// Records `verdict` for every class of `stack`.
    fn remember(&mut self, model: &HeapDump, stack: &Vec<u64>, verdict: bool)
        requires
            old(self).wf(model),
            forall|t: int|
                0 <= t < stack.len() ==> is_kind(
                    model.classes@,
                    model.names@,
                    #[trigger] stack@[t],
                    old(self).target@,
                ) == verdict,
        ensures
            final(self).wf(model),
            final(self).target == old(self).target,
    {
        let mut t: usize = 0;
        while t < stack.len()
            invariant
                self.wf(model),
                self.target == old(self).target,
                forall|u: int|
                    0 <= u < stack.len() ==> is_kind(
                        model.classes@,
                        model.names@,
                        #[trigger] stack@[u],
                        self.target@,
                    ) == verdict,
            decreases stack.len() - t,
        {
            cache_insert(&mut self.cache, stack[t], verdict);
            t += 1;
        }
    }

    /// Whether class `class_id` or one of its superclasses is named like the
    /// target. The superclass chain is followed until a class is named so, a
    /// class is not loaded, the chain comes back to a class already seen, or
    /// the cache knows the verdict; every class passed is then given that
    /// verdict in the cache.
    pub fn is_of_kind(&mut self, model: &HeapDump, class_id: u64) -> (r: bool)
        requires
            old(self).wf(model),
        ensures
            final(self).wf(model),
            final(self).target == old(self).target,
            r == is_kind(model.classes@, model.names@, class_id, old(self).target@),
    {
        let ghost classes = model.classes@;
        let ghost names = model.names@;
        let ghost target = self.target@;
        match cache_get(&mut self.cache, class_id) {
            Some(b) => {
                return b;
            },
            None => {},
        }
        let mut stack: Vec<u64> = Vec::new();
        let mut current = class_id;
        let mut verdict = false;
        loop
            invariant_except_break
                stack@.no_duplicates(),
                is_chain(classes, stack@, current),
                stack@.len() == 0 ==> current == class_id,
                stack@.len() > 0 ==> stack@[0] == class_id,
                forall|t: int| 0 <= t < stack.len() ==> !has_name(classes, names, #[trigger] stack@[t], target),
                forall|t: int|
                    0 <= t < stack.len() ==> is_kind(classes, names, #[trigger] stack@[t], target)
                        == is_kind(classes, names, current, target),
            invariant
                self.wf(model),
                self.target@ == target,
                self.target == old(self).target,
                classes == model.classes@,
                names == model.names@,
            ensures
                forall|t: int|
                    0 <= t < stack.len() ==> is_kind(classes, names, #[trigger] stack@[t], target)
                        == verdict,
                is_kind(classes, names, class_id, target) == verdict,
            decreases classes.len() - stack@.len(),
        {
            let info = match model.classes.get(&current) {
                Some(info) => *info,
                None => {
                    proof {
                        lemma_is_kind_step(classes, names, current, target);
                    }
                    verdict = false;
                    break ;
                },
            };
            if vec_contains(&stack, current) {
                proof {
                    lemma_cycle_not_kind(classes, names, stack@, current, target);
                }
                verdict = false;
                break ;
            }
            proof {
                lemma_is_kind_step(classes, names, current, target);
                lemma_stack_bound(classes, stack@, current);
                crate::model::lemma_push_contains(stack@, current);
            }
            let ghost old_stack = stack@;
            stack.push(current);
            proof {
                assert forall|a: int, b: int| 0 <= a < b < stack@.len() implies stack@[a] != stack@[b] by {
                    if b == old_stack.len() {
                        assert(old_stack.contains(stack@[a]));
                    }
                }
            }
            if class_has_name(&model.names, &info, &self.target) {
                verdict = true;
                break ;
            }
            current = info.super_class_object_id;
            match cache_get(&mut self.cache, current) {
                Some(b) => {
                    verdict = b;
                    break ;
                },
                None => {},
            }
        }
        self.remember(model, &stack, verdict);
        verdict
    }
}

/// A duplicate-free chain of loaded classes extended by one more loaded class
/// still fits in the class table.
proof fn lemma_stack_bound(classes: Map<u64, AnalysisClassInfo>, stack: Seq<u64>, c: u64)
    requires
        classes.dom().finite(),
        stack.no_duplicates(),
        !stack.contains(c),
        classes.contains_key(c),
        forall|t: int| 0 <= t < stack.len() ==> classes.contains_key(#[trigger] stack[t]),
    ensures
        stack.len() < classes.len(),
{
    let s = stack.push(c);
    assert(s.no_duplicates()) by {
        assert forall|a: int, b: int| 0 <= a < b < s.len() implies s[a] != s[b] by {
            if b == stack.len() {
                assert(stack.contains(s[a]));
            }
        }
    }
    s.unique_seq_to_set();
    assert(s.to_set().subset_of(classes.dom())) by {
        assert forall|x: u64| s.to_set().contains(x) implies classes.dom().contains(x) by {
            let k = choose|k: int| 0 <= k < s.len() && s[k] == x;
            if k < stack.len() {
                assert(classes.contains_key(stack[k]));
            }
        }
    }
    vstd::set_lib::lemma_len_subset(s.to_set(), classes.dom());
}

/// `v` holds `x`.
fn vec_contains(v: &Vec<u64>, x: u64) -> (r: bool)
    ensures
        r == v@.contains(x),
{
    let mut i: usize = 0;
    while i < v.len()
        invariant
            i <= v.len(),
            forall|j: int| 0 <= j < i ==> v@[j] != x,
        decreases v.len() - i,
    {
        if v[i] == x {
            return true;
        }
        i += 1;
    }
    false
}

} // verus!
