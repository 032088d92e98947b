//! Linking: a value of the graph with its variables resolved, the known
//! values put in, and the alternatives joined.

use std::collections::{HashMap, HashSet};
use vstd::prelude::*;
use crate::analyzer::graph::VarGraph;
use crate::analyzer::hash::hashed;
use crate::analyzer::well_known::{value_visitor, visited};
use crate::analyzer::{JsValue, Value, models};

verus! {

broadcast use vstd::std_specs::hash::group_hash_axioms;

/// How often the rewrites are applied to one node before the linker gives
/// the node up.
pub const REPLACE_STEPS: usize = 8;

/// The rewrites applied to `value` until nothing changes; unknown where that
/// takes more than `steps` tries.
pub open spec fn settled(directory: Seq<char>, value: Value, steps: nat) -> Value
    decreases steps,
{
    if steps == 0 {
        Value::Unknown
    } else if visited(directory, value).1 {
        settled(directory, visited(directory, value).0, (steps - 1) as nat)
    } else {
        value
    }
}

/// Alternatives of one value are that value, and of none are unknown.
pub open spec fn collapsed(value: Value) -> Value {
    match value {
        Value::Alternatives(alts) => if alts.len() == 0 {
            Value::Unknown
        } else if alts.len() == 1 {
            alts[0]
        } else {
            value
        },
        _ => value,
    }
}

/// The members of a value taken as alternatives: its own where it is one,
/// else the value.
pub open spec fn members(value: Value) -> Seq<Value> {
    match value {
        Value::Alternatives(alts) => alts,
        _ => seq![value],
    }
}

/// The members of all the values, in order.
pub open spec fn flattened(values: Seq<Value>) -> Seq<Value>
    decreases values.len(),
{
    if values.len() == 0 {
        Seq::empty()
    } else {
        flattened(values.drop_last()) + members(values.last())
    }
}

/// The values without repetition: each at its first place.
pub open spec fn distinct(values: Seq<Value>) -> Seq<Value>
    decreases values.len(),
{
    if values.len() == 0 {
        Seq::empty()
    } else if distinct(values.drop_last()).contains(values.last()) {
        distinct(values.drop_last())
    } else {
        distinct(values.drop_last()).push(values.last())
    }
}

/// The join of the values: the alternatives between their members, each
/// once.
pub open spec fn joined(values: Seq<Value>) -> Value {
    collapsed(Value::Alternatives(distinct(flattened(values))))
}

/// A value widened: alternatives of which one is unknown are unknown.
pub open spec fn widened(value: Value) -> Value {
    match value {
        Value::Alternatives(alts) => if alts.contains(Value::Unknown) {
            Value::Unknown
        } else {
            value
        },
        _ => value,
    }
}

/// What a node with linked children becomes.
pub open spec fn finished(directory: Seq<char>, value: Value) -> Value {
    collapsed(settled(directory, value, REPLACE_STEPS as nat))
}

/// How many bindings are not being resolved: the measure by which linking
/// terminates.
pub open spec fn unresolved(bindings: Map<u64, Value>, stack: Set<u64>) -> nat {
    bindings.dom().difference(stack).len()
}

/// The linked form of `value`: every variable stands for the linked value of
/// its binding (unknown where it has none, or is being resolved already),
/// the rewrites are applied from the leaves up, and alternatives are joined.
pub open spec fn linked(
    bindings: Map<u64, Value>,
    directory: Seq<char>,
    value: Value,
    stack: Set<u64>,
) -> Value
    decreases unresolved(bindings, stack), value,
    when bindings.dom().finite()
{
    match value {
        Value::Variable(id) => if bindings.contains_key(id) && !stack.contains(id) {
            proof {
                lemma_resolving_decreases(bindings, id, stack);
            }
            linked(bindings, directory, bindings[id], stack.insert(id))
        } else {
            Value::Unknown
        },
        Value::Call(function, this, arguments) => finished(
            directory,
            Value::Call(
                Box::new(linked(bindings, directory, *function, stack)),
                Box::new(linked(bindings, directory, *this, stack)),
                linked_each(bindings, directory, arguments, stack),
            ),
        ),
        Value::MemberAccess(object, property) => finished(
            directory,
            Value::MemberAccess(
                Box::new(linked(bindings, directory, *object, stack)),
                Box::new(linked(bindings, directory, *property, stack)),
            ),
        ),
        Value::Concat(parts) => finished(
            directory,
            Value::Concat(linked_each(bindings, directory, parts, stack)),
        ),
        Value::Add(parts) => finished(
            directory,
            Value::Add(linked_each(bindings, directory, parts, stack)),
        ),
        Value::Alternatives(alts) => joined(linked_each(bindings, directory, alts, stack)),
        _ => visited(directory, value).0,
    }
}

/// The linked forms of the values.
pub open spec fn linked_each(
    bindings: Map<u64, Value>,
    directory: Seq<char>,
    values: Seq<Value>,
    stack: Set<u64>,
) -> Seq<Value>
    decreases unresolved(bindings, stack), values,
    when bindings.dom().finite()
{
    Seq::new(
        values.len(),
        |i: int|
            if 0 <= i < values.len() {
                linked(bindings, directory, values[i], stack)
            } else {
                Value::Unknown
            },
    )
}

/// Resolving a binding that is not being resolved leaves fewer to resolve.
pub proof fn lemma_resolving_decreases(bindings: Map<u64, Value>, id: u64, stack: Set<u64>)
    requires
        bindings.dom().finite(),
        bindings.contains_key(id),
        !stack.contains(id),
    ensures
        unresolved(bindings, stack.insert(id)) < unresolved(bindings, stack),
{
    let before = bindings.dom().difference(stack);
    let after = bindings.dom().difference(stack.insert(id));
    assert(after =~= before.remove(id));
}

/// Applies the rewrites to a node until nothing changes.
fn settle(directory: &String, value: JsValue) -> (result: JsValue)
    ensures
        result@ == settled(directory@, value@, REPLACE_STEPS as nat),
{
    let mut current = value;
    let mut steps: usize = REPLACE_STEPS;
    loop
        invariant
            settled(directory@, current@, steps as nat) == settled(
                directory@,
                value@,
                REPLACE_STEPS as nat,
            ),
        decreases steps,
    {
        if steps == 0 {
            return JsValue::Unknown;
        }
        let (next, changed) = value_visitor(directory, current);
        if !changed {
            return next;
        }
        current = next;
        steps -= 1;
    }
}

/// Takes alternatives of one value for that value, and of none for unknown.
fn collapse(value: JsValue) -> (result: JsValue)
    ensures
        result@ == collapsed(value@),
{
    match value {
        JsValue::Alternatives(mut alts) => {
            let ghost before = models(alts@);
            if alts.len() == 0 {
                JsValue::Unknown
            } else if alts.len() == 1 {
                match alts.pop() {
                    Some(only) => {
                        assert(only@ == before[0]);
                        only
                    },
                    None => JsValue::Unknown,
                }
            } else {
                JsValue::Alternatives(alts)
            }
        },
        other => other,
    }
}

/// Adds a value to the end of a list that does not hold it yet.
fn push_distinct(list: &mut Vec<JsValue>, value: JsValue)
    ensures
        models(final(list)@) == if models(old(list)@).contains(value@) {
            models(old(list)@)
        } else {
            models(old(list)@).push(value@)
        },
{
    let mut i: usize = 0;
    while i < list.len()
        invariant
            i <= list.len(),
            *list == *old(list),
            forall|j: int| 0 <= j < i ==> models(list@)[j] != value@,
        decreases list.len() - i,
    {
        if list[i].same(&value) {
            assert(models(list@)[i as int] == value@);
            return ;
        }
        i += 1;
    }
    list.push(value);
}

/// Joins values: the alternatives between their members, each once.
pub fn join_all(values: &Vec<JsValue>) -> (result: JsValue)
    ensures
        result@ == joined(models(values@)),
{
    let ghost all = models(values@);
    let mut list: Vec<JsValue> = Vec::new();
    let mut i: usize = 0;
    while i < values.len()
        invariant
            i <= values.len(),
            all == models(values@),
            models(list@) == distinct(flattened(all.subrange(0, i as int))),
        decreases values.len() - i,
    {
        let ghost before = flattened(all.subrange(0, i as int));
        proof {
            assert(all.subrange(0, i as int + 1).drop_last() =~= all.subrange(0, i as int));
        }
        match &values[i] {
            JsValue::Alternatives(alts) => {
                let ghost inner = models(alts@);
                let mut j: usize = 0;
                while j < alts.len()
                    invariant
                        j <= alts.len(),
                        inner == models(alts@),
                        models(list@) == distinct(before + inner.subrange(0, j as int)),
                    decreases alts.len() - j,
                {
                    push_distinct(&mut list, alts[j].clone());
                    j += 1;
                    proof {
                        let now = before + inner.subrange(0, j as int);
                        assert(now.drop_last() =~= before + inner.subrange(0, j as int - 1));
                    }
                }
                assert(inner.subrange(0, j as int) =~= inner);
            },
            other => {
                push_distinct(&mut list, other.clone());
                proof {
                    let now = before + seq![other@];
                    assert(now.drop_last() =~= before);
                }
            },
        }
        i += 1;
    }
    assert(all.subrange(0, i as int) =~= all);
    collapse(JsValue::Alternatives(list))
}

/// The join of two values.
pub fn join(left: JsValue, right: JsValue) -> (result: JsValue)
    ensures
        result@ == joined(seq![left@, right@]),
{
    let mut values: Vec<JsValue> = Vec::new();
    values.push(left);
    values.push(right);
    assert(models(values@) =~= seq![left@, right@]);
    join_all(&values)
}

/// Widens a value: alternatives of which one is unknown become unknown. A
/// join keeps an unknown alternative beside the others until it is widened.
pub fn widen(value: JsValue) -> (result: JsValue)
    ensures
        result@ == widened(value@),
{
    match &value {
        JsValue::Alternatives(alts) => {
            let ghost all = models(alts@);
            let mut i: usize = 0;
            while i < alts.len()
                invariant
                    i <= alts.len(),
                    all == models(alts@),
                    value@ == Value::Alternatives(all),
                    forall|j: int| 0 <= j < i ==> all[j] != Value::Unknown,
                decreases alts.len() - i,
            {
                match &alts[i] {
                    JsValue::Unknown => {
                        assert(all[i as int] == Value::Unknown);
                        return JsValue::Unknown;
                    },
                    _ => {},
                }
                i += 1;
            }
        },
        _ => {},
    }
    value
}

/// What a node with linked children becomes.
fn finish(directory: &String, value: JsValue) -> (result: JsValue)
    ensures
        result@ == finished(directory@, value@),
{
    collapse(settle(directory, value))
}

/// The linked forms of the values that were linked before, by the structural
/// hash of the value, so that no value is linked twice.
#[derive(Debug)]
pub struct LinkCache {
    buckets: HashMap<u64, Vec<(JsValue, JsValue)>>,
}

/// The result that a bucket holds for a value: that of the first entry for
/// the value, if there is one.
pub open spec fn bucket_result(bucket: Seq<(JsValue, JsValue)>, value: Value) -> Option<Value>
    decreases bucket.len(),
{
    if bucket.len() == 0 {
        None
    } else if bucket[0].0@ == value {
        Some(bucket[0].1@)
    } else {
        bucket_result(bucket.drop_first(), value)
    }
}

/// The bucket in which a value is looked for: that of its structural hash.
pub open spec fn bucket_of(value: Value) -> u64 {
    hashed(value) as u64
}

/// The result that the buckets hold for a value.
pub open spec fn cache_result(buckets: Map<u64, Vec<(JsValue, JsValue)>>, value: Value) -> Option<Value> {
    if buckets.contains_key(bucket_of(value)) {
        bucket_result(buckets[bucket_of(value)]@, value)
    } else {
        None
    }
}

impl View for LinkCache {
    type V = Map<Value, Value>;

    /// The linked forms that the cache holds, by value.
    closed spec fn view(&self) -> Map<Value, Value> {
        Map::new(
            |value: Value| cache_result(self.buckets@, value) is Some,
            |value: Value| cache_result(self.buckets@, value)->0,
        )
    }
}

/// A bucket in which no entry before `at` is for the value, and the entry at
/// `at` is, holds the result of that entry for it.
proof fn lemma_bucket_result_at(bucket: Seq<(JsValue, JsValue)>, value: Value, at: int)
    requires
        0 <= at < bucket.len(),
        bucket[at].0@ == value,
        forall|j: int| 0 <= j < at ==> (#[trigger] bucket[j]).0@ != value,
    ensures
        bucket_result(bucket, value) == Some(bucket[at].1@),
    decreases at,
{
    if at > 0 {
        assert(bucket[0].0@ != value);
        let rest = bucket.drop_first();
        assert forall|j: int| 0 <= j < at - 1 implies (#[trigger] rest[j]).0@ != value by {
            assert(rest[j] == bucket[j + 1]);
        }
        lemma_bucket_result_at(rest, value, at - 1);
    }
}

/// A bucket in which no entry is for the value holds no result for it.
proof fn lemma_bucket_result_none(bucket: Seq<(JsValue, JsValue)>, value: Value)
    requires
        forall|j: int| 0 <= j < bucket.len() ==> (#[trigger] bucket[j]).0@ != value,
    ensures
        bucket_result(bucket, value) is None,
    decreases bucket.len(),
{
    if bucket.len() > 0 {
        assert(bucket[0].0@ != value);
        let rest = bucket.drop_first();
        assert forall|j: int| 0 <= j < rest.len() implies (#[trigger] rest[j]).0@ != value by {
            assert(rest[j] == bucket[j + 1]);
        }
        lemma_bucket_result_none(rest, value);
    }
}

/// An entry at the end of a bucket counts for its value where the bucket held
/// no result for that value, and changes nothing else.
proof fn lemma_bucket_result_push(
    bucket: Seq<(JsValue, JsValue)>,
    entry: (JsValue, JsValue),
    value: Value,
)
    ensures
        bucket_result(bucket.push(entry), value) == if bucket_result(bucket, value) is Some {
            bucket_result(bucket, value)
        } else if entry.0@ == value {
            Some(entry.1@)
        } else {
            None
        },
    decreases bucket.len(),
{
    let longer = bucket.push(entry);
    if bucket.len() == 0 {
        assert(longer[0] == entry);
        assert(bucket_result(longer.drop_first(), value) is None);
    } else {
        assert(longer[0] == bucket[0]);
        assert(longer.drop_first() =~= bucket.drop_first().push(entry));
        lemma_bucket_result_push(bucket.drop_first(), entry, value);
    }
}

impl LinkCache {
    /// Every linked form that the cache holds is what linking its value with
    /// `bindings`, for a module in `directory`, gives.
    pub closed spec fn holds(&self, bindings: Map<u64, Value>, directory: Seq<char>) -> bool {
        forall|value: Value|
            self@.contains_key(value) ==> #[trigger] self@[value] == linked(
                bindings,
                directory,
                value,
                Set::empty(),
            )
    }

    /// An empty cache, which serves every graph.
    pub fn new() -> (cache: Self)
        ensures
            cache@ == Map::<Value, Value>::empty(),
            forall|bindings: Map<u64, Value>, directory: Seq<char>|
                #[trigger] cache.holds(bindings, directory),
    {
        let cache = LinkCache { buckets: HashMap::new() };
        assert(cache@ =~= Map::<Value, Value>::empty());
        cache
    }

    /// The linked form that the cache holds for `value`, if it holds one.
    fn find(&self, value: &JsValue) -> (found: Option<JsValue>)
        ensures
            match found {
                Some(result) => self@.contains_key(value@) && self@[value@] == result@,
                None => !self@.contains_key(value@),
            },
    {
        let hash = value.structural_hash();
        assert(bucket_of(value@) == hash);
        let bucket = match self.buckets.get(&hash) {
            Some(bucket) => bucket,
            None => {
                return None;
            },
        };
        let mut i: usize = 0;
        while i < bucket.len()
            invariant
                i <= bucket.len(),
                bucket_of(value@) == hash,
                self.buckets@.contains_key(hash),
                self.buckets@[hash] == *bucket,
                forall|j: int| 0 <= j < i ==> (#[trigger] bucket@[j]).0@ != value@,
            decreases bucket.len() - i,
        {
            if bucket[i].0.same(value) {
                proof {
                    lemma_bucket_result_at(bucket@, value@, i as int);
                }
                return Some(bucket[i].1.clone());
            }
            i += 1;
        }
        proof {
            lemma_bucket_result_none(bucket@, value@);
        }
        None
    }

    /// Takes down the linked form of a value, at the end of the bucket of the
    /// value: the cache then holds it for the value, unless it held a linked
    /// form for that value before, which stays.
    fn store(
        &mut self,
        value: JsValue,
        result: JsValue,
        Ghost(bindings): Ghost<Map<u64, Value>>,
        Ghost(directory): Ghost<Seq<char>>,
    )
        requires
            old(self).holds(bindings, directory),
            result@ == linked(bindings, directory, value@, Set::empty()),
        ensures
            final(self)@ == if old(self)@.contains_key(value@) {
                old(self)@
            } else {
                old(self)@.insert(value@, result@)
            },
            final(self).holds(bindings, directory),
    {
        let ghost before = self.buckets@;
        let ghost entry = (value, result);
        let hash = value.structural_hash();
        assert(bucket_of(value@) == hash);
        let mut bucket = match self.buckets.remove(&hash) {
            Some(bucket) => bucket,
            None => Vec::new(),
        };
        let ghost earlier = bucket@;
        assert(cache_result(before, value@) == bucket_result(earlier, value@));
        bucket.push((value, result));
        self.buckets.insert(hash, bucket);
        assert forall|other: Value| cache_result(self.buckets@, other) == if cache_result(before, other)
            is Some {
            cache_result(before, other)
        } else if other == entry.0@ {
            Some(entry.1@)
        } else {
            None
        } by {
            if bucket_of(other) == hash {
                assert(cache_result(before, other) == bucket_result(earlier, other));
                lemma_bucket_result_push(earlier, entry, other);
            } else {
                assert(self.buckets@.contains_key(bucket_of(other)) == before.contains_key(
                    bucket_of(other),
                ));
            }
        }
        assert(self@ =~= if old(self)@.contains_key(entry.0@) {
            old(self)@
        } else {
            old(self)@.insert(entry.0@, entry.1@)
        });
    }
}

/// Whether linking a value is one rewrite, with nothing to resolve below it.
fn is_leaf(value: &JsValue) -> (leaf: bool)
    ensures
        leaf == !(value@ is Variable || value@ is Call || value@ is MemberAccess || value@ is Concat
            || value@ is Add || value@ is Alternatives),
{
    match value {
        JsValue::Variable(_) => false,
        JsValue::Call(_, _, _) => false,
        JsValue::MemberAccess(_, _) => false,
        JsValue::Concat(_) => false,
        JsValue::Add(_) => false,
        JsValue::Alternatives(_) => false,
        _ => true,
    }
}

/// Links each of the values.
fn link_each(
    graph: &VarGraph,
    directory: &String,
    values: &Vec<JsValue>,
    stack: &mut HashSet<u64>,
    cache: &mut LinkCache,
) -> (results: Vec<JsValue>)
    requires
        old(cache).holds(graph@.values, directory@),
    ensures
        models(results@) == linked_each(
            graph@.values,
            directory@,
            models(values@),
            old(stack)@,
        ),
        final(stack)@ == old(stack)@,
        final(cache).holds(graph@.values, directory@),
    decreases unresolved(graph@.values, old(stack)@), values,
{
    let mut results: Vec<JsValue> = Vec::new();
    let mut i: usize = 0;
    assert(graph@.values.dom() =~= graph.values@.dom());
    while i < values.len()
        invariant
            i <= values.len(),
            results.len() == i,
            stack@ == old(stack)@,
            cache.holds(graph@.values, directory@),
            graph@.values.dom().finite(),
            forall|j: int|
                0 <= j < i ==> results[j]@ == linked(
                    graph@.values,
                    directory@,
                    values[j]@,
                    old(stack)@,
                ),
        decreases values.len() - i,
    {
        let result = link_internal(graph, directory, &values[i], stack, cache);
        results.push(result);
        i += 1;
    }
    results
}

/// Links a value while the bindings of `stack` are being resolved. While no
/// binding is being resolved, what was linked before is taken from the
/// cache, and what is linked is taken down there.
fn link_internal(
    graph: &VarGraph,
    directory: &String,
    value: &JsValue,
    stack: &mut HashSet<u64>,
    cache: &mut LinkCache,
) -> (result: JsValue)
    requires
        old(cache).holds(graph@.values, directory@),
    ensures
        result@ == linked(graph@.values, directory@, value@, old(stack)@),
        final(stack)@ == old(stack)@,
        final(cache).holds(graph@.values, directory@),
    decreases unresolved(graph@.values, old(stack)@), value,
{
    let ghost bindings = graph@.values;
    assert(bindings.dom() =~= graph.values@.dom());
    let cached = stack.is_empty() && !is_leaf(value);
    if cached {
        match cache.find(value) {
            Some(result) => {
                return result;
            },
            None => {},
        }
    }
    let result = match value {
        JsValue::Variable(id) => {
            if stack.contains(id) {
                JsValue::Unknown
            } else {
                match graph.values.get(id) {
                    None => JsValue::Unknown,
                    Some(bound) => {
                        proof {
                            lemma_resolving_decreases(bindings, *id, stack@);
                        }
                        stack.insert(*id);
                        let result = link_internal(graph, directory, bound, stack, cache);
                        stack.remove(id);
                        result
                    },
                }
            }
        },
        JsValue::Call(function, this, arguments) => {
            let function = link_internal(graph, directory, function, stack, cache);
            let this = link_internal(graph, directory, this, stack, cache);
            let arguments = link_each(graph, directory, arguments, stack, cache);
            finish(directory, JsValue::Call(Box::new(function), Box::new(this), arguments))
        },
        JsValue::MemberAccess(object, property) => {
            let object = link_internal(graph, directory, object, stack, cache);
            let property = link_internal(graph, directory, property, stack, cache);
            finish(directory, JsValue::MemberAccess(Box::new(object), Box::new(property)))
        },
        JsValue::Concat(parts) => {
            let parts = link_each(graph, directory, parts, stack, cache);
            finish(directory, JsValue::Concat(parts))
        },
        JsValue::Add(parts) => {
            let parts = link_each(graph, directory, parts, stack, cache);
            finish(directory, JsValue::Add(parts))
        },
        JsValue::Alternatives(alts) => {
            let alts = link_each(graph, directory, alts, stack, cache);
            join_all(&alts)
        },
        _ => {
            let (result, _) = value_visitor(directory, value.clone());
            result
        },
    };
    if cached {
        cache.store(value.clone(), result.clone(), Ghost(bindings), Ghost(directory@));
    }
    result
}

/// Links a value of `graph`, for a module in `directory`: every variable is
/// resolved, the rewrites are applied until nothing changes, and alternatives
/// are joined. What was linked before is taken from the cache.
pub fn link(graph: &VarGraph, value: JsValue, directory: &String, cache: &mut LinkCache) -> (result:
    JsValue)
    requires
        old(cache).holds(graph@.values, directory@),
    ensures
        final(cache).holds(graph@.values, directory@),
        result@ == linked(graph@.values, directory@, value@, Set::empty()),
{
    let mut stack: HashSet<u64> = HashSet::new();
    link_internal(graph, directory, &value, &mut stack, cache)
}

/// Links each of the values of `graph`, for a module in `directory`.
pub fn link_all(
    graph: &VarGraph,
    values: &Vec<JsValue>,
    directory: &String,
    cache: &mut LinkCache,
) -> (results: Vec<JsValue>)
    requires
        old(cache).holds(graph@.values, directory@),
    ensures
        final(cache).holds(graph@.values, directory@),
        models(results@) == linked_each(
            graph@.values,
            directory@,
            models(values@),
            Set::empty(),
        ),
{
    let mut results: Vec<JsValue> = Vec::new();
    let mut i: usize = 0;
    assert(graph@.values.dom() =~= graph.values@.dom());
    while i < values.len()
        invariant
            i <= values.len(),
            results.len() == i,
            cache.holds(graph@.values, directory@),
            graph@.values.dom().finite(),
            forall|j: int|
                0 <= j < i ==> results[j]@ == linked(
                    graph@.values,
                    directory@,
                    values[j]@,
                    Set::empty(),
                ),
        decreases values.len() - i,
    {
        let result = link(graph, values[i].clone(), directory, cache);
        results.push(result);
        i += 1;
    }
    results
}

} // verus!
