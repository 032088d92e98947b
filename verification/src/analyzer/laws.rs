//! What holds of linking and of patterns, for every value.

use vstd::prelude::*;
use crate::analyzer::linker::{
    collapsed, distinct, finished, flattened, joined, lemma_resolving_decreases, linked,
    linked_each, members, settled, unresolved, REPLACE_STEPS,
};
use crate::analyzer::pattern::{crossed, literals, literals_of_any, literals_of_parts, pattern_of};
use crate::analyzer::well_known::{is_fs_read_method, visited};
use crate::analyzer::{Value, WellKnownFunction};

verus! {

/// A value in linked form: it holds no variable, no rewrite applies anywhere
/// in it, and its alternatives are joined (at least two, none of them
/// alternatives itself, none of them twice).
pub open spec fn normal(directory: Seq<char>, value: Value) -> bool
    decreases value,
{
    &&& !visited(directory, value).1
    &&& match value {
        Value::Variable(_) => false,
        Value::Call(function, this, arguments) => normal(directory, *function) && normal(
            directory,
            *this,
        ) && all_normal(directory, arguments),
        Value::MemberAccess(object, property) => normal(directory, *object) && normal(
            directory,
            *property,
        ),
        Value::Concat(parts) => all_normal(directory, parts),
        Value::Add(parts) => all_normal(directory, parts),
        Value::Alternatives(alts) => {
            &&& all_normal(directory, alts)
            &&& alts.len() >= 2
            &&& alts.no_duplicates()
            &&& forall|i: int| 0 <= i < alts.len() ==> !((#[trigger] alts[i]) is Alternatives)
        },
        _ => true,
    }
}

/// Every one of the values is in linked form.
pub open spec fn all_normal(directory: Seq<char>, values: Seq<Value>) -> bool
    decreases values,
{
    forall|i: int| 0 <= i < values.len() ==> normal(directory, #[trigger] values[i])
}

/// Values that are not alternatives are their own members.
proof fn lemma_flattened_plain(values: Seq<Value>)
    requires
        forall|i: int| 0 <= i < values.len() ==> !((#[trigger] values[i]) is Alternatives),
    ensures
        flattened(values) == values,
    decreases values.len(),
{
    if values.len() > 0 {
        lemma_flattened_plain(values.drop_last());
    }
}

/// What holds of every member of every value holds of every flattened one.
proof fn lemma_flattened_members(values: Seq<Value>, holds: spec_fn(Value) -> bool)
    requires
        forall|i: int, j: int|
            0 <= i < values.len() && 0 <= j < members(values[i]).len() ==> holds(
                #[trigger] members(values[i])[j],
            ),
    ensures
        forall|k: int| 0 <= k < flattened(values).len() ==> holds(#[trigger] flattened(values)[k]),
    decreases values.len(),
{
    if values.len() > 0 {
        let before = values.drop_last();
        lemma_flattened_members(before, holds);
        assert forall|k: int| 0 <= k < flattened(values).len() implies holds(
            #[trigger] flattened(values)[k],
        ) by {
            if k >= flattened(before).len() {
                assert(flattened(values)[k] == members(values.last())[k - flattened(
                    before,
                ).len()]);
            }
        }
    }
}

/// The distinct values hold each of the values once, and nothing else.
pub proof fn lemma_distinct(values: Seq<Value>)
    ensures
        distinct(values).no_duplicates(),
        forall|value: Value| #[trigger] distinct(values).contains(value) ==> values.contains(value),
        forall|value: Value| #[trigger] values.contains(value) ==> distinct(values).contains(value),
    decreases values.len(),
{
    if values.len() > 0 {
        let before = values.drop_last();
        let last = values.last();
        lemma_distinct(before);
        let kept = distinct(before);
        let all = distinct(values);
        assert forall|value: Value| #[trigger] all.contains(value) implies values.contains(value) by {
            let k = choose|k: int| 0 <= k < all.len() && all[k] == value;
            if k < kept.len() {
                assert(kept.contains(value));
            }
        }
        assert forall|value: Value| #[trigger] values.contains(value) implies all.contains(value) by {
            let i = choose|i: int| 0 <= i < values.len() && values[i] == value;
            if i < before.len() {
                assert(before[i] == value);
                assert(before.contains(value));
                let k = choose|k: int| 0 <= k < kept.len() && kept[k] == value;
                assert(all[k] == value);
            } else if !kept.contains(last) {
                assert(all[kept.len() as int] == value);
            }
        }
    }
}

/// Values of which none is there twice are distinct as they are.
proof fn lemma_distinct_unique(values: Seq<Value>)
    requires
        values.no_duplicates(),
    ensures
        distinct(values) == values,
    decreases values.len(),
{
    if values.len() > 0 {
        let before = values.drop_last();
        lemma_distinct_unique(before);
    }
}

/// A value in linked form is its own linked form.
pub proof fn lemma_normal_is_linked(
    bindings: Map<u64, Value>,
    directory: Seq<char>,
    value: Value,
    stack: Set<u64>,
)
    requires
        bindings.dom().finite(),
        normal(directory, value),
    ensures
        linked(bindings, directory, value, stack) == value,
    decreases value,
{
    match value {
        Value::Call(function, this, arguments) => {
            lemma_normal_is_linked(bindings, directory, *function, stack);
            lemma_normal_is_linked(bindings, directory, *this, stack);
            lemma_all_normal_are_linked(bindings, directory, arguments, stack);
        },
        Value::MemberAccess(object, property) => {
            lemma_normal_is_linked(bindings, directory, *object, stack);
            lemma_normal_is_linked(bindings, directory, *property, stack);
        },
        Value::Concat(parts) => {
            lemma_all_normal_are_linked(bindings, directory, parts, stack);
        },
        Value::Add(parts) => {
            lemma_all_normal_are_linked(bindings, directory, parts, stack);
        },
        Value::Alternatives(alts) => {
            lemma_all_normal_are_linked(bindings, directory, alts, stack);
            lemma_flattened_plain(alts);
            lemma_distinct_unique(alts);
        },
        _ => {},
    }
}

/// Values in linked form are their own linked forms.
pub proof fn lemma_all_normal_are_linked(
    bindings: Map<u64, Value>,
    directory: Seq<char>,
    values: Seq<Value>,
    stack: Set<u64>,
)
    requires
        bindings.dom().finite(),
        all_normal(directory, values),
    ensures
        linked_each(bindings, directory, values, stack) == values,
    decreases values,
{
    assert forall|i: int| 0 <= i < values.len() implies linked(
        bindings,
        directory,
        #[trigger] values[i],
        stack,
    ) == values[i] by {
        lemma_normal_is_linked(bindings, directory, values[i], stack);
    }
}

/// A node over children in linked form, once finished, is in linked form.
proof fn lemma_finished_is_normal(directory: Seq<char>, node: Value)
    requires
        match node {
            Value::Call(function, this, arguments) => normal(directory, *function) && normal(
                directory,
                *this,
            ) && all_normal(directory, arguments),
            Value::MemberAccess(object, property) => normal(directory, *object) && normal(
                directory,
                *property,
            ),
            Value::Concat(parts) => all_normal(directory, parts),
            Value::Add(parts) => all_normal(directory, parts),
            _ => false,
        },
    ensures
        normal(directory, finished(directory, node)),
{
    reveal_with_fuel(settled, 3);
    lemma_rewrite_is_idempotent(directory, node);
}

/// The join of values in linked form is in linked form.
proof fn lemma_joined_is_normal(directory: Seq<char>, values: Seq<Value>)
    requires
        all_normal(directory, values),
    ensures
        normal(directory, joined(values)),
{
    let holds = |value: Value| normal(directory, value) && !(value is Alternatives);
    assert forall|i: int, j: int|
        0 <= i < values.len() && 0 <= j < members(values[i]).len() implies holds(
        #[trigger] members(values[i])[j],
    ) by {
        if let Value::Alternatives(alts) = values[i] {
            assert(all_normal(directory, alts));
        }
    }
    lemma_flattened_members(values, holds);
    let flat = flattened(values);
    let kept = distinct(flat);
    lemma_distinct(flat);
    assert forall|k: int| 0 <= k < kept.len() implies holds(#[trigger] kept[k]) by {
        assert(kept.contains(kept[k]));
    }
    if kept.len() >= 2 {
        assert(all_normal(directory, kept));
    }
}

/// Linking gives a value in linked form.
pub proof fn lemma_linked_is_normal(
    bindings: Map<u64, Value>,
    directory: Seq<char>,
    value: Value,
    stack: Set<u64>,
)
    requires
        bindings.dom().finite(),
    ensures
        normal(directory, linked(bindings, directory, value, stack)),
    decreases unresolved(bindings, stack), value,
{
    match value {
        Value::Variable(id) => {
            if bindings.contains_key(id) && !stack.contains(id) {
                lemma_resolving_decreases(bindings, id, stack);
                lemma_linked_is_normal(bindings, directory, bindings[id], stack.insert(id));
            }
        },
        Value::Call(function, this, arguments) => {
            lemma_linked_is_normal(bindings, directory, *function, stack);
            lemma_linked_is_normal(bindings, directory, *this, stack);
            lemma_linked_are_normal(bindings, directory, arguments, stack);
            lemma_finished_is_normal(
                directory,
                Value::Call(
                    Box::new(linked(bindings, directory, *function, stack)),
                    Box::new(linked(bindings, directory, *this, stack)),
                    linked_each(bindings, directory, arguments, stack),
                ),
            );
        },
        Value::MemberAccess(object, property) => {
            lemma_linked_is_normal(bindings, directory, *object, stack);
            lemma_linked_is_normal(bindings, directory, *property, stack);
            lemma_finished_is_normal(
                directory,
                Value::MemberAccess(
                    Box::new(linked(bindings, directory, *object, stack)),
                    Box::new(linked(bindings, directory, *property, stack)),
                ),
            );
        },
        Value::Concat(parts) => {
            lemma_linked_are_normal(bindings, directory, parts, stack);
        },
        Value::Add(parts) => {
            lemma_linked_are_normal(bindings, directory, parts, stack);
        },
        Value::Alternatives(alts) => {
            lemma_linked_are_normal(bindings, directory, alts, stack);
            lemma_joined_is_normal(directory, linked_each(bindings, directory, alts, stack));
        },
        _ => {},
    }
}

/// Linking gives values in linked form.
pub proof fn lemma_linked_are_normal(
    bindings: Map<u64, Value>,
    directory: Seq<char>,
    values: Seq<Value>,
    stack: Set<u64>,
)
    requires
        bindings.dom().finite(),
    ensures
        all_normal(directory, linked_each(bindings, directory, values, stack)),
    decreases unresolved(bindings, stack), values,
{
    let results = linked_each(bindings, directory, values, stack);
    assert forall|i: int| 0 <= i < results.len() implies normal(directory, #[trigger] results[i]) by {
        lemma_linked_is_normal(bindings, directory, values[i], stack);
    }
}

/// Idempotence of linking: the linked form of a linked value is that value.
pub proof fn lemma_link_idempotent(
    bindings: Map<u64, Value>,
    directory: Seq<char>,
    value: Value,
    stack: Set<u64>,
    again: Set<u64>,
)
    requires
        bindings.dom().finite(),
    ensures
        linked(bindings, directory, linked(bindings, directory, value, stack), again) == linked(
            bindings,
            directory,
            value,
            stack,
        ),
{
    lemma_linked_is_normal(bindings, directory, value, stack);
    lemma_normal_is_linked(bindings, directory, linked(bindings, directory, value, stack), again);
}

/// Alternatives in normal form, all through a value: at least two, none of
/// them alternatives itself, none of them twice.
pub open spec fn well_joined(value: Value) -> bool
    decreases value,
{
    match value {
        Value::Call(function, this, arguments) => well_joined(*function) && well_joined(*this)
            && all_well_joined(arguments),
        Value::MemberAccess(object, property) => well_joined(*object) && well_joined(*property),
        Value::Concat(parts) => all_well_joined(parts),
        Value::Add(parts) => all_well_joined(parts),
        Value::Alternatives(alts) => {
            &&& all_well_joined(alts)
            &&& alts.len() >= 2
            &&& alts.no_duplicates()
            &&& forall|i: int| 0 <= i < alts.len() ==> !((#[trigger] alts[i]) is Alternatives)
        },
        _ => true,
    }
}

/// Alternatives in normal form, all through each of the values.
pub open spec fn all_well_joined(values: Seq<Value>) -> bool
    decreases values,
{
    forall|i: int| 0 <= i < values.len() ==> well_joined(#[trigger] values[i])
}

/// The alternatives of a value in linked form are in normal form.
proof fn lemma_normal_is_well_joined(directory: Seq<char>, value: Value)
    requires
        normal(directory, value),
    ensures
        well_joined(value),
    decreases value,
{
    match value {
        Value::Call(function, this, arguments) => {
            lemma_normal_is_well_joined(directory, *function);
            lemma_normal_is_well_joined(directory, *this);
            lemma_all_normal_are_well_joined(directory, arguments);
        },
        Value::MemberAccess(object, property) => {
            lemma_normal_is_well_joined(directory, *object);
            lemma_normal_is_well_joined(directory, *property);
        },
        Value::Concat(parts) => {
            lemma_all_normal_are_well_joined(directory, parts);
        },
        Value::Add(parts) => {
            lemma_all_normal_are_well_joined(directory, parts);
        },
        Value::Alternatives(alts) => {
            lemma_all_normal_are_well_joined(directory, alts);
        },
        _ => {},
    }
}

/// The alternatives of values in linked form are in normal form.
proof fn lemma_all_normal_are_well_joined(directory: Seq<char>, values: Seq<Value>)
    requires
        all_normal(directory, values),
    ensures
        all_well_joined(values),
    decreases values,
{
    assert forall|i: int| 0 <= i < values.len() implies well_joined(#[trigger] values[i]) by {
        lemma_normal_is_well_joined(directory, values[i]);
    }
}

/// Alternatives normal form: no linked value holds alternatives of no value
/// or of one, nor alternatives within alternatives, anywhere in it.
pub proof fn lemma_link_joins_alternatives(
    bindings: Map<u64, Value>,
    directory: Seq<char>,
    value: Value,
    stack: Set<u64>,
)
    requires
        bindings.dom().finite(),
    ensures
        well_joined(linked(bindings, directory, value, stack)),
{
    lemma_linked_is_normal(bindings, directory, value, stack);
    lemma_normal_is_well_joined(directory, linked(bindings, directory, value, stack));
}

/// Every known function in the value is one of the fixed set: where it is a
/// reading method of `fs`, its name is one of the known names.
pub open spec fn closed(value: Value) -> bool
    decreases value,
{
    match value {
        Value::WellKnownFunction(WellKnownFunction::FsReadMethod(name)) => is_fs_read_method(name),
        Value::Call(function, this, arguments) => closed(*function) && closed(*this)
            && all_closed(arguments),
        Value::MemberAccess(object, property) => closed(*object) && closed(*property),
        Value::Concat(parts) => all_closed(parts),
        Value::Add(parts) => all_closed(parts),
        Value::Alternatives(alts) => all_closed(alts),
        _ => true,
    }
}

/// Every known function in each of the values is one of the fixed set.
pub open spec fn all_closed(values: Seq<Value>) -> bool
    decreases values,
{
    forall|i: int| 0 <= i < values.len() ==> closed(#[trigger] values[i])
}

/// The rewrites, applied until nothing changes, introduce known functions of
/// the fixed set only.
proof fn lemma_settled_is_closed(directory: Seq<char>, value: Value, steps: nat)
    requires
        closed(value),
    ensures
        closed(settled(directory, value, steps)),
        closed(collapsed(settled(directory, value, steps))),
    decreases steps,
{
    if steps > 0 && visited(directory, value).1 {
        lemma_settled_is_closed(directory, visited(directory, value).0, (steps - 1) as nat);
    }
    match settled(directory, value, steps) {
        Value::Alternatives(alts) => {
            assert(all_closed(alts));
        },
        _ => {},
    }
}

/// The join of values introduces no known function.
pub proof fn lemma_joined_is_closed(values: Seq<Value>)
    requires
        all_closed(values),
    ensures
        closed(joined(values)),
{
    let holds = |value: Value| closed(value);
    assert forall|i: int, j: int|
        0 <= i < values.len() && 0 <= j < members(values[i]).len() implies holds(
        #[trigger] members(values[i])[j],
    ) by {
        if let Value::Alternatives(alts) = values[i] {
            assert(all_closed(alts));
        }
    }
    lemma_flattened_members(values, holds);
    let flat = flattened(values);
    let kept = distinct(flat);
    lemma_distinct(flat);
    assert forall|k: int| 0 <= k < kept.len() implies closed(#[trigger] kept[k]) by {
        assert(kept.contains(kept[k]));
    }
    assert(all_closed(kept));
}

/// Closed set of known values: where the bindings and the value hold known
/// functions of the fixed set only, so does the linked value.
pub proof fn lemma_link_keeps_closed(
    bindings: Map<u64, Value>,
    directory: Seq<char>,
    value: Value,
    stack: Set<u64>,
)
    requires
        bindings.dom().finite(),
        forall|id: u64| bindings.contains_key(id) ==> closed(#[trigger] bindings[id]),
        closed(value),
    ensures
        closed(linked(bindings, directory, value, stack)),
    decreases unresolved(bindings, stack), value,
{
    match value {
        Value::Variable(id) => {
            if bindings.contains_key(id) && !stack.contains(id) {
                lemma_resolving_decreases(bindings, id, stack);
                lemma_link_keeps_closed(bindings, directory, bindings[id], stack.insert(id));
            }
        },
        Value::Call(function, this, arguments) => {
            lemma_link_keeps_closed(bindings, directory, *function, stack);
            lemma_link_keeps_closed(bindings, directory, *this, stack);
            lemma_link_keeps_all_closed(bindings, directory, arguments, stack);
            let node = Value::Call(
                Box::new(linked(bindings, directory, *function, stack)),
                Box::new(linked(bindings, directory, *this, stack)),
                linked_each(bindings, directory, arguments, stack),
            );
            lemma_settled_is_closed(directory, node, REPLACE_STEPS as nat);
        },
        Value::MemberAccess(object, property) => {
            lemma_link_keeps_closed(bindings, directory, *object, stack);
            lemma_link_keeps_closed(bindings, directory, *property, stack);
            let node = Value::MemberAccess(
                Box::new(linked(bindings, directory, *object, stack)),
                Box::new(linked(bindings, directory, *property, stack)),
            );
            lemma_settled_is_closed(directory, node, REPLACE_STEPS as nat);
        },
        Value::Concat(parts) => {
            lemma_link_keeps_all_closed(bindings, directory, parts, stack);
            let node = Value::Concat(linked_each(bindings, directory, parts, stack));
            lemma_settled_is_closed(directory, node, REPLACE_STEPS as nat);
        },
        Value::Add(parts) => {
            lemma_link_keeps_all_closed(bindings, directory, parts, stack);
            let node = Value::Add(linked_each(bindings, directory, parts, stack));
            lemma_settled_is_closed(directory, node, REPLACE_STEPS as nat);
        },
        Value::Alternatives(alts) => {
            lemma_link_keeps_all_closed(bindings, directory, alts, stack);
            lemma_joined_is_closed(linked_each(bindings, directory, alts, stack));
        },
        _ => {},
    }
}

/// Where the bindings and the values hold known functions of the fixed set
/// only, so do the linked values.
pub proof fn lemma_link_keeps_all_closed(
    bindings: Map<u64, Value>,
    directory: Seq<char>,
    values: Seq<Value>,
    stack: Set<u64>,
)
    requires
        bindings.dom().finite(),
        forall|id: u64| bindings.contains_key(id) ==> closed(#[trigger] bindings[id]),
        all_closed(values),
    ensures
        all_closed(linked_each(bindings, directory, values, stack)),
    decreases unresolved(bindings, stack), values,
{
    let results = linked_each(bindings, directory, values, stack);
    assert forall|i: int| 0 <= i < results.len() implies closed(#[trigger] results[i]) by {
        lemma_link_keeps_closed(bindings, directory, values[i], stack);
    }
}

/// A value that can be one string only.
pub open spec fn single(value: Value) -> bool {
    literals(value) is Some && literals(value)->0.len() == 1
}

/// Wherever the strings of a value are known, there is at least one.
proof fn lemma_literals_exist(value: Value)
    requires
        literals(value) is Some,
    ensures
        literals(value)->0.len() >= 1,
    decreases value, 0nat,
{
    match value {
        Value::Concat(parts) => {
            lemma_literals_of_parts_exist(parts, parts.len());
        },
        Value::Add(parts) => {
            lemma_literals_of_parts_exist(parts, parts.len());
        },
        Value::Alternatives(alts) => {
            lemma_literals_of_any_exist(alts, alts.len());
        },
        _ => {},
    }
}

/// Wherever the strings of parts are known, there is at least one; where
/// there is one only, each part can be one string only.
proof fn lemma_literals_of_parts_exist(parts: Seq<Value>, count: nat)
    requires
        count <= parts.len(),
        literals_of_parts(parts, count) is Some,
    ensures
        literals_of_parts(parts, count)->0.len() >= 1,
        literals_of_parts(parts, count)->0.len() == 1 ==> forall|i: int|
            0 <= i < count ==> single(#[trigger] parts[i]),
    decreases parts, count,
{
    if count > 0 {
        let before = literals_of_parts(parts, (count - 1) as nat)->0;
        let last = literals(parts[count - 1])->0;
        lemma_literals_of_parts_exist(parts, (count - 1) as nat);
        lemma_literals_exist(parts[count - 1]);
        if before.len() > 1 {
            assert(crossed(before.drop_last(), last).len() >= last.len());
        }
    }
}

/// Wherever the strings of alternatives are known, there is at least one for
/// each of the alternatives.
proof fn lemma_literals_of_any_exist(alts: Seq<Value>, count: nat)
    requires
        count <= alts.len(),
        literals_of_any(alts, count) is Some,
    ensures
        literals_of_any(alts, count)->0.len() >= count,
        forall|i: int| 0 <= i < count ==> literals(#[trigger] alts[i]) is Some,
        count == 1 ==> literals_of_any(alts, count) == literals(alts[0]),
    decreases alts, count,
{
    if count > 0 {
        lemma_literals_of_any_exist(alts, (count - 1) as nat);
        lemma_literals_exist(alts[count - 1]);
    }
}

/// One value, flattened, is its members.
proof fn lemma_one_flattened(value: Value)
    ensures
        flattened(seq![value]) == members(value),
{
    let one = seq![value];
    assert(flattened(one) == flattened(one.drop_last()) + members(one.last()));
}

/// One value is distinct.
proof fn lemma_one_distinct(value: Value)
    ensures
        distinct(seq![value]) == seq![value],
{
    let one = seq![value];
    assert(distinct(one) == distinct(one.drop_last()).push(one.last()));
}

/// A value that can be one string only can, once linked, be that string
/// only.
proof fn lemma_single_stays(
    bindings: Map<u64, Value>,
    directory: Seq<char>,
    value: Value,
    stack: Set<u64>,
)
    requires
        bindings.dom().finite(),
        single(value),
    ensures
        single(linked(bindings, directory, value, stack)),
        literals(linked(bindings, directory, value, stack))->0[0] == literals(value)->0[0],
    decreases value, 0nat,
{
    match value {
        Value::Concat(parts) => {
            lemma_literals_of_parts_exist(parts, parts.len());
            lemma_singles_stay(bindings, directory, parts, parts.len(), stack);
        },
        Value::Add(parts) => {
            lemma_literals_of_parts_exist(parts, parts.len());
            lemma_singles_stay(bindings, directory, parts, parts.len(), stack);
        },
        Value::Alternatives(alts) => {
            lemma_literals_of_any_exist(alts, alts.len());
            let only = linked(bindings, directory, alts[0], stack);
            lemma_single_stays(bindings, directory, alts[0], stack);
            let results = linked_each(bindings, directory, alts, stack);
            assert(results =~= seq![only]);
            lemma_one_flattened(only);
            match only {
                Value::Alternatives(inner) => {
                    lemma_literals_of_any_exist(inner, inner.len());
                    assert(inner =~= seq![inner[0]]);
                    lemma_one_distinct(inner[0]);
                },
                _ => {
                    lemma_one_distinct(only);
                },
            }
        },
        _ => {},
    }
}

/// Parts that can be one string only each can, once linked, be those strings
/// only.
proof fn lemma_singles_stay(
    bindings: Map<u64, Value>,
    directory: Seq<char>,
    parts: Seq<Value>,
    count: nat,
    stack: Set<u64>,
)
    requires
        bindings.dom().finite(),
        count <= parts.len(),
        forall|i: int| 0 <= i < count ==> single(#[trigger] parts[i]),
    ensures
        literals_of_parts(parts, count) is Some,
        literals_of_parts(parts, count)->0.len() == 1,
        literals_of_parts(linked_each(bindings, directory, parts, stack), count) is Some,
        literals_of_parts(linked_each(bindings, directory, parts, stack), count)->0.len() == 1,
        literals_of_parts(linked_each(bindings, directory, parts, stack), count)->0[0]
            == literals_of_parts(parts, count)->0[0],
    decreases parts, count,
{
    if count > 0 {
        let results = linked_each(bindings, directory, parts, stack);
        lemma_singles_stay(bindings, directory, parts, (count - 1) as nat, stack);
        lemma_single_stays(bindings, directory, parts[count - 1], stack);
        let before = literals_of_parts(parts, (count - 1) as nat)->0;
        let last = literals(parts[count - 1])->0;
        let linked_before = literals_of_parts(results, (count - 1) as nat)->0;
        let linked_last = literals(results[count - 1])->0;
        assert(crossed(before.drop_last(), last) =~= Seq::<Seq<char>>::empty());
        assert(crossed(linked_before.drop_last(), linked_last) =~= Seq::<Seq<char>>::empty());
    }
}

/// Pattern monotonicity: a value whose pattern is a literal has, once linked,
/// the same literal for its pattern.
pub proof fn lemma_link_keeps_literal(
    bindings: Map<u64, Value>,
    directory: Seq<char>,
    value: Value,
    stack: Set<u64>,
)
    requires
        bindings.dom().finite(),
        pattern_of(value) is Literal,
    ensures
        pattern_of(linked(bindings, directory, value, stack)) == pattern_of(value),
{
    lemma_single_stays(bindings, directory, value, stack);
}

/// The members of all the values are those of each of them.
proof fn lemma_flattened_contains(values: Seq<Value>, member: Value)
    ensures
        flattened(values).contains(member) <==> exists|i: int|
            0 <= i < values.len() && members(#[trigger] values[i]).contains(member),
    decreases values.len(),
{
    if values.len() > 0 {
        let before = values.drop_last();
        let last = values.last();
        lemma_flattened_contains(before, member);
        let flat = flattened(values);
        if exists|i: int| 0 <= i < values.len() && members(#[trigger] values[i]).contains(member) {
            let i = choose|i: int|
                0 <= i < values.len() && members(#[trigger] values[i]).contains(member);
            if i < before.len() {
                assert(members(before[i]).contains(member));
                let k = choose|k: int| 0 <= k < flattened(before).len() && flattened(before)[k]
                    == member;
                assert(flat[k] == member);
            } else {
                let j = choose|j: int| 0 <= j < members(last).len() && members(last)[j] == member;
                assert(flat[flattened(before).len() + j] == member);
            }
        }
    }
}

/// The order of a join does not matter to what it holds: the join of two
/// values holds the members of both, whichever comes first.
pub proof fn lemma_join_ignores_order(left: Value, right: Value)
    ensures
        distinct(flattened(seq![left, right])).to_set() == distinct(
            flattened(seq![right, left]),
        ).to_set(),
        forall|member: Value|
            distinct(flattened(seq![left, right])).contains(member) <==> members(left).contains(
                member,
            ) || members(right).contains(member),
{
    let one = seq![left, right];
    let other = seq![right, left];
    lemma_distinct(flattened(one));
    lemma_distinct(flattened(other));
    assert forall|member: Value|
        distinct(flattened(one)).contains(member) <==> members(left).contains(member) || members(
            right,
        ).contains(member) by {
        lemma_flattened_contains(one, member);
    }
    assert forall|member: Value|
        distinct(flattened(other)).contains(member) <==> members(left).contains(member) || members(
            right,
        ).contains(member) by {
        lemma_flattened_contains(other, member);
    }
    assert forall|member: Value|
        distinct(flattened(one)).to_set().contains(member) <==> distinct(
            flattened(other),
        ).to_set().contains(member) by {
        assert(distinct(flattened(other)).contains(member) <==> members(left).contains(member)
            || members(right).contains(member));
    }
}

/// Values that are held already add nothing to the distinct values.
proof fn lemma_distinct_absorbs(held: Seq<Value>, more: Seq<Value>)
    requires
        forall|i: int| 0 <= i < more.len() ==> held.contains(#[trigger] more[i]),
    ensures
        distinct(held + more) == distinct(held),
    decreases more.len(),
{
    if more.len() == 0 {
    } else {
        let all = held + more;
        let before = more.drop_last();
        assert(all.drop_last() =~= held + before);
        lemma_distinct_absorbs(held, before);
        lemma_distinct(held);
    }
}

/// Join is idempotent: the join of a value with itself is that value, for
/// every value that is no alternatives, and for alternatives between two or
/// more values of which none is there twice.
pub proof fn lemma_join_is_idempotent(value: Value)
    requires
        value matches Value::Alternatives(alts) ==> alts.len() >= 2 && alts.no_duplicates(),
    ensures
        joined(seq![value, value]) == value,
{
    let both = seq![value, value];
    let held = members(value);
    lemma_one_flattened(value);
    assert(both.drop_last() =~= seq![value]);
    lemma_distinct_absorbs(held, held);
    match value {
        Value::Alternatives(alts) => {
            lemma_distinct_unique(alts);
        },
        _ => {
            lemma_one_distinct(value);
        },
    }
}

/// The rewrites are idempotent: what a rewrite gives, no rewrite changes.
pub proof fn lemma_rewrite_is_idempotent(directory: Seq<char>, value: Value)
    ensures
        !visited(directory, visited(directory, value).0).1,
        visited(directory, visited(directory, value).0).0 == visited(directory, value).0,
        !visited(directory, value).1 ==> visited(directory, value).0 == value,
{
}

/// With the rewrites as they are, one rewrite reaches the fixed point, so
/// that the linker never gives a node up for want of steps.
pub proof fn lemma_settled_in_one_rewrite(directory: Seq<char>, value: Value)
    ensures
        settled(directory, value, REPLACE_STEPS as nat) == visited(directory, value).0,
{
    reveal_with_fuel(settled, 3);
}

} // verus!
