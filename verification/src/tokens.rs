//! How large a conversation is, and what is kept of it when it is compacted.
use vstd::prelude::*;
#[allow(unused_imports)]
use vstd::utf8::encode_utf8;

use crate::json::{Json, JsonObject};
#[allow(unused_imports)]
use crate::json::{entries_view, list_view, text_member, JsonView, ObjectView};
use crate::text::{same, utf8_bytes};

verus! {

/// The number, or the greatest `u128` where it is greater.
pub open spec fn capped(n: nat) -> u128 {
    if n > u128::MAX {
        u128::MAX
    } else {
        n as u128
    }
}

/// Whether the text under a name counts nothing.
pub open spec fn is_weightless(key: Seq<char>) -> bool {
    key == "encrypted_content"@ || key == "image_url"@ || key == "id"@
}

/// About how many tokens a value is: one for each four bytes of a text, begun or
/// full, and one for anything else that is no list or object.
pub open spec fn value_tokens(value: JsonView, weightless: bool) -> nat
    decreases value, 0nat,
{
    match value {
        JsonView::Text(text) => if weightless {
            0
        } else if encode_utf8(text).len() == 0 {
            1
        } else {
            (encode_utf8(text).len() + 3) as nat / 4
        },
        JsonView::List(list) => list_tokens(list, list.len(), weightless),
        JsonView::Object(object) => object_tokens(object, object.len()),
        _ => 1,
    }
}

/// About how many tokens the first `n` values of a list are.
pub open spec fn list_tokens(list: Seq<JsonView>, n: nat, weightless: bool) -> nat
    decreases list, n,
{
    if n == 0 || n > list.len() {
        0
    } else {
        list_tokens(list, (n - 1) as nat, weightless) + value_tokens(list[n - 1], weightless)
    }
}

/// About how many tokens the first `n` members of an object are.
pub open spec fn object_tokens(object: ObjectView, n: nat) -> nat
    decreases object, n,
{
    if n == 0 || n > object.len() {
        0
    } else {
        object_tokens(object, (n - 1) as nat) + value_tokens(
            object[n - 1].1,
            is_weightless(object[n - 1].0),
        )
    }
}

/// About how many tokens an item of a conversation is.
pub open spec fn item_tokens(item: ObjectView) -> nat {
    object_tokens(item, item.len())
}

/// About how many tokens a conversation is.
pub open spec fn input_tokens(items: Seq<ObjectView>) -> nat
    decreases items.len(),
{
    if items.len() == 0 {
        0
    } else {
        input_tokens(items.drop_last()) + item_tokens(items.last())
    }
}

fn sum(a: u128, b: u128) -> (out: u128)
    ensures
        out == capped((a + b) as nat),
{
    if a <= u128::MAX - b {
        a + b
    } else {
        u128::MAX
    }
}

fn text_tokens(text: &str) -> (tokens: u128)
    ensures
        tokens == value_tokens(JsonView::Text(text@), false),
{
    let length: usize = utf8_bytes(text).len();
    if length == 0 {
        1
    } else {
        (length as u128 + 3) / 4
    }
}

fn weightless_name(key: &str) -> (yes: bool)
    ensures
        yes == is_weightless(key@),
{
    same(key, "encrypted_content") || same(key, "image_url") || same(key, "id")
}

fn estimate_value_tokens(value: &Json, weightless: bool) -> (tokens: u128)
    ensures
        tokens == capped(value_tokens(value@, weightless)),
    decreases value,
{
    match value {
        Json::Text(text) => if weightless {
            0
        } else {
            text_tokens(text.as_str())
        },
        Json::List(list) => estimate_list_tokens(list, weightless),
        Json::Object(object) => estimate_object_tokens(&object.entries),
        _ => 1,
    }
}

fn estimate_list_tokens(list: &Vec<Json>, weightless: bool) -> (tokens: u128)
    ensures
        tokens == capped(list_tokens(list_view(list@), list@.len(), weightless)),
    decreases list@,
{
    let mut tokens: u128 = 0;
    for i in 0..list.len()
        invariant
            tokens == capped(list_tokens(list_view(list@), i as nat, weightless)),
    {
        let more = estimate_value_tokens(&list[i], weightless);
        assert(list_view(list@)[i as int] == list@[i as int]@);
        tokens = sum(tokens, more);
    }
    tokens
}

fn estimate_object_tokens(entries: &Vec<(String, Json)>) -> (tokens: u128)
    ensures
        tokens == capped(object_tokens(entries_view(entries@), entries@.len())),
    decreases entries@,
{
    let mut tokens: u128 = 0;
    for i in 0..entries.len()
        invariant
            tokens == capped(object_tokens(entries_view(entries@), i as nat)),
    {
        let weightless = weightless_name(entries[i].0.as_str());
        let more = estimate_value_tokens(&entries[i].1, weightless);
        assert(entries_view(entries@)[i as int] == (
            entries@[i as int].0@,
            entries@[i as int].1@,
        ));
        tokens = sum(tokens, more);
    }
    tokens
}

fn estimate_item_tokens(item: &JsonObject) -> (tokens: u128)
    ensures
        tokens == capped(item_tokens(item@)),
{
    estimate_object_tokens(&item.entries)
}

/// About how many tokens the items from a place on are.
pub fn estimate_input_tokens(items: &Vec<JsonObject>, from: usize) -> (tokens: u128)
    requires
        from <= items@.len(),
    ensures
        tokens == capped(input_tokens(items.deep_view().skip(from as int))),
{
    let ghost all = items.deep_view().skip(from as int);
    let mut tokens: u128 = 0;
    assert(all.take(0) =~= Seq::empty());
    for i in from..items.len()
        invariant
            from <= items@.len(),
            all == items.deep_view().skip(from as int),
            tokens == capped(input_tokens(all.take(i - from))),
    {
        let ghost so_far = all.take(i - from + 1);
        assert(so_far.drop_last() =~= all.take(i - from));
        assert(so_far.last() == items@[i as int]@);
        tokens = sum(tokens, estimate_item_tokens(&items[i]));
    }
    assert(all.take(all.len() as int) =~= all);
    tokens
}

/// Whether an item is kept when a conversation is compacted: a message of the
/// user, the developer or the system.
pub open spec fn is_retainable(item: ObjectView) -> bool {
    &&& text_member(item, "type"@) == Some("message"@)
    &&& {
        ||| text_member(item, "role"@) == Some("user"@)
        ||| text_member(item, "role"@) == Some("developer"@)
        ||| text_member(item, "role"@) == Some("system"@)
    }
}

/// What an item costs of the budget.
pub open spec fn retention_cost(item: ObjectView) -> nat {
    if item_tokens(item) == 0 {
        1
    } else {
        item_tokens(item)
    }
}

/// What is kept of a conversation: from the newest back, the messages that are
/// kept at all, up to the first that no longer fits into the budget.
pub open spec fn retained(items: Seq<ObjectView>, budget: nat) -> Seq<ObjectView>
    decreases items.len(),
{
    if items.len() == 0 {
        Seq::empty()
    } else {
        let item = items.last();
        if !is_retainable(item) {
            retained(items.drop_last(), budget)
        } else if retention_cost(item) > budget {
            Seq::empty()
        } else if retention_cost(item) == budget {
            seq![item]
        } else {
            retained(items.drop_last(), (budget - retention_cost(item)) as nat).push(item)
        }
    }
}

/// What some items cost of the budget.
pub open spec fn retention_costs(items: Seq<ObjectView>) -> nat
    decreases items.len(),
{
    if items.len() == 0 {
        0
    } else {
        retention_costs(items.drop_last()) + retention_cost(items.last())
    }
}

/// What is kept fits into the budget, and every item of it is a message that is
/// kept at all and stood in the conversation.
pub proof fn retained_messages_fit_the_budget(items: Seq<ObjectView>, budget: nat)
    ensures
        retention_costs(retained(items, budget)) <= budget,
        forall|i: int|
            0 <= i < retained(items, budget).len() ==> {
                let item = #[trigger] retained(items, budget)[i];
                is_retainable(item) && items.contains(item)
            },
    decreases items.len(),
{
    if items.len() > 0 {
        let item = items.last();
        let earlier = items.drop_last();
        let out = retained(items, budget);
        assert(items[items.len() - 1] == item);
        assert forall|x: ObjectView| earlier.contains(x) implies #[trigger] items.contains(x) by {
            let k = choose|k: int| 0 <= k < earlier.len() && earlier[k] == x;
            assert(items[k] == x);
        }
        if !is_retainable(item) {
            retained_messages_fit_the_budget(earlier, budget);
        } else if retention_cost(item) == budget {
            assert(out.drop_last() =~= Seq::empty());
            reveal_with_fuel(retention_costs, 2);
        } else if retention_cost(item) < budget {
            let rest = retained(earlier, (budget - retention_cost(item)) as nat);
            retained_messages_fit_the_budget(earlier, (budget - retention_cost(item)) as nat);
            assert(out.drop_last() =~= rest);
            assert forall|i: int| 0 <= i < out.len() implies is_retainable(#[trigger] out[i])
                && items.contains(out[i]) by {
                if i < rest.len() {
                    assert(out[i] == rest[i]);
                }
            }
        }
    }
}

/// What is kept is the newest of the messages: nothing is kept that stands before
/// a message that was left out.
pub proof fn retained_messages_are_the_newest(items: Seq<ObjectView>, budget: nat)
    ensures
        exists|from: int|
            0 <= from <= items.len() && retained(items, budget) == #[trigger] retainable_from(
                items,
                from,
            ),
    decreases items.len(),
{
    if items.len() == 0 {
        assert(retained(items, budget) =~= retainable_from(items, 0));
    } else {
        let item = items.last();
        let earlier = items.drop_last();
        let n = items.len() as int;
        assert(items.skip(n) =~= Seq::empty());
        if !is_retainable(item) {
            retained_messages_are_the_newest(earlier, budget);
            let from = choose|from: int|
                0 <= from <= earlier.len() && retained(earlier, budget)
                    == #[trigger] retainable_from(earlier, from);
            assert(items.skip(from).drop_last() =~= earlier.skip(from));
            assert(items.skip(from).last() == item);
            assert(retained(items, budget) == retainable_from(items, from));
        } else if retention_cost(item) > budget {
            assert(retained(items, budget) =~= retainable_from(items, n));
        } else if retention_cost(item) == budget {
            assert(items.skip(n - 1).drop_last() =~= Seq::empty());
            assert(items.skip(n - 1).last() == item);
            reveal_with_fuel(retainable, 2);
            assert(retained(items, budget) =~= retainable_from(items, n - 1));
        } else {
            let rest = (budget - retention_cost(item)) as nat;
            retained_messages_are_the_newest(earlier, rest);
            let from = choose|from: int|
                0 <= from <= earlier.len() && retained(earlier, rest) == #[trigger] retainable_from(
                    earlier,
                    from,
                );
            assert(items.skip(from).drop_last() =~= earlier.skip(from));
            assert(items.skip(from).last() == item);
            assert(retained(items, budget) == retainable_from(items, from));
        }
    }
}

/// The messages among some items that are kept at all.
pub open spec fn retainable(items: Seq<ObjectView>) -> Seq<ObjectView>
    decreases items.len(),
{
    if items.len() == 0 {
        Seq::empty()
    } else if is_retainable(items.last()) {
        retainable(items.drop_last()).push(items.last())
    } else {
        retainable(items.drop_last())
    }
}

/// The messages from a place on that are kept at all.
pub open spec fn retainable_from(items: Seq<ObjectView>, from: int) -> Seq<ObjectView> {
    retainable(items.skip(from))
}

fn keeps(item: &JsonObject) -> (yes: bool)
    ensures
        yes == is_retainable(item@),
{
    item.has_text("type", "message") && (item.has_text("role", "user") || item.has_text(
        "role",
        "developer",
    ) || item.has_text("role", "system"))
}

proof fn lemma_before_the_rest(
    before: Seq<ObjectView>,
    item: ObjectView,
    kept: Seq<ObjectView>,
)
    ensures
        before.push(item) + kept.reverse() == before + kept.push(item).reverse(),
{
    assert(before.push(item) + kept.reverse() =~= before + kept.push(item).reverse());
}

/// What is kept of a conversation when it is compacted.
pub fn retain_compaction_messages(items: &Vec<JsonObject>, budget: u64) -> (out: Vec<JsonObject>)
    ensures
        out.deep_view() == retained(items.deep_view(), budget as nat),
{
    let ghost all = items.deep_view();
    let ghost goal = retained(all, budget as nat);
    let mut remaining: u64 = budget;
    let mut kept: Vec<JsonObject> = Vec::new();
    let mut left: usize = items.len();
    let mut done = false;
    assert(all.take(all.len() as int) =~= all);
    assert(kept.deep_view().reverse() =~= Seq::empty());
    assert(goal =~= goal + kept.deep_view().reverse());
    while left > 0 && !done
        invariant
            left <= items@.len(),
            all == items.deep_view(),
            done ==> goal == kept.deep_view().reverse(),
            !done ==> goal == retained(all.take(left as int), remaining as nat)
                + kept.deep_view().reverse(),
        decreases left,
    {
        let ghost here = all.take(left as int);
        left -= 1;
        assert(here.drop_last() =~= all.take(left as int));
        assert(here.last() == items@[left as int]@);
        let item = &items[left];
        if keeps(item) {
            let tokens = estimate_item_tokens(item);
            let cost: u128 = if tokens == 0 {
                1
            } else {
                tokens
            };
            let ghost so_far = kept.deep_view();
            if cost > remaining as u128 {
                assert(goal =~= so_far.reverse());
                done = true;
            } else {
                remaining = remaining - cost as u64;
                kept.push(item.clone());
                assert(kept.deep_view() =~= so_far.push(item@));
                if remaining == 0 {
                    assert(seq![item@] =~= Seq::<ObjectView>::empty().push(item@));
                    proof {
                        lemma_before_the_rest(Seq::empty(), item@, so_far);
                    }
                    assert(goal =~= kept.deep_view().reverse());
                    done = true;
                } else {
                    proof {
                        lemma_before_the_rest(
                            retained(all.take(left as int), remaining as nat),
                            item@,
                            so_far,
                        );
                    }
                }
            }
        }
    }
    if !done {
        assert(all.take(0) =~= Seq::empty());
        assert(goal =~= kept.deep_view().reverse());
    }
    let mut out: Vec<JsonObject> = Vec::new();
    let ghost backwards = kept.deep_view();
    let mut at: usize = kept.len();
    while at > 0
        invariant
            at <= kept@.len(),
            backwards == kept.deep_view(),
            out@.len() == kept@.len() - at,
            forall|k: int|
                0 <= k < out@.len() ==> (#[trigger] out@[k])@ == backwards[kept@.len() - 1 - k],
        decreases at,
    {
        at -= 1;
        out.push(kept[at].clone());
    }
    assert(out.deep_view() =~= backwards.reverse());
    out
}

} // verus!
