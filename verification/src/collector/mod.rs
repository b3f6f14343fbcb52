//! Collecting news: fetching from the configured sources and keeping what is new.

pub mod content;
pub mod sources;

use vstd::prelude::*;
use sources::Item;

verus! {

/// The items whose guid is not among `known`, in order.
pub open spec fn new_items(items: Seq<Item>, known: Seq<Seq<char>>) -> Seq<Item>
    decreases items.len(),
{
    if items.len() == 0 {
        seq![]
    } else if known.contains(items.last().guid@) {
        new_items(items.drop_last(), known)
    } else {
        new_items(items.drop_last(), known).push(items.last())
    }
}

/// Whether one of `known` is `guid`.
fn is_known(known: &Vec<String>, guid: &String) -> (b: bool)
    ensures
        b == crate::model::strings_view(known@).contains(guid@),
{
    let mut i: usize = 0;
    while i < known.len()
        invariant
            0 <= i <= known.len(),
            forall|k: int| 0 <= k < i ==> known@[k]@ != guid@,
        decreases known.len() - i,
    {
        if known[i] == *guid {
            assert(crate::model::strings_view(known@)[i as int] == guid@);
            return true;
        }
        i = i + 1;
    }
    assert forall|k: int| 0 <= k < crate::model::strings_view(known@).len() implies crate::model::strings_view(known@)[k] != guid@ by {
        assert(crate::model::strings_view(known@)[k] == known@[k]@);
    }
    false
}

/// The items not collected before: those whose guid is not among the guids already
/// stored (`known`). Only for these is the article body fetched.
pub fn select_new_items(items: Vec<Item>, known: &Vec<String>) -> (r: Vec<Item>)
    ensures
        r@ == new_items(items@, crate::model::strings_view(known@)),
{
    let ghost all = items@;
    let ghost kv = crate::model::strings_view(known@);
    let mut rest = items;
    let mut out: Vec<Item> = Vec::new();
    let ghost mut i: int = 0;
    assert(all.take(0) =~= Seq::<Item>::empty());
    assert(all.skip(0) =~= all);
    while rest.len() > 0
        invariant
            0 <= i <= all.len(),
            rest@ == all.skip(i),
            out@ == new_items(all.take(i), kv),
            kv == crate::model::strings_view(known@),
        decreases rest.len(),
    {
        assert(all.take(i + 1).drop_last() =~= all.take(i));
        assert(all.take(i + 1).last() == all[i]);
        let item = rest.remove(0);
        if !is_known(known, &item.guid) {
            out.push(item);
        }
        assert(rest@ =~= all.skip(i + 1));
        proof {
            i = i + 1;
        }
    }
    assert(all.take(i) =~= all);
    out
}

/// A new item to be stored, with its channel and the article body fetched for it.
pub struct ItemOfChannel {
    pub channel_id: i32,
    pub content: String,
    pub item: Item,
}

/// The items paired with the article bodies fetched for them; an item whose body
/// could not be fetched (`None`) is skipped.
pub open spec fn with_contents_spec(items: Seq<Item>, contents: Seq<Option<String>>) -> Seq<(Item, String)>
    decreases items.len(),
{
    if items.len() == 0 || contents.len() != items.len() {
        seq![]
    } else {
        let prev = with_contents_spec(items.drop_last(), contents.drop_last());
        match contents.last() {
            Some(c) => prev.push((items.last(), c)),
            None => prev,
        }
    }
}

/// The items of the channel `channel_id` to store, each with the body fetched for it;
/// `contents[i]` is the body fetched for `items[i]`, or `None` when fetching failed,
/// in which case the item is skipped.
pub fn with_contents(channel_id: i32, items: Vec<Item>, contents: Vec<Option<String>>) -> (r: Vec<ItemOfChannel>)
    requires
        contents.len() == items.len(),
    ensures
        r@.len() == with_contents_spec(items@, contents@).len(),
        forall|k: int| 0 <= k < r@.len() ==> (#[trigger] r@[k]).channel_id == channel_id
            && r@[k].item == with_contents_spec(items@, contents@)[k].0
            && r@[k].content == with_contents_spec(items@, contents@)[k].1,
{
    let ghost all_items = items@;
    let ghost all_contents = contents@;
    let mut items = items;
    let mut contents = contents;
    let mut out: Vec<ItemOfChannel> = Vec::new();
    let ghost mut i: int = 0;
    while items.len() > 0
        invariant
            0 <= i <= all_items.len(),
            all_items.len() == all_contents.len(),
            items@ == all_items.skip(i),
            contents@ == all_contents.skip(i),
            out@.len() == with_contents_spec(all_items.take(i), all_contents.take(i)).len(),
            forall|k: int| 0 <= k < out@.len() ==> (#[trigger] out@[k]).channel_id == channel_id
                && out@[k].item == with_contents_spec(all_items.take(i), all_contents.take(i))[k].0
                && out@[k].content == with_contents_spec(all_items.take(i), all_contents.take(i))[k].1,
        decreases items.len(),
    {
        assert(all_items.take(i + 1).drop_last() =~= all_items.take(i));
        assert(all_contents.take(i + 1).drop_last() =~= all_contents.take(i));
        assert(all_items.take(i + 1).last() == all_items[i]);
        assert(all_contents.take(i + 1).last() == all_contents[i]);
        let item = items.remove(0);
        let content = contents.remove(0);
        match content {
            Some(c) => {
                out.push(ItemOfChannel { channel_id, content: c, item });
            },
            None => {},
        }
        assert(items@ =~= all_items.skip(i + 1));
        assert(contents@ =~= all_contents.skip(i + 1));
        proof {
            i = i + 1;
        }
    }
    assert(all_items.take(i) =~= all_items);
    assert(all_contents.take(i) =~= all_contents);
    out
}

/// Of the fetched items, exactly those whose guid is not already stored are kept:
/// every kept item is one of them with an unknown guid, and every item with an unknown
/// guid is kept.
pub proof fn law_new_items(items: Seq<Item>, known: Seq<Seq<char>>)
    ensures
        forall|k: int|
            0 <= k < new_items(items, known).len() ==> !known.contains(
                (#[trigger] new_items(items, known)[k]).guid@,
            ) && items.contains(new_items(items, known)[k]),
        forall|k: int|
            0 <= k < items.len() && !known.contains((#[trigger] items[k]).guid@) ==> new_items(
                items,
                known,
            ).contains(items[k]),
    decreases items.len(),
{
    if items.len() > 0 {
        let p = items.drop_last();
        law_new_items(p, known);
        let np = new_items(p, known);
        let n = new_items(items, known);
        assert forall|k: int| 0 <= k < n.len() implies !known.contains((#[trigger] n[k]).guid@)
            && items.contains(n[k]) by {
            if k < np.len() {
                assert(n[k] == np[k]);
                let j = choose|j: int| 0 <= j < p.len() && p[j] == np[k];
                assert(items[j] == p[j]);
            } else {
                assert(n[k] == items.last());
                assert(items[items.len() - 1] == items.last());
            }
        }
        assert forall|k: int| 0 <= k < items.len() && !known.contains((#[trigger] items[k]).guid@) implies n.contains(
            items[k],
        ) by {
            if k < p.len() {
                assert(p[k] == items[k]);
                assert(np.contains(items[k]));
                let j = choose|j: int| 0 <= j < np.len() && np[j] == items[k];
                assert(n[j] == np[j]);
            } else {
                assert(n[n.len() - 1] == items.last());
            }
        }
    }
}

} // verus!
