//! Listing of news items: how many rows to ask the store for, which items a semantic
//! search selects, and in which order they are answered.

use vstd::prelude::*;
use crate::model::News;

verus! {

/// The ids of `s` at their first occurrences, in order.
pub open spec fn first_occurrences(s: Seq<i32>) -> Seq<i32>
    decreases s.len(),
{
    if s.len() == 0 {
        seq![]
    } else {
        let d = first_occurrences(s.drop_last());
        if d.contains(s.last()) {
            d
        } else {
            d.push(s.last())
        }
    }
}

/// How many ids a search selects for a given limit: at least one, since the first
/// match is taken before the limit is looked at.
pub open spec fn selection_size(limit: u8) -> int {
    if limit == 0 {
        1
    } else {
        limit as int
    }
}

/// The ids that a search with the given chunk matches (closest first) selects:
/// the distinct ids in order of first match, at most `selection_size(limit)` of them.
pub open spec fn selected_ids(matches: Seq<i32>, limit: u8) -> Seq<i32> {
    let d = first_occurrences(matches);
    if d.len() <= selection_size(limit) {
        d
    } else {
        d.take(selection_size(limit))
    }
}

/// `a` is a prefix of `b`.
pub open spec fn is_prefix(a: Seq<i32>, b: Seq<i32>) -> bool {
    a.len() <= b.len() && b.take(a.len() as int) == a
}

proof fn lemma_first_occurrences_step(s: Seq<i32>, i: int)
    requires
        0 <= i < s.len(),
    ensures
        first_occurrences(s.take(i + 1)) == (if first_occurrences(s.take(i)).contains(s[i]) {
            first_occurrences(s.take(i))
        } else {
            first_occurrences(s.take(i)).push(s[i])
        }),
{
    assert(s.take(i + 1).drop_last() =~= s.take(i));
    assert(s.take(i + 1).last() == s[i]);
}

proof fn lemma_first_occurrences_prefix(s: Seq<i32>, j: int, k: int)
    requires
        0 <= j <= k <= s.len(),
    ensures
        is_prefix(first_occurrences(s.take(j)), first_occurrences(s.take(k))),
    decreases k - j,
{
    if j == k {
        assert(first_occurrences(s.take(k)).take(first_occurrences(s.take(k)).len() as int)
            =~= first_occurrences(s.take(k)));
    } else {
        lemma_first_occurrences_prefix(s, j, k - 1);
        lemma_first_occurrences_step(s, k - 1);
        let a = first_occurrences(s.take(j));
        let b = first_occurrences(s.take(k - 1));
        let c = first_occurrences(s.take(k));
        if !b.contains(s[k - 1]) {
            assert(c.take(a.len() as int) =~= b.take(a.len() as int));
        }
    }
}

/// The first occurrences hold no id twice.
pub proof fn lemma_first_occurrences_distinct(s: Seq<i32>)
    ensures
        first_occurrences(s).no_duplicates(),
    decreases s.len(),
{
    if s.len() > 0 {
        lemma_first_occurrences_distinct(s.drop_last());
    }
}

/// An id occurs among the first occurrences exactly when it occurs in `s`.
pub proof fn lemma_first_occurrences_members(s: Seq<i32>, id: i32)
    ensures
        first_occurrences(s).contains(id) <==> s.contains(id),
    decreases s.len(),
{
    if s.len() > 0 {
        lemma_first_occurrences_members(s.drop_last(), id);
        let p = s.drop_last();
        if p.contains(id) {
            let k = choose|k: int| 0 <= k < p.len() && p[k] == id;
            assert(s[k] == id);
        }
        if s.contains(id) && !p.contains(id) {
            let k = choose|k: int| 0 <= k < s.len() && s[k] == id;
            if k < p.len() {
                assert(p[k] == id);
            }
            assert(s.last() == id);
        }
        let d = first_occurrences(p);
        if !d.contains(s.last()) {
            assert(d.push(s.last())[d.len() as int] == s.last());
            if d.contains(id) {
                let k = choose|k: int| 0 <= k < d.len() && d[k] == id;
                assert(d.push(s.last())[k] == id);
            }
            if d.push(s.last()).contains(id) && id != s.last() {
                let k = choose|k: int| 0 <= k < d.push(s.last()).len() && d.push(s.last())[k] == id;
                assert(d[k] == id);
            }
        }
    }
}

/// Whether `ids` holds `id`.
fn contains_id(ids: &Vec<i32>, id: i32) -> (b: bool)
    ensures
        b == ids@.contains(id),
{
    let mut i: usize = 0;
    while i < ids.len()
        invariant
            0 <= i <= ids.len(),
            forall|k: int| 0 <= k < i ==> ids@[k] != id,
        decreases ids.len() - i,
    {
        if ids[i] == id {
            return true;
        }
        i = i + 1;
    }
    false
}

/// The ids of the news items that a semantic search answers, from the news ids of the
/// best-matching chunks (closest first): a news item may match with several of its
/// chunks, so ids are kept at their first match only, and no more than the limit are
/// kept (the first match is always kept, even for a limit of 0).
pub fn select_ids(matches: &Vec<i32>, limit: u8) -> (ids: Vec<i32>)
    ensures
        ids@ == selected_ids(matches@, limit),
{
    let mut ids: Vec<i32> = Vec::new();
    let mut i: usize = 0;
    assert(matches@.take(0) =~= Seq::<i32>::empty());
    while i < matches.len()
        invariant
            0 <= i <= matches.len(),
            ids@ == first_occurrences(matches@.take(i as int)),
            ids@.len() < selection_size(limit),
            limit == 0 ==> i == 0,
        decreases matches.len() - i,
    {
        let id = matches[i];
        proof {
            lemma_first_occurrences_step(matches@, i as int);
        }
        if !contains_id(&ids, id) {
            ids.push(id);
        }
        i = i + 1;
        if ids.len() >= limit as usize {
            proof {
                lemma_first_occurrences_prefix(matches@, i as int, matches.len() as int);
                assert(matches@.take(matches.len() as int) =~= matches@);
            }
            return ids;
        }
    }
    assert(matches@.take(matches.len() as int) =~= matches@);
    ids
}

/// The number of chunk matches to ask the store for when searching: five per item
/// listed, since one article can match with several of its chunks.
pub fn search_fetch_limit(limit: u8) -> (n: i64)
    ensures
        n == 5 * limit,
{
    limit as i64 * 5
}

/// The number of rows to ask the store for when listing by date.
pub fn listing_fetch_limit(limit: u8) -> (n: i64)
    ensures
        n == limit,
{
    limit as i64
}

/// The items of `news` whose id is `id`, in order.
pub open spec fn with_id(news: Seq<News>, id: i32) -> Seq<News>
    decreases news.len(),
{
    if news.len() == 0 {
        seq![]
    } else if news.last().id == id {
        with_id(news.drop_last(), id).push(news.last())
    } else {
        with_id(news.drop_last(), id)
    }
}

/// The items of `news` whose id is not `id`, in order.
pub open spec fn without_id(news: Seq<News>, id: i32) -> Seq<News>
    decreases news.len(),
{
    if news.len() == 0 {
        seq![]
    } else if news.last().id == id {
        without_id(news.drop_last(), id)
    } else {
        without_id(news.drop_last(), id).push(news.last())
    }
}

/// `news` ordered by the position of each item's id in `ids`; items whose id is not
/// in `ids` come last, and items with the same position keep their order.
pub open spec fn ordered_by_ids(news: Seq<News>, ids: Seq<i32>) -> Seq<News>
    decreases ids.len(),
{
    if ids.len() == 0 {
        news
    } else {
        with_id(news, ids[0]) + ordered_by_ids(without_id(news, ids[0]), ids.drop_first())
    }
}

/// Splits `news` into the items whose id is `id` and the others, keeping the order.
fn split_by_id(news: Vec<News>, id: i32) -> (r: (Vec<News>, Vec<News>))
    ensures
        r.0@ == with_id(news@, id),
        r.1@ == without_id(news@, id),
{
    let ghost all = news@;
    let mut src = news;
    let mut taken: Vec<News> = Vec::new();
    let mut rest: Vec<News> = Vec::new();
    let ghost mut i: int = 0;
    assert(all.take(0) =~= Seq::<News>::empty());
    assert(all.skip(0) =~= all);
    while src.len() > 0
        invariant
            0 <= i <= all.len(),
            src@ == all.skip(i),
            taken@ == with_id(all.take(i), id),
            rest@ == without_id(all.take(i), id),
        decreases src.len(),
    {
        assert(all.take(i + 1).drop_last() =~= all.take(i));
        assert(all.take(i + 1).last() == all[i]);
        let n = src.remove(0);
        if n.id == id {
            taken.push(n);
        } else {
            rest.push(n);
        }
        assert(src@ =~= all.skip(i + 1));
        proof {
            i = i + 1;
        }
    }
    assert(all.take(i) =~= all);
    (taken, rest)
}

/// Orders the news items answered by a search as the search ranked their ids: by the
/// position of each item's id in `ids` (a stable sort on that position), with items
/// whose id is not in `ids` last.
pub fn order_by_ids(news: Vec<News>, ids: &Vec<i32>) -> (r: Vec<News>)
    ensures
        r@ == ordered_by_ids(news@, ids@),
{
    let mut out: Vec<News> = Vec::new();
    let mut rest = news;
    let ghost all = news@;
    let mut k: usize = 0;
    assert(ids@.skip(0) =~= ids@);
    assert(out@ + ordered_by_ids(rest@, ids@.skip(0)) =~= ordered_by_ids(all, ids@));
    while k < ids.len()
        invariant
            0 <= k <= ids.len(),
            out@ + ordered_by_ids(rest@, ids@.skip(k as int)) == ordered_by_ids(all, ids@),
        decreases ids.len() - k,
    {
        let ghost before = rest@;
        let (mut taken, remaining) = split_by_id(rest, ids[k]);
        let ghost t = taken@;
        assert(ids@.skip(k as int).drop_first() =~= ids@.skip(k + 1));
        assert(ids@.skip(k as int)[0] == ids@[k as int]);
        let ghost prev_out = out@;
        out.append(&mut taken);
        rest = remaining;
        assert(out@ =~= prev_out + t);
        assert(prev_out + ordered_by_ids(before, ids@.skip(k as int)) =~= (prev_out + t)
            + ordered_by_ids(rest@, ids@.skip(k + 1)));
        k = k + 1;
    }
    assert(ids@.skip(ids.len() as int) =~= Seq::<i32>::empty());
    let ghost prev_out = out@;
    let ghost r = rest@;
    out.append(&mut rest);
    assert(out@ =~= prev_out + r);
    out
}

/// A search selects no id twice, only ids that matched, and no more than the limit
/// allows; when few enough ids matched, it selects all of them.
pub proof fn law_selected_ids(matches: Seq<i32>, limit: u8)
    ensures
        selected_ids(matches, limit).no_duplicates(),
        forall|k: int|
            0 <= k < selected_ids(matches, limit).len() ==> matches.contains(
                #[trigger] selected_ids(matches, limit)[k],
            ),
        selected_ids(matches, limit).len() <= selection_size(limit),
        first_occurrences(matches).len() <= selection_size(limit) ==> forall|id: i32|
            matches.contains(id) ==> #[trigger] selected_ids(matches, limit).contains(id),
{
    let d = first_occurrences(matches);
    let sel = selected_ids(matches, limit);
    lemma_first_occurrences_distinct(matches);
    assert forall|k: int| 0 <= k < sel.len() implies matches.contains(#[trigger] sel[k]) by {
        assert(sel[k] == d[k]);
        assert(d.contains(d[k]));
        lemma_first_occurrences_members(matches, d[k]);
    }
    if d.len() <= selection_size(limit) {
        assert forall|id: i32| matches.contains(id) implies #[trigger] sel.contains(id) by {
            lemma_first_occurrences_members(matches, id);
        }
    } else {
        assert forall|i: int, j: int| 0 <= i < sel.len() && 0 <= j < sel.len() && i != j implies sel[i]
            != sel[j] by {
            assert(sel[i] == d[i]);
            assert(sel[j] == d[j]);
        }
    }
}

/// A search selects the distinct matched ids in order of first match, as many as the
/// limit allows: the selection is a prefix of the first occurrences of the matches, and
/// it is exactly `selection_size(limit)` long when more distinct ids than that matched,
/// and all of them otherwise.
pub proof fn law_selection_is_first_distinct_ids(matches: Seq<i32>, limit: u8)
    ensures
        is_prefix(selected_ids(matches, limit), first_occurrences(matches)),
        first_occurrences(matches).len() > selection_size(limit) ==> selected_ids(matches, limit).len()
            == selection_size(limit),
        first_occurrences(matches).len() <= selection_size(limit) ==> selected_ids(matches, limit)
            == first_occurrences(matches),
{
    let d = first_occurrences(matches);
    let sel = selected_ids(matches, limit);
    if d.len() <= selection_size(limit) {
        assert(d.take(d.len() as int) =~= d);
    } else {
        assert(d.take(sel.len() as int) =~= sel);
    }
}

/// The first occurrences of the matches hold each matched id once, in the order of the
/// id's first match: the first match comes first, and an id whose first match comes
/// before another's stands before it.
pub proof fn law_first_occurrences_order(matches: Seq<i32>, i: int, j: int)
    requires
        0 <= i < j < matches.len(),
        forall|k: int| 0 <= k < i ==> matches[k] != matches[i],
        forall|k: int| 0 <= k < j ==> matches[k] != matches[j],
    ensures
        first_occurrences(matches).contains(matches[i]),
        first_occurrences(matches).contains(matches[j]),
        first_occurrences(matches).index_of(matches[i]) < first_occurrences(matches).index_of(
            matches[j],
        ),
        first_occurrences(matches)[0] == matches[0],
{
    lemma_first_occurrences_position(matches, i);
    lemma_first_occurrences_position(matches, j);
    lemma_first_occurrences_distinct(matches);
    lemma_first_occurrences_position(matches, 0);
    lemma_first_occurrences_prefix(matches, i + 1, j);
    lemma_first_occurrences_prefix(matches, j + 1, matches.len() as int);
    assert(matches.take(matches.len() as int) =~= matches);
    let d = first_occurrences(matches);
    let di = first_occurrences(matches.take(i + 1));
    let dj = first_occurrences(matches.take(j + 1));
    lemma_first_occurrences_prefix(matches, i + 1, j + 1);
    lemma_first_occurrences_prefix(matches, i + 1, matches.len() as int);
    lemma_first_occurrences_prefix(matches, 1, matches.len() as int);
    assert(first_occurrences(matches.take(matches.len() as int)) == d);
    assert(d.take(di.len() as int) == di);
    assert(d.take(dj.len() as int) == dj);
    assert(di[di.len() - 1] == matches[i]);
    assert(dj[dj.len() - 1] == matches[j]);
    assert(d.take(di.len() as int)[di.len() - 1] == d[di.len() - 1]);
    assert(d.take(dj.len() as int)[dj.len() - 1] == d[dj.len() - 1]);
    assert(d[di.len() - 1] == matches[i]);
    assert(d[dj.len() - 1] == matches[j]);
    let d1 = first_occurrences(matches.take(1));
    assert(d1[0] == matches[0]);
    assert(d.take(d1.len() as int) == d1);
    assert(d.take(d1.len() as int)[0] == d[0]);
    d.index_of_first_ensures(matches[i]);
    d.index_of_first_ensures(matches[j]);
    assert(d.index_of(matches[i]) == di.len() - 1);
    assert(d.index_of(matches[j]) == dj.len() - 1);
    assert(dj.take(dj.len() - 1) =~= first_occurrences(matches.take(j)));
    assert(di.len() <= first_occurrences(matches.take(j)).len());
}

/// Where the first match of an id lands among the first occurrences: it is new there,
/// and it is the last of the first occurrences of the matches up to it.
proof fn lemma_first_occurrences_position(matches: Seq<i32>, i: int)
    requires
        0 <= i < matches.len(),
        forall|k: int| 0 <= k < i ==> matches[k] != matches[i],
    ensures
        !first_occurrences(matches.take(i)).contains(matches[i]),
        first_occurrences(matches.take(i + 1)) == first_occurrences(matches.take(i)).push(matches[i]),
{
    lemma_first_occurrences_members(matches.take(i), matches[i]);
    if matches.take(i).contains(matches[i]) {
        let k = choose|k: int| 0 <= k < i && matches.take(i)[k] == matches[i];
        assert(matches[k] == matches[i]);
    }
    lemma_first_occurrences_step(matches, i);
}

/// Position of `id` in `ids` (first occurrence), or the length of `ids` if absent.
pub open spec fn rank(ids: Seq<i32>, id: i32) -> nat
    decreases ids.len(),
{
    if ids.len() == 0 {
        0
    } else if ids[0] == id {
        0
    } else {
        1 + rank(ids.drop_first(), id)
    }
}

proof fn lemma_split_multiset(news: Seq<News>, id: i32)
    ensures
        with_id(news, id).to_multiset().add(without_id(news, id).to_multiset()) =~= news.to_multiset(),
    decreases news.len(),
{
    broadcast use vstd::seq_lib::group_to_multiset_ensures, vstd::multiset::group_multiset_axioms;

    if news.len() == 0 {
        assert(with_id(news, id) =~= Seq::<News>::empty());
        assert(without_id(news, id) =~= Seq::<News>::empty());
    } else {
        lemma_split_multiset(news.drop_last(), id);
        assert(news.drop_last().push(news.last()) =~= news);
    }
}

proof fn lemma_split_ids(news: Seq<News>, id: i32)
    ensures
        forall|k: int| 0 <= k < with_id(news, id).len() ==> (#[trigger] with_id(news, id)[k]).id == id,
        forall|k: int|
            0 <= k < without_id(news, id).len() ==> (#[trigger] without_id(news, id)[k]).id != id,
    decreases news.len(),
{
    if news.len() > 0 {
        lemma_split_ids(news.drop_last(), id);
        let a = with_id(news.drop_last(), id);
        let b = without_id(news.drop_last(), id);
        assert forall|k: int| 0 <= k < a.push(news.last()).len() && k < a.len() implies #[trigger] a.push(
            news.last(),
        )[k] == a[k] by {}
        assert forall|k: int| 0 <= k < b.push(news.last()).len() && k < b.len() implies #[trigger] b.push(
            news.last(),
        )[k] == b[k] by {}
    }
}

/// Ordering the answered items loses, adds and duplicates none: the result is a
/// permutation of the items.
pub proof fn law_order_by_ids_permutes(news: Seq<News>, ids: Seq<i32>)
    ensures
        ordered_by_ids(news, ids).to_multiset() == news.to_multiset(),
    decreases ids.len(),
{
    broadcast use vstd::multiset::group_multiset_axioms;

    if ids.len() > 0 {
        let rest = without_id(news, ids[0]);
        law_order_by_ids_permutes(rest, ids.drop_first());
        lemma_split_multiset(news, ids[0]);
        vstd::seq_lib::lemma_multiset_commutative(
            with_id(news, ids[0]),
            ordered_by_ids(rest, ids.drop_first()),
        );
    }
}

/// The answered items come in the order of their ids' positions in `ids`, items whose
/// id is not in `ids` last.
pub proof fn law_order_by_ids_sorted(news: Seq<News>, ids: Seq<i32>)
    ensures
        forall|i: int, j: int|
            0 <= i < j < ordered_by_ids(news, ids).len() ==> rank(
                ids,
                (#[trigger] ordered_by_ids(news, ids)[i]).id,
            ) <= rank(ids, (#[trigger] ordered_by_ids(news, ids)[j]).id),
    decreases ids.len(),
{
    if ids.len() == 0 {
        assert forall|i: int, j: int| 0 <= i < j < news.len() implies rank(ids, (#[trigger] news[i]).id)
            <= rank(ids, (#[trigger] news[j]).id) by {}
    } else {
        let id0 = ids[0];
        let tail = ids.drop_first();
        let a = with_id(news, id0);
        let rest = without_id(news, id0);
        let b = ordered_by_ids(rest, tail);
        let r = ordered_by_ids(news, ids);
        law_order_by_ids_sorted(rest, tail);
        law_order_by_ids_permutes(rest, tail);
        lemma_split_ids(news, id0);
        assert(r =~= a + b);
        assert forall|k: int| 0 <= k < b.len() implies rank(ids, (#[trigger] b[k]).id) == 1 + rank(
            tail,
            b[k].id,
        ) by {
            broadcast use vstd::seq_lib::group_to_multiset_ensures;

            assert(b.contains(b[k]));
            assert(b.to_multiset().count(b[k]) > 0);
            assert(rest.contains(b[k]));
            let j = choose|j: int| 0 <= j < rest.len() && rest[j] == b[k];
            assert(rest[j].id != id0);
        }
        assert forall|i: int, j: int| 0 <= i < j < r.len() implies rank(ids, (#[trigger] r[i]).id) <= rank(
            ids,
            (#[trigger] r[j]).id,
        ) by {
            if i < a.len() {
                assert(r[i] == a[i]);
                assert(a[i].id == id0);
            } else {
                assert(r[i] == b[i - a.len()]);
                assert(r[j] == b[j - a.len()]);
                assert(rank(tail, b[i - a.len()].id) <= rank(tail, b[j - a.len()].id));
            }
        }
    }
}

} // verus!
