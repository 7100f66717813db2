//! Ephyr re-streaming server: its state and the decisions taken on it.

use vstd::prelude::*;

use itertools::Itertools;

use crate::seq_util::{first_index, lemma_first_index};

pub mod api_error;
pub mod audio_redirect;
pub mod broadcaster;
pub mod client_api;
pub mod client_stat;
pub mod console_logger;
pub mod dvr;
pub mod dashboard;
pub mod ffmpeg;
pub mod ffmpeg_args;
pub mod ffmpeg_pool;
pub mod ffmpeg_run;
pub mod ffprobe;
pub mod file_manager;
pub mod gdrive_client;
pub mod gdrive_playlist;
pub mod google_drive_api;
pub mod gst_pipeline;
pub mod gstd_api;
pub mod gstd_client;
pub mod import_spec;
pub mod input_apply;
pub mod inputs;
pub mod output_edits;
pub mod outputs;
pub mod proc;
pub mod restream_edits;
pub mod restreams;
pub mod seq_util;
pub mod srs_client;
pub mod settings;
pub mod spec;
pub mod state;
pub mod telemetry;
pub mod text;
pub mod url_util;

verus! {

/// Indicates whether the given `bool` is `false`.
pub fn is_false(val: &bool) -> (res: bool)
    ensures
        res == !*val,
{
    !*val
}

/// Text of a panic payload: the payload itself where it is a string (as
/// `app/` finds by downcasting it), a placeholder otherwise.
pub fn display_panic<'a>(payload: Option<&'a str>) -> (s: &'a str)
    ensures
        match payload {
            Some(t) => s@ == t@,
            None => s@ == "Box<Any>"@,
        },
{
    match payload {
        Some(t) => t,
        None => "Box<Any>",
    }
}

/// Whether an identifier is `id`.
pub open spec fn is_id(id: u128) -> spec_fn(u128) -> bool {
    |x: u128| x == id
}

/// Rank of `id` among `ids`: the index of its first occurrence, or
/// `usize::MAX` where it does not occur.
pub open spec fn rank_of(ids: Seq<u128>, id: u128) -> int {
    match first_index(ids, is_id(id)) {
        Some(i) => i,
        None => usize::MAX as int,
    }
}

/// Ranks of the identifiers `keys` among `ids`.
pub open spec fn ranks_of(keys: Seq<u128>, ids: Seq<u128>) -> Seq<int> {
    keys.map_values(|k: u128| rank_of(ids, k))
}

/// `order` lists indices of `ranks`, each below its length, by ascending
/// rank, those of equal rank by ascending index; no index occurs twice.
pub open spec fn is_reordering(ranks: Seq<int>, order: Seq<int>) -> bool {
    &&& order.len() == ranks.len()
    &&& forall|i: int| 0 <= i < order.len() ==> 0 <= #[trigger] order[i] < ranks.len()
    &&& forall|i: int, j: int|
        0 <= i < j < order.len() ==> ranks[#[trigger] order[i]] < ranks[#[trigger] order[j]] || (
        ranks[order[i]] == ranks[order[j]] && order[i] < order[j])
}

/// Sorts pairs of a rank and an index by their rank with
/// `Itertools::sorted_by_key`, which sorts stably: the pairs are a
/// permutation of the input, in ascending rank, and those of equal rank stay
/// in their order, which is that of their indices where each pair holds its
/// own position.
#[verifier::external_body]
fn sort_by_rank(keys: Vec<(usize, usize)>) -> (r: Vec<(usize, usize)>)
    requires
        forall|k: int| 0 <= k < keys.len() ==> (#[trigger] keys@[k]).1 == k,
    ensures
        r@.to_multiset() == keys@.to_multiset(),
        forall|i: int, j: int|
            0 <= i < j < r.len() ==> (#[trigger] r@[i]).0 < (#[trigger] r@[j]).0 || (r@[i].0 == r@[j].0
                && r@[i].1 < r@[j].1),
{
    keys.into_iter().sorted_by_key(|p| p.0).collect()
}

/// Position of the first occurrence of `id` in `ids`, or `usize::MAX`.
fn position_of(ids: &[u128], id: u128) -> (p: usize)
    ensures
        p == rank_of(ids@, id),
{
    let mut i: usize = 0;
    while i < ids.len()
        invariant
            i <= ids@.len(),
            forall|j: int| 0 <= j < i ==> ids@[j] != id,
        decreases ids.len() - i,
    {
        if ids[i] == id {
            proof {
                lemma_first_index(ids@, is_id(id), i as int);
            }
            return i;
        }
        i = i + 1;
    }
    proof {
        lemma_first_index(ids@, is_id(id), i as int);
    }
    usize::MAX
}

/// Orders `items` as their identifiers (given by `get_id`) are ordered in
/// `ids`; items whose identifier is not among `ids` come last, and items of
/// equal rank keep their order, so that no item is lost.
pub fn reorder_items<T: Clone, F: Fn(&T) -> u128>(items: &[T], ids: &[u128], get_id: F) -> (r: Vec<T>)
    requires
        forall|k: int| 0 <= k < items@.len() ==> get_id.requires((&items@[k],)),
    ensures
        exists|keys: Seq<u128>, order: Seq<int>|
            {
                &&& keys.len() == items@.len()
                &&& forall|k: int| 0 <= k < keys.len() ==> get_id.ensures((&items@[k],), #[trigger] keys[k])
                &&& is_reordering(ranks_of(keys, ids@), order)
                &&& r@.len() == order.len()
                &&& forall|i: int| 0 <= i < r@.len() ==> cloned(items@[#[trigger] order[i]], r@[i])
            },
{
    broadcast use vstd::seq_lib::group_to_multiset_ensures;

    let n = items.len();
    let mut keys: Vec<(usize, usize)> = Vec::new();
    let ghost mut ks: Seq<u128> = Seq::empty();
    let mut k: usize = 0;
    while k < n
        invariant
            k <= n,
            n == items@.len(),
            forall|j: int| 0 <= j < items@.len() ==> get_id.requires((&items@[j],)),
            keys@.len() == k,
            ks.len() == k,
            forall|j: int| 0 <= j < k ==> get_id.ensures((&items@[j],), #[trigger] ks[j]),
            forall|j: int| 0 <= j < k ==> (#[trigger] keys@[j]).1 == j && keys@[j].0 == rank_of(ids@, ks[j]),
        decreases n - k,
    {
        let id = get_id(&items[k]);
        let pos = position_of(ids, id);
        keys.push((pos, k));
        proof {
            ks = ks.push(id);
        }
        k = k + 1;
    }
    let ghost before = keys@;
    let sorted = sort_by_rank(keys);
    let ghost ranks = ranks_of(ks, ids@);
    let ghost order = sorted@.map_values(|p: (usize, usize)| p.1 as int);
    assert(sorted@.len() == n) by {
        assert(sorted@.to_multiset().len() == before.to_multiset().len());
    }
    assert forall|i: int| 0 <= i < sorted@.len() implies {
        let p = #[trigger] sorted@[i];
        &&& 0 <= p.1 < n
        &&& p.0 == ranks[p.1 as int]
    } by {
        let p = sorted@[i];
        assert(sorted@.contains(p));
        assert(sorted@.to_multiset().count(p) > 0);
        assert(before.to_multiset().count(p) > 0);
        assert(before.contains(p));
        let j = choose|j: int| 0 <= j < before.len() && before[j] == p;
        assert(before[j].1 == j);
    }
    let mut r: Vec<T> = Vec::new();
    let mut i: usize = 0;
    while i < n
        invariant
            i <= n,
            n == items@.len(),
            sorted@.len() == n,
            order == sorted@.map_values(|p: (usize, usize)| p.1 as int),
            forall|q: int| 0 <= q < n ==> 0 <= (#[trigger] sorted@[q]).1 < n,
            r@.len() == i,
            forall|q: int| 0 <= q < i ==> cloned(items@[#[trigger] order[q]], r@[q]),
        decreases n - i,
    {
        let idx = sorted[i].1;
        let c = items[idx].clone();
        r.push(c);
        i = i + 1;
    }
    assert(is_reordering(ranks, order)) by {
        assert forall|a: int, b: int| 0 <= a < b < order.len() implies ranks[#[trigger] order[a]] < ranks[#[trigger] order[b]] || (
        ranks[order[a]] == ranks[order[b]] && order[a] < order[b]) by {
            let pa = sorted@[a];
            let pb = sorted@[b];
        }
    }
    r
}

/// Ranks `ranks` put in the order `order`.
pub open spec fn ranks_in_order(ranks: Seq<int>, order: Seq<int>) -> Seq<int> {
    order.map_values(|i: int| ranks[i])
}

/// Reordering ranks that a reordering has put in order leaves them in
/// place: the only reordering of ordered ranks is the identity.
pub proof fn lemma_reordering_ordered(ranks: Seq<int>, order1: Seq<int>, order2: Seq<int>)
    requires
        is_reordering(ranks, order1),
        is_reordering(ranks_in_order(ranks, order1), order2),
    ensures
        forall|i: int| 0 <= i < order2.len() ==> #[trigger] order2[i] == i,
{
    let r2 = ranks_in_order(ranks, order1);
    let n = order2.len() as int;
    assert forall|a: int, b: int| 0 <= a < b < n implies order2[a] < order2[b] by {
        assert(r2[order2[a]] < r2[order2[b]] || (r2[order2[a]] == r2[order2[b]] && order2[a] < order2[b]));
        if order2[b] < order2[a] {
            let x = order2[b];
            let y = order2[a];
            assert(r2[x] == ranks[order1[x]]);
            assert(r2[y] == ranks[order1[y]]);
            assert(ranks[order1[x]] < ranks[order1[y]] || (ranks[order1[x]] == ranks[order1[y]]
                && order1[x] < order1[y]));
        }
    }
    assert forall|i: int| 0 <= i < n implies order2[i] >= i by {
        lemma_increasing_at_least(order2, i);
    }
    assert forall|i: int| 0 <= i < n implies order2[i] <= i by {
        lemma_increasing_at_most(order2, n, i);
    }
}

/// In a strictly increasing sequence of naturals, the element at `i` is at
/// least `i`.
proof fn lemma_increasing_at_least(s: Seq<int>, i: int)
    requires
        0 <= i < s.len(),
        forall|a: int| 0 <= a < s.len() ==> 0 <= #[trigger] s[a],
        forall|a: int, b: int| 0 <= a < b < s.len() ==> #[trigger] s[a] < #[trigger] s[b],
    ensures
        s[i] >= i,
    decreases i,
{
    if i > 0 {
        lemma_increasing_at_least(s, i - 1);
        assert(s[i - 1] < s[i]);
    }
}

/// In a strictly increasing sequence of numbers below `n` of length `n`,
/// the element at `i` is at most `i`.
proof fn lemma_increasing_at_most(s: Seq<int>, n: int, i: int)
    requires
        s.len() == n,
        0 <= i < n,
        forall|a: int| 0 <= a < n ==> #[trigger] s[a] < n,
        forall|a: int, b: int| 0 <= a < b < n ==> #[trigger] s[a] < #[trigger] s[b],
    ensures
        s[i] <= i,
    decreases n - i,
{
    if i < n - 1 {
        lemma_increasing_at_most(s, n, i + 1);
        assert(s[i] < s[i + 1]);
    }
}

/// Reordering items a second time, by the same identifiers, gives them
/// back as the first time ordered them, where `get_id` gives an item and
/// its clones a single identifier: each item of the second result is a
/// clone of the item at its place in the first.
pub proof fn lemma_reorder_items_again<T: Clone, F: Fn(&T) -> u128>(
    items: Seq<T>,
    ids: Seq<u128>,
    get_id: F,
    r1: Seq<T>,
    r2: Seq<T>,
)
    requires
        forall|x: T, y: T, k1: u128, k2: u128|
            cloned(x, y) && #[trigger] get_id.ensures((&x,), k1) && #[trigger] get_id.ensures((&y,), k2) ==> k1
                == k2,
        forall|x: T, k1: u128, k2: u128|
            #[trigger] get_id.ensures((&x,), k1) && #[trigger] get_id.ensures((&x,), k2) ==> k1 == k2,
        exists|keys: Seq<u128>, order: Seq<int>|
            {
                &&& keys.len() == items.len()
                &&& forall|k: int| 0 <= k < keys.len() ==> get_id.ensures((&items[k],), #[trigger] keys[k])
                &&& is_reordering(ranks_of(keys, ids), order)
                &&& r1.len() == order.len()
                &&& forall|i: int| 0 <= i < r1.len() ==> cloned(items[#[trigger] order[i]], r1[i])
            },
        exists|keys: Seq<u128>, order: Seq<int>|
            {
                &&& keys.len() == r1.len()
                &&& forall|k: int| 0 <= k < keys.len() ==> get_id.ensures((&r1[k],), #[trigger] keys[k])
                &&& is_reordering(ranks_of(keys, ids), order)
                &&& r2.len() == order.len()
                &&& forall|i: int| 0 <= i < r2.len() ==> cloned(r1[#[trigger] order[i]], r2[i])
            },
    ensures
        r2.len() == r1.len(),
        forall|i: int| 0 <= i < r2.len() ==> cloned(r1[i], #[trigger] r2[i]),
{
    let (keys1, order1) = choose|keys: Seq<u128>, order: Seq<int>|
        {
            &&& keys.len() == items.len()
            &&& forall|k: int| 0 <= k < keys.len() ==> get_id.ensures((&items[k],), #[trigger] keys[k])
            &&& is_reordering(ranks_of(keys, ids), order)
            &&& r1.len() == order.len()
            &&& forall|i: int| 0 <= i < r1.len() ==> cloned(items[#[trigger] order[i]], r1[i])
        };
    let (keys2, order2) = choose|keys: Seq<u128>, order: Seq<int>|
        {
            &&& keys.len() == r1.len()
            &&& forall|k: int| 0 <= k < keys.len() ==> get_id.ensures((&r1[k],), #[trigger] keys[k])
            &&& is_reordering(ranks_of(keys, ids), order)
            &&& r2.len() == order.len()
            &&& forall|i: int| 0 <= i < r2.len() ==> cloned(r1[#[trigger] order[i]], r2[i])
        };
    let ranks1 = ranks_of(keys1, ids);
    assert forall|i: int| 0 <= i < keys2.len() implies keys2[i] == keys1[order1[i]] by {
        assert(cloned(items[order1[i]], r1[i]));
        assert(get_id.ensures((&items[order1[i]],), keys1[order1[i]]));
        assert(get_id.ensures((&r1[i],), keys2[i]));
    }
    assert(ranks_of(keys2, ids) =~= ranks_in_order(ranks1, order1));
    lemma_reordering_ordered(ranks1, order1, order2);
    assert forall|i: int| 0 <= i < r2.len() implies cloned(r1[i], #[trigger] r2[i]) by {
        assert(order2[i] == i);
    }
}

} // verus!
