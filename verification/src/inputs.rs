//! Re-ordering the backup inputs of a re-stream, and labelling the
//! endpoints of its inputs.

use vstd::prelude::*;

use crate::api_error::ApiError;
use crate::client_api::{find_restream, is_restream, MutationsRoot};
use crate::ffmpeg::{find_endpoint, is_endpoint};
use crate::restreams::{
    find_failover, input_place, input_switched, input_switched_in, is_failover, locate_input, InputPlace,
};
use crate::seq_util::{first_index, lemma_first_index, lemma_first_index_same, lemma_first_index_some};
use crate::state::{only_restreams_changed, FailoverInput, Id, Input, InputEndpoint, InputSrc, Restream, State};

verus! {

/// Direction to move a backup input in: up is towards the first, the
/// primary, one.
#[derive(Clone, Copy, Debug, PartialEq, Eq, Structural)]
pub enum Direction {
    /// Towards the first backup input.
    Up,
    /// Towards the last backup input.
    Down,
}

/// Position the backup input at `k` among `n` moves to in the direction
/// `d`, if it can move.
pub open spec fn moved_to(k: int, n: int, d: Direction) -> Option<int> {
    match d {
        Direction::Up => if k > 0 {
            Some(k - 1)
        } else {
            None
        },
        Direction::Down => if k + 1 < n {
            Some(k + 1)
        } else {
            None
        },
    }
}

/// `v` with its elements at `a` and `b` swapped.
pub open spec fn swapped<A>(v: Seq<A>, a: int, b: int) -> Seq<A> {
    v.update(a, v[b]).update(b, v[a])
}

/// `new` is `r` with its backup inputs replaced by `w`, all else unchanged.
pub open spec fn backups_replaced(r: Restream, new: Restream, w: Seq<FailoverInput>) -> bool {
    &&& new == Restream { input: Input { src: new.input.src, ..r.input }, ..r }
    &&& new.input.src matches Some(InputSrc::Failover(x)) && x@ == w
}

/// `new` is `old` with the re-stream at `i` replaced, all others unchanged.
pub open spec fn only_changed_at(old: Seq<Restream>, new: Seq<Restream>, i: int) -> bool {
    &&& new.len() == old.len()
    &&& forall|j: int| 0 <= j < old.len() && j != i ==> new[j] == old[j]
}

/// What moving the backup input `id` of the re-stream `rid` in the
/// direction `d` does: where it can move, it swaps places with its
/// neighbour and the answer is `true`; where it is at the end it moves
/// towards, nothing changes and the answer is `false`; where the re-stream
/// or the backup input does not exist, nothing changes and there is no
/// answer.
pub open spec fn input_moved_in(
    old: Seq<Restream>,
    new: Seq<Restream>,
    rid: Id,
    id: Id,
    d: Direction,
    r: Option<bool>,
) -> bool {
    match first_index(old, is_restream(rid)) {
        Some(i) => match old[i].input.src {
            Some(InputSrc::Failover(v)) => match first_index(v@, is_failover(id)) {
                Some(k) => match moved_to(k, v@.len() as int, d) {
                    Some(t) => {
                        &&& r == Some(true)
                        &&& only_changed_at(old, new, i)
                        &&& backups_replaced(old[i], new[i], swapped(v@, k, t))
                    },
                    None => r == Some(false) && new == old,
                },
                None => r is None && new == old,
            },
            _ => r is None && new == old,
        },
        None => r is None && new == old,
    }
}

/// Moves the backup input at `k` of `v` to `t`, a neighbouring position.
fn swap_neighbours(v: &mut Vec<FailoverInput>, k: usize, t: usize)
    requires
        k < old(v)@.len(),
        t < old(v)@.len(),
        t == k + 1 || k == t + 1,
    ensures
        final(v)@ == swapped(old(v)@, k as int, t as int),
{
    let ghost v0 = v@;
    let x = v.remove(k);
    v.insert(t, x);
    assert(v@ =~= swapped(v0, k as int, t as int));
}

/// Moves the backup input `id` of the re-stream `rid` in the direction `d`
/// (see [`input_moved_in`]).
fn move_input_in(rs: &mut Vec<Restream>, rid: Id, id: Id, d: Direction) -> (r: Option<bool>)
    ensures
        input_moved_in(old(rs)@, final(rs)@, rid, id, d, r),
{
    let i = match find_restream(rs, rid) {
        Some(i) => i,
        None => return None,
    };
    let (k, n) = match &rs[i].input.src {
        Some(InputSrc::Failover(v)) => match find_failover(v, id) {
            Some(k) => (k, v.len()),
            None => return None,
        },
        _ => return None,
    };
    let t = match d {
        Direction::Up => if k > 0 {
            k - 1
        } else {
            return Some(false);
        },
        Direction::Down => if k + 1 < n {
            k + 1
        } else {
            return Some(false);
        },
    };
    let ghost before = rs@;
    let mut r = rs.remove(i);
    let src = r.input.src.take();
    match src {
        Some(InputSrc::Failover(mut v)) => {
            swap_neighbours(&mut v, k, t);
            r.input.src = Some(InputSrc::Failover(v));
        },
        other => {
            r.input.src = other;
        },
    }
    rs.insert(i, r);
    assert(rs@ =~= before.update(i as int, r));
    Some(true)
}

/// Endpoints of the input at `p` of `r`.
pub open spec fn endpoints_at(r: Restream, p: InputPlace) -> Seq<InputEndpoint> {
    match p {
        InputPlace::Main => r.input.endpoints@,
        InputPlace::Backup(k) => r.input.src->Some_0->Failover_0@[k as int].endpoints@,
    }
}

/// `new` is `r` with the endpoint at `e` of the input at `p` labelled
/// `label`, all else unchanged.
pub open spec fn endpoint_labelled(r: Restream, new: Restream, p: InputPlace, e: int, label: Option<String>) -> bool {
    let es = endpoints_at(r, p);
    let labelled = es.update(e, InputEndpoint { label, ..es[e] });
    match p {
        InputPlace::Main => {
            &&& new == Restream { input: Input { endpoints: new.input.endpoints, ..r.input }, ..r }
            &&& new.input.endpoints@ == labelled
        },
        InputPlace::Backup(k) => {
            let v = r.input.src->Some_0->Failover_0@;
            &&& backups_replaced(r, new, new.input.src->Some_0->Failover_0@)
            &&& new.input.src->Some_0->Failover_0@.len() == v.len()
            &&& forall|j: int|
                0 <= j < v.len() && j != k ==> new.input.src->Some_0->Failover_0@[j] == #[trigger] v[j]
            &&& new.input.src->Some_0->Failover_0@[k as int] == FailoverInput {
                endpoints: new.input.src->Some_0->Failover_0@[k as int].endpoints,
                ..v[k as int]
            }
            &&& new.input.src->Some_0->Failover_0@[k as int].endpoints@ == labelled
        },
    }
}

/// What labelling the endpoint `eid` of the input `id` of the re-stream
/// `rid` does: the label is set and the answer is `true`; where the
/// re-stream, the input or the endpoint does not exist, nothing changes and
/// there is no answer.
pub open spec fn label_set_in(
    old: Seq<Restream>,
    new: Seq<Restream>,
    rid: Id,
    id: Id,
    eid: Id,
    label: Option<String>,
    r: Option<bool>,
) -> bool {
    match first_index(old, is_restream(rid)) {
        Some(i) => match input_place(old[i], id) {
            Some(p) => match first_index(endpoints_at(old[i], p), is_endpoint(eid)) {
                Some(e) => {
                    &&& r == Some(true)
                    &&& only_changed_at(old, new, i)
                    &&& endpoint_labelled(old[i], new[i], p, e, label)
                },
                None => r is None && new == old,
            },
            None => r is None && new == old,
        },
        None => r is None && new == old,
    }
}

/// Labels the endpoint `eid` of `es` `label`, if it is there: its position.
fn label_endpoint(es: &mut Vec<InputEndpoint>, eid: Id, label: Option<String>) -> (r: Option<usize>)
    ensures
        match first_index(old(es)@, is_endpoint(eid)) {
            Some(e) => r == Some(e as usize) && final(es)@ == old(es)@.update(
                e,
                InputEndpoint { label, ..old(es)@[e] },
            ),
            None => r is None && final(es)@ == old(es)@,
        },
{
    match find_endpoint(es, eid) {
        Some(e) => {
            let ghost before = es@;
            let mut x = es.remove(e);
            x.label = label;
            es.insert(e, x);
            assert(es@ =~= before.update(e as int, x));
            Some(e)
        },
        None => None,
    }
}

/// Labels the endpoint `eid` of the input `id` of the re-stream `rid` (see
/// [`label_set_in`]).
fn set_label_in(rs: &mut Vec<Restream>, rid: Id, id: Id, eid: Id, label: Option<String>) -> (r: Option<bool>)
    ensures
        label_set_in(old(rs)@, final(rs)@, rid, id, eid, label, r),
{
    let i = match find_restream(rs, rid) {
        Some(i) => i,
        None => return None,
    };
    let p = match locate_input(&rs[i], id) {
        Some(p) => p,
        None => return None,
    };
    let found = match p {
        InputPlace::Main => find_endpoint(&rs[i].input.endpoints, eid),
        InputPlace::Backup(k) => match &rs[i].input.src {
            Some(InputSrc::Failover(v)) => find_endpoint(&v[k].endpoints, eid),
            _ => None,
        },
    };
    if found.is_none() {
        return None;
    }
    let ghost before = rs@;
    let mut r = rs.remove(i);
    match p {
        InputPlace::Main => {
            label_endpoint(&mut r.input.endpoints, eid, label);
        },
        InputPlace::Backup(k) => {
            let src = r.input.src.take();
            match src {
                Some(InputSrc::Failover(mut v)) => {
                    let ghost v0 = v@;
                    let mut b = v.remove(k);
                    label_endpoint(&mut b.endpoints, eid, label);
                    v.insert(k, b);
                    assert(v@ =~= v0.update(k as int, b));
                    r.input.src = Some(InputSrc::Failover(v));
                },
                other => {
                    r.input.src = other;
                },
            }
        },
    }
    rs.insert(i, r);
    assert(rs@ =~= before.update(i as int, r));
    Some(true)
}

impl State {
    /// Moves the backup input `id` of the re-stream `restream_id` in the
    /// direction `direction` (see [`input_moved_in`]).
    pub fn move_input_in_direction(&mut self, id: Id, restream_id: Id, direction: Direction) -> (r: Option<bool>)
        ensures
            input_moved_in(old(self).restreams@, final(self).restreams@, restream_id, id, direction, r),
            only_restreams_changed(*old(self), *final(self)),
    {
        move_input_in(&mut self.restreams, restream_id, id, direction)
    }

    /// Labels the endpoint `endpoint_id` of the input `id` of the re-stream
    /// `restream_id` (see [`label_set_in`]).
    pub fn set_endpoint_label(&mut self, id: Id, restream_id: Id, endpoint_id: Id, label: Option<String>) -> (r:
        Option<bool>)
        ensures
            label_set_in(old(self).restreams@, final(self).restreams@, restream_id, id, endpoint_id, label, r),
            only_restreams_changed(*old(self), *final(self)),
    {
        set_label_in(&mut self.restreams, restream_id, id, endpoint_id, label)
    }
}

impl MutationsRoot {
    /// Moves the backup input `id` of the re-stream `restream_id` in the
    /// direction `direction`, which may change which backup input is the
    /// primary one (see [`input_moved_in`]); it is never refused.
    pub fn move_input_in_direction(id: Id, restream_id: Id, direction: Direction, state: &mut State) -> (a: Result<
        Option<bool>,
        ApiError,
    >)
        ensures
            a matches Ok(r) && input_moved_in(old(state).restreams@, final(state).restreams@, restream_id, id, direction, r),
            only_restreams_changed(*old(state), *final(state)),
    {
        Ok(state.move_input_in_direction(id, restream_id, direction))
    }

    /// Labels the endpoint `endpoint_id` of the input `id` of the re-stream
    /// `restream_id` (see [`label_set_in`]).
    pub fn set_endpoint_label(
        id: Id,
        restream_id: Id,
        endpoint_id: Id,
        label: Option<String>,
        state: &mut State,
    ) -> (a: Option<bool>)
        ensures
            label_set_in(old(state).restreams@, final(state).restreams@, restream_id, id, endpoint_id, label, a),
            only_restreams_changed(*old(state), *final(state)),
    {
        state.set_endpoint_label(id, restream_id, endpoint_id, label)
    }
}

/// Moving a backup input up, then down, puts the backup inputs back in
/// their order, where it could move up: the second move succeeds too, and
/// the re-streams are as they were but for the list that holds the backup
/// inputs, which holds them in their first order.
pub proof fn lemma_move_up_then_down(
    s0: Seq<Restream>,
    s1: Seq<Restream>,
    s2: Seq<Restream>,
    rid: Id,
    id: Id,
    r1: Option<bool>,
    r2: Option<bool>,
)
    requires
        input_moved_in(s0, s1, rid, id, Direction::Up, r1),
        input_moved_in(s1, s2, rid, id, Direction::Down, r2),
        r1 == Some(true),
    ensures
        r2 == Some(true),
        first_index(s0, is_restream(rid)) matches Some(i) && (only_changed_at(s0, s2, i) && (
        s0[i].input.src matches Some(InputSrc::Failover(v)) && backups_replaced(s0[i], s2[i], v@))),
{
    let i = first_index(s0, is_restream(rid))->0;
    let v = s0[i].input.src->Some_0->Failover_0@;
    let k = first_index(v, is_failover(id))->0;
    let w = swapped(v, k, k - 1);
    lemma_first_index_some(s0, is_restream(rid));
    assert forall|j: int| 0 <= j < s0.len() implies is_restream(rid)(#[trigger] s0[j]) == is_restream(rid)(s1[j]) by {
        if j == i {
            assert(s1[i].id == s0[i].id);
        }
    }
    lemma_first_index_same(s0, is_restream(rid), s1, is_restream(rid));
    lemma_first_index_some(v, is_failover(id));
    assert forall|j: int| 0 <= j < k - 1 implies !is_failover(id)(#[trigger] w[j]) by {
        assert(w[j] == v[j]);
    }
    lemma_first_index(w, is_failover(id), k - 1);
    assert(swapped(w, k - 1, k) =~= v);
}

/// Enabling or disabling an input a second time finds it so already: the
/// second time answers `false`, where the re-stream and the input exist.
pub proof fn lemma_switch_input_twice(
    s0: Seq<Restream>,
    s1: Seq<Restream>,
    s2: Seq<Restream>,
    rid: Id,
    id: Id,
    enabled: bool,
    r1: Option<bool>,
    r2: Option<bool>,
)
    requires
        input_switched_in(s0, s1, rid, id, enabled, r1),
        input_switched_in(s1, s2, rid, id, enabled, r2),
    ensures
        r1 is Some ==> r2 == Some(false),
        r1 is None ==> r2 is None,
{
    match first_index(s0, is_restream(rid)) {
        Some(i) => match input_place(s0[i], id) {
            Some(p) => {
                lemma_first_index_some(s0, is_restream(rid));
                assert forall|j: int| 0 <= j < s0.len() implies is_restream(rid)(#[trigger] s0[j]) == is_restream(
                    rid,
                )(s1[j]) by {
                    if j != i {
                        assert(s1[j] == s0[j]);
                    }
                }
                lemma_first_index_same(s0, is_restream(rid), s1, is_restream(rid));
                match p {
                    InputPlace::Main => {},
                    InputPlace::Backup(k) => {
                        let v = s0[i].input.src->Some_0->Failover_0@;
                        let w = s1[i].input.src->Some_0->Failover_0@;
                        lemma_first_index_some(v, is_failover(id));
                        assert(input_switched(s0[i], s1[i], p, enabled));
                        assert(w == v.update(k as int, FailoverInput { enabled, ..v[k as int] }));
                        assert forall|j: int| 0 <= j < v.len() implies is_failover(id)(#[trigger] v[j]) == is_failover(
                            id,
                        )(w[j]) by {}
                        lemma_first_index_same(v, is_failover(id), w, is_failover(id));
                    },
                }
            },
            None => {},
        },
        None => {},
    }
}

} // verus!
