//! Importing re-streams from a specification obtained by an export: the
//! specification either replaces the re-streams or is merged with them.

use vstd::prelude::*;

use crate::api_error::{is_error, ApiError, BAD_REQUEST};
use crate::client_api::{find_restream, is_restream, MutationsRoot};
use crate::outputs::{dst_used, find_dst, output_from};
use crate::restreams::{input_from, lemma_export_then_new, new_outputs, restream_exported, restream_from};
use crate::seq_util::{first_index, lemma_first_index, lemma_first_index_some};
use crate::settings::{settings_from, settings_of_spec};
use crate::spec::{OutputSpec, RestreamSpec, SettingsSpec, Spec};
use crate::state::{only_restreams_and_settings_changed, only_restreams_changed, Id, Input, Output, Restream, Settings, State};

verus! {

broadcast use vstd::seq_lib::group_seq_properties;

/// Whether the re-stream `r` has the key `key`.
pub open spec fn has_key(key: Seq<char>) -> spec_fn(Restream) -> bool {
    |r: Restream| r.key@ == key
}

/// The output specifications of `specs` whose destination no output of
/// `outs` has, in order.
pub open spec fn unused_dsts(outs: Seq<Output>, specs: Seq<OutputSpec>) -> Seq<OutputSpec>
    decreases specs.len(),
{
    if specs.len() == 0 {
        seq![]
    } else {
        let rest = unused_dsts(outs, specs.drop_last());
        if dst_used(outs, specs.last().dst@, None) {
            rest
        } else {
            rest.push(specs.last())
        }
    }
}

/// `news` are outputs made after `specs`, one by one.
pub open spec fn outputs_from(news: Seq<Output>, specs: Seq<OutputSpec>) -> bool {
    news.len() == specs.len() && forall|k: int| 0 <= k < news.len() ==> output_from(#[trigger] news[k], specs[k])
}

/// `new` is the re-stream `r` with the specification `s` applied: it keeps
/// its identity and playlist, takes the key, the label and the limit of
/// playlist files of `s`, and an input made after that of `s`; its outputs
/// are made after those of `s` where `replace` is set, else it keeps its
/// outputs and gets new ones made after those of `s` whose destination
/// none of them has.
pub open spec fn restream_applied(r: Restream, s: RestreamSpec, replace: bool, new: Restream) -> bool {
    &&& new == Restream {
        key: new.key,
        label: s.label,
        input: new.input,
        outputs: new.outputs,
        max_files_in_playlist: s.max_files_in_playlist,
        ..r
    }
    &&& new.key@ == s.key@
    &&& input_from(new.input, s.input)
    &&& if replace {
        outputs_from(new.outputs@, s.outputs@)
    } else {
        &&& new.outputs@.take(r.outputs@.len() as int) == r.outputs@
        &&& outputs_from(new.outputs@.skip(r.outputs@.len() as int), unused_dsts(r.outputs@, s.outputs@))
    }
}

/// Outputs made after those of `specs` whose destination no output of
/// `outs` has.
fn new_unused_outputs(outs: &Vec<Output>, specs: Vec<OutputSpec>) -> (v: Vec<Output>)
    ensures
        outputs_from(v@, unused_dsts(outs@, specs@)),
{
    let ghost s0 = specs@;
    let n: usize = specs.len();
    let mut specs = specs;
    let mut v: Vec<Output> = Vec::new();
    let mut k: usize = 0;
    while specs.len() > 0
        invariant
            specs@ == s0.skip(k as int),
            k <= s0.len(),
            s0.len() <= usize::MAX,
            outputs_from(v@, unused_dsts(outs@, s0.take(k as int))),
        decreases specs.len(),
    {
        let s = specs.remove(0);
        assert(s0.take(k as int + 1).drop_last() =~= s0.take(k as int));
        assert(s0.take(k as int + 1).last() == s);
        if !find_dst(outs, &s.dst, None) {
            let o = Output::new(s);
            v.push(o);
        }
        k = k + 1;
        assert(specs@ =~= s0.skip(k as int));
    }
    assert(s0.take(k as int) =~= s0);
    v
}

impl Restream {
    /// Applies the specification `s` (see [`restream_applied`]).
    pub fn apply(&mut self, s: RestreamSpec, replace: bool)
        ensures
            restream_applied(*old(self), s, replace, *final(self)),
    {
        let RestreamSpec { id: _, key, label, input, outputs, max_files_in_playlist } = s;
        self.key = key;
        self.label = label;
        self.max_files_in_playlist = max_files_in_playlist;
        self.input = Input::new(input);
        if replace {
            self.outputs = new_outputs(outputs);
        } else {
            let ghost before = self.outputs@;
            let mut added = new_unused_outputs(&self.outputs, outputs);
            self.outputs.append(&mut added);
            assert(self.outputs@.take(before.len() as int) =~= before);
        }
    }
}

/// The first re-stream of `rs` with the key `key`.
fn find_key_index(rs: &Vec<Restream>, key: &String) -> (r: Option<usize>)
    ensures
        r matches Some(i) ==> i < rs@.len(),
        match r {
            Some(i) => first_index(rs@, has_key(key@)) == Some(i as int),
            None => first_index(rs@, has_key(key@)) is None,
        },
{
    let mut i: usize = 0;
    while i < rs.len()
        invariant
            i <= rs@.len(),
            forall|j: int| 0 <= j < i ==> !has_key(key@)(#[trigger] rs@[j]),
        decreases rs.len() - i,
    {
        if rs[i].key == *key {
            proof {
                lemma_first_index(rs@, has_key(key@), i as int);
            }
            return Some(i);
        }
        i = i + 1;
    }
    proof {
        lemma_first_index(rs@, has_key(key@), i as int);
    }
    None
}

/// `new` are re-streams made after the specifications `specs`, one by one.
pub open spec fn made_after(specs: Seq<RestreamSpec>, new: Seq<Restream>) -> bool {
    new.len() == specs.len() && forall|k: int| 0 <= k < specs.len() ==> restream_from(#[trigger] new[k], specs[k])
}

/// `new` is `cur` with the specification `s` merged in: applied to the
/// first re-stream with its key, or made a new re-stream appended where
/// none has its key.
pub open spec fn merged_one(cur: Seq<Restream>, s: RestreamSpec, new: Seq<Restream>) -> bool {
    match first_index(cur, has_key(s.key@)) {
        Some(j) => {
            &&& new.len() == cur.len()
            &&& forall|i: int| 0 <= i < cur.len() && i != j ==> new[i] == cur[i]
            &&& restream_applied(cur[j], s, false, new[j])
        },
        None => {
            &&& new.len() == cur.len() + 1
            &&& new.drop_last() == cur
            &&& restream_from(new.last(), s)
        },
    }
}

/// `states` go from `old` through the specifications `specs` merged in one
/// after another (see [`merged_one`]).
pub open spec fn merge_steps(old: Seq<Restream>, specs: Seq<RestreamSpec>, states: Seq<Seq<Restream>>) -> bool {
    &&& states.len() == specs.len() + 1
    &&& states[0] == old
    &&& forall|k: int| 0 <= k < specs.len() ==> merged_one(#[trigger] states[k], specs[k], states[k + 1])
}

/// `new` is `old` with the specifications `specs` merged in one after
/// another (see [`merged_one`]).
pub open spec fn merged_all(old: Seq<Restream>, specs: Seq<RestreamSpec>, new: Seq<Restream>) -> bool {
    exists|states: Seq<Seq<Restream>>| #[trigger] merge_steps(old, specs, states) && states.last() == new
}

/// Merges the specification `s` into `rs` (see [`merged_one`]).
fn merge_one(rs: &mut Vec<Restream>, s: RestreamSpec)
    ensures
        merged_one(old(rs)@, s, final(rs)@),
{
    match find_key_index(rs, &s.key) {
        Some(j) => {
            let ghost before = rs@;
            let mut r = rs.remove(j);
            r.apply(s, false);
            rs.insert(j, r);
            assert(rs@ =~= before.update(j as int, r));
        },
        None => {
            let ghost before = rs@;
            rs.push(Restream::new(s));
            assert(rs@.drop_last() =~= before);
        },
    }
}

impl State {
    /// Applies the re-stream specifications `specs`: where `replace` is set
    /// the re-streams are replaced by new ones made after them (see
    /// [`made_after`]), else they are merged in one after another (see
    /// [`merged_all`]).
    pub fn apply(&mut self, specs: Vec<RestreamSpec>, replace: bool)
        ensures
            replace ==> made_after(specs@, final(self).restreams@),
            !replace ==> merged_all(old(self).restreams@, specs@, final(self).restreams@),
            only_restreams_changed(*old(self), *final(self)),
    {
        let ghost s0 = specs@;
        let n: usize = specs.len();
        let mut specs = specs;
        let mut k: usize = 0;
        if replace {
            self.restreams = Vec::new();
            while specs.len() > 0
                invariant
                    specs@ == s0.skip(k as int),
                    k <= s0.len(),
                    s0.len() <= usize::MAX,
                    made_after(s0.take(k as int), self.restreams@),
                    only_restreams_changed(*old(self), *self),
                decreases specs.len(),
            {
                let s = specs.remove(0);
                assert(s0[k as int] == s);
                self.restreams.push(Restream::new(s));
                k = k + 1;
                assert(specs@ =~= s0.skip(k as int));
            }
            assert(s0.take(k as int) =~= s0);
        } else {
            let ghost mut states: Seq<Seq<Restream>> = seq![self.restreams@];
            while specs.len() > 0
                invariant
                    specs@ == s0.skip(k as int),
                    k <= s0.len(),
                    s0.len() <= usize::MAX,
                    merge_steps(old(self).restreams@, s0.take(k as int), states),
                    states.last() == self.restreams@,
                    only_restreams_changed(*old(self), *self),
                decreases specs.len(),
            {
                let s = specs.remove(0);
                assert(s0[k as int] == s);
                let ghost mid = self.restreams@;
                merge_one(&mut self.restreams, s);
                proof {
                    let t = s0.take(k as int + 1);
                    let next = states.push(self.restreams@);
                    assert forall|j: int| 0 <= j < t.len() implies merged_one(#[trigger] next[j], t[j], next[j + 1]) by {
                        if j < k {
                            assert(next[j] == states[j] && next[j + 1] == states[j + 1]);
                            assert(t[j] == s0.take(k as int)[j]);
                        } else {
                            assert(next[j] == mid);
                        }
                    }
                    states = next;
                }
                k = k + 1;
                assert(specs@ =~= s0.skip(k as int));
            }
            assert(s0.take(k as int) =~= s0);
        }
    }
}

/// What importing the specifications `specs` does: where a re-stream `id`
/// is named, `specs` must hold exactly one specification, which is applied
/// to that re-stream (see [`restream_applied`]), with no result where there
/// is no such re-stream; else all of them are applied to the re-streams
/// (see [`State::apply`]).
pub open spec fn imported(
    old: Seq<Restream>,
    new: Seq<Restream>,
    specs: Seq<RestreamSpec>,
    replace: bool,
    restream_id: Option<Id>,
    a: Result<Option<bool>, ApiError>,
) -> bool {
    match restream_id {
        Some(id) => if specs.len() != 1 {
            &&& a matches Err(e) && is_error(e, "INVALID_SPEC"@, 400, "JSON spec should contain exactly one Restream"@)
            &&& new == old
        } else {
            match first_index(old, is_restream(id)) {
                Some(i) => {
                    &&& a == Ok::<Option<bool>, ApiError>(Some(true))
                    &&& new.len() == old.len()
                    &&& forall|j: int| 0 <= j < old.len() && j != i ==> new[j] == old[j]
                    &&& restream_applied(old[i], specs[0], replace, new[i])
                },
                None => a == Ok::<Option<bool>, ApiError>(None) && new == old,
            }
        },
        None => {
            &&& a == Ok::<Option<bool>, ApiError>(Some(true))
            &&& replace ==> made_after(specs, new)
            &&& !replace ==> merged_all(old, specs, new)
        },
    }
}

/// What importing does to the settings: where no re-stream is named and
/// the specification gives settings, they replace the settings; otherwise
/// the settings stay.
pub open spec fn settings_imported(old: Settings, new: Settings, spec: Option<SettingsSpec>, restream_id: Option<Id>) -> bool {
    match (restream_id, spec) {
        (None, Some(s)) => new == settings_from(s),
        _ => new == old,
    }
}

impl MutationsRoot {
    /// Imports the specification `spec`, obtained by an export: its
    /// re-streams replace the re-streams where `replace` is set, else they
    /// are merged with them, and its settings, where it gives any, replace
    /// the settings; where `restream_id` names a re-stream, the only
    /// re-stream of `spec` is applied to it alone and the settings stay
    /// (see [`imported`], [`settings_imported`]). Nothing changes where the
    /// answer is not `true`.
    pub fn import(spec: Spec, replace: bool, restream_id: Option<Id>, state: &mut State) -> (a: Result<
        Option<bool>,
        ApiError,
    >)
        ensures
            imported(old(state).restreams@, final(state).restreams@, spec.restreams@, replace, restream_id, a),
            settings_imported(old(state).settings, final(state).settings, spec.settings, restream_id),
            only_restreams_and_settings_changed(*old(state), *final(state)),
            a != Ok::<Option<bool>, ApiError>(Some(true)) ==> *final(state) == *old(state),
    {
        let Spec { settings, restreams: specs } = spec;
        match restream_id {
            Some(id) => {
                if specs.len() != 1 {
                    return Err(
                        ApiError::new(
                            "INVALID_SPEC",
                            BAD_REQUEST,
                            String::from_str("JSON spec should contain exactly one Restream"),
                        ),
                    );
                }
                let mut specs = specs;
                let s = specs.remove(0);
                match find_restream(&state.restreams, id) {
                    Some(i) => {
                        let ghost before = state.restreams@;
                        let mut r = state.restreams.remove(i);
                        r.apply(s, replace);
                        state.restreams.insert(i, r);
                        assert(state.restreams@ =~= before.update(i as int, r));
                        Ok(Some(true))
                    },
                    None => Ok(None),
                }
            },
            None => {
                match settings {
                    Some(st) => {
                        state.settings = settings_of_spec(st);
                    },
                    None => {},
                }
                state.apply(specs, replace);
                Ok(Some(true))
            },
        }
    }
}

/// Importing with `replace` set leaves exactly the re-streams of the
/// specifications, in their order and with their keys.
pub proof fn lemma_import_replace_keys(
    old: Seq<Restream>,
    new: Seq<Restream>,
    specs: Seq<RestreamSpec>,
    a: Result<Option<bool>, ApiError>,
)
    requires
        imported(old, new, specs, true, None, a),
    ensures
        new.len() == specs.len(),
        forall|k: int| 0 <= k < specs.len() ==> (#[trigger] new[k]).key@ == specs[k].key@,
{
}

/// Merging one specification keeps the re-streams there at their places,
/// with their identities and keys, and leaves one with its key.
proof fn lemma_merged_one_keeps(cur: Seq<Restream>, s: RestreamSpec, new: Seq<Restream>)
    requires
        merged_one(cur, s, new),
    ensures
        cur.len() <= new.len(),
        forall|j: int| 0 <= j < cur.len() ==> (#[trigger] new[j]).id == cur[j].id && new[j].key@ == cur[j].key@,
        exists|j: int| 0 <= j < new.len() && (#[trigger] new[j]).key@ == s.key@,
{
    lemma_first_index_some(cur, has_key(s.key@));
    match first_index(cur, has_key(s.key@)) {
        Some(j0) => {
            assert(new[j0].key@ == s.key@);
        },
        None => {
            assert forall|j: int| 0 <= j < cur.len() implies (#[trigger] new[j]).id == cur[j].id && new[j].key@
                == cur[j].key@ by {
                assert(new[j] == new.drop_last()[j]);
            }
            assert(new[new.len() - 1].key@ == s.key@);
        },
    }
}

/// After `m` steps of a merge, the re-streams that were there are kept at
/// their places with their identities, and each of the first `m`
/// specifications has a re-stream with its key.
proof fn lemma_merge_prefix(old: Seq<Restream>, specs: Seq<RestreamSpec>, states: Seq<Seq<Restream>>, m: int)
    requires
        merge_steps(old, specs, states),
        0 <= m <= specs.len(),
    ensures
        old.len() <= states[m].len(),
        forall|j: int| 0 <= j < old.len() ==> (#[trigger] states[m][j]).id == old[j].id,
        forall|k: int|
            0 <= k < m ==> exists|j: int| 0 <= j < states[m].len() && (#[trigger] states[m][j]).key@ == (
            #[trigger] specs[k]).key@,
    decreases m,
{
    if m > 0 {
        lemma_merge_prefix(old, specs, states, m - 1);
        let cur = states[m - 1];
        let new = states[m];
        assert(merged_one(states[m - 1], specs[m - 1], states[m]));
        lemma_merged_one_keeps(cur, specs[m - 1], new);
        assert forall|k: int| 0 <= k < m implies exists|j: int|
            0 <= j < new.len() && (#[trigger] new[j]).key@ == (#[trigger] specs[k]).key@ by {
            if k < m - 1 {
                let j = choose|j: int| 0 <= j < cur.len() && (#[trigger] cur[j]).key@ == specs[k].key@;
                assert(new[j].key@ == cur[j].key@);
            }
        }
    }
}

/// Importing without `replace` keeps every re-stream that was there, at its
/// place and with its identity, and leaves a re-stream with the key of
/// every specification.
pub proof fn lemma_import_merge_keeps(
    old: Seq<Restream>,
    new: Seq<Restream>,
    specs: Seq<RestreamSpec>,
    a: Result<Option<bool>, ApiError>,
)
    requires
        imported(old, new, specs, false, None, a),
    ensures
        old.len() <= new.len(),
        forall|k: int| 0 <= k < old.len() ==> (#[trigger] new[k]).id == old[k].id,
        forall|k: int|
            0 <= k < specs.len() ==> exists|j: int| 0 <= j < new.len() && (#[trigger] new[j]).key@ == (
            #[trigger] specs[k]).key@,
{
    let states = choose|states: Seq<Seq<Restream>>| #[trigger] merge_steps(old, specs, states) && states.last() == new;
    lemma_merge_prefix(old, specs, states, specs.len() as int);
}

/// Importing with `replace` set what an export described gives the
/// described re-streams back, with their identities, keys, labels and
/// outputs' identities and destinations, in their order (see
/// [`lemma_export_then_new`] for what else is kept).
pub proof fn lemma_export_then_import(
    rs: Seq<Restream>,
    cur: Seq<Restream>,
    new: Seq<Restream>,
    specs: Seq<RestreamSpec>,
    a: Result<Option<bool>, ApiError>,
)
    requires
        specs.len() == rs.len(),
        forall|k: int| 0 <= k < rs.len() ==> restream_exported(#[trigger] rs[k], specs[k]),
        imported(cur, new, specs, true, None, a),
    ensures
        new.len() == rs.len(),
        forall|k: int|
            0 <= k < rs.len() ==> {
                &&& (#[trigger] new[k]).id == rs[k].id
                &&& new[k].key@ == rs[k].key@
                &&& new[k].label.deep_view() == rs[k].label.deep_view()
                &&& new[k].outputs@.len() == rs[k].outputs@.len()
                &&& forall|j: int|
                    0 <= j < rs[k].outputs@.len() ==> (#[trigger] new[k].outputs@[j]).id == rs[k].outputs@[j].id
                        && new[k].outputs@[j].dst@ == rs[k].outputs@[j].dst@
            },
{
    assert forall|k: int| 0 <= k < rs.len() implies {
        &&& (#[trigger] new[k]).id == rs[k].id
        &&& new[k].key@ == rs[k].key@
        &&& new[k].label.deep_view() == rs[k].label.deep_view()
        &&& new[k].outputs@.len() == rs[k].outputs@.len()
        &&& forall|j: int|
            0 <= j < rs[k].outputs@.len() ==> (#[trigger] new[k].outputs@[j]).id == rs[k].outputs@[j].id
                && new[k].outputs@[j].dst@ == rs[k].outputs@[j].dst@
    } by {
        lemma_export_then_new(rs[k], specs[k], new[k]);
    }
}

} // verus!
