//! Re-streams and their inputs: how the API builds, adds, edits, removes,
//! enables and disables them.

use vstd::prelude::*;

use crate::api_error::{is_error, ApiError, CONFLICT};
use crate::client_api::{find_restream, is_restream, MutationsRoot};
use crate::file_manager::{FileCommand, FileId};
use crate::input_apply::input_applied;
use crate::seq_util::{first_index, lemma_first_index};
use crate::text::join3;
use crate::outputs::output_from;
use crate::spec::MixinSpec;
use crate::state::{only_restreams_and_commands_changed, only_restreams_changed, Mixin};
use crate::settings::{settings_spec_of, QueriesRoot};
use crate::spec::{
    BackupInput, FailoverInputSpec, InputEndpointSpec, InputSpec, InputSrcSpec, OutputSpec, RestreamSpec, Spec,
};
use crate::state::{
    random_id, FailoverInput, Id, Input, InputEndpoint, InputEndpointKind, InputSrc, Output, Playlist, Restream, State,
    Status,
};

verus! {

/// `e` asks for an endpoint of the kind `kind`, without a label, playing
/// `file_id`.
pub open spec fn endpoint_spec_is(e: InputEndpointSpec, kind: InputEndpointKind, file_id: Option<FileId>) -> bool {
    e.kind == kind && e.label is None && e.file_id == file_id
}

/// `i` asks for an enabled backup input with the key `key`, one endpoint of
/// the kind `kind` playing `file_id`, pulling from `src`.
pub open spec fn failover_spec_is(
    i: FailoverInputSpec,
    key: Seq<char>,
    kind: InputEndpointKind,
    file_id: Option<FileId>,
    src: Option<String>,
) -> bool {
    &&& i.id is None
    &&& i.key@ == key
    &&& i.endpoints@.len() == 1
    &&& endpoint_spec_is(i.endpoints@[0], kind, file_id)
    &&& i.src == src
    &&& i.enabled
}

/// The backup inputs asked for: none where none is given.
pub open spec fn backups_of(backup_inputs: Option<Vec<BackupInput>>) -> Seq<BackupInput> {
    match backup_inputs {
        Some(b) => b@,
        None => Seq::empty(),
    }
}

/// `v` lists the backup inputs of a failover source: the `primary` one
/// pulling from `src`, then one per backup input asked for, then, where a
/// file is given, a `file_backup` one playing it.
pub open spec fn failover_specs_of(
    v: Seq<FailoverInputSpec>,
    src: Option<String>,
    backups: Seq<BackupInput>,
    file_id: Option<FileId>,
) -> bool {
    &&& v.len() == 1 + backups.len() + (if file_id is Some {
        1int
    } else {
        0int
    })
    &&& failover_spec_is(v[0], "primary"@, InputEndpointKind::Rtmp, None, src)
    &&& forall|b: int|
        0 <= b < backups.len() ==> failover_spec_is(
            #[trigger] v[1 + b],
            backups[b].key@,
            InputEndpointKind::Rtmp,
            None,
            backups[b].src,
        )
    &&& file_id is Some ==> failover_spec_is(
        v[1 + backups.len() as int],
        "file_backup"@,
        InputEndpointKind::File,
        file_id,
        None,
    )
}

/// `spec` is the re-stream `set_restream` asks for: no outputs; an enabled
/// input with an RTMP endpoint, and an HLS one where asked for; the input
/// is the `playback` one of a failover source where backup inputs or a file
/// are given (see [`failover_specs_of`]), else the `primary` one pulling
/// from `src`.
pub open spec fn restream_spec_of(
    key: Seq<char>,
    label: Option<String>,
    src: Option<String>,
    backup_inputs: Option<Vec<BackupInput>>,
    file_id: Option<FileId>,
    max_files_in_playlist: Option<u16>,
    with_hls: bool,
    spec: RestreamSpec,
) -> bool {
    let failover = backup_inputs is Some || file_id is Some;
    &&& spec.id is None
    &&& spec.key@ == key
    &&& spec.label == label
    &&& spec.outputs@.len() == 0
    &&& spec.max_files_in_playlist == max_files_in_playlist
    &&& spec.input.id is None
    &&& spec.input.enabled
    &&& spec.input.key@ == (if failover {
        "playback"@
    } else {
        "primary"@
    })
    &&& spec.input.endpoints@.len() == (if with_hls {
        2int
    } else {
        1int
    })
    &&& endpoint_spec_is(spec.input.endpoints@[0], InputEndpointKind::Rtmp, None)
    &&& with_hls ==> endpoint_spec_is(spec.input.endpoints@[1], InputEndpointKind::Hls, None)
    &&& if failover {
        spec.input.src matches Some(InputSrcSpec::FailoverInputs(v)) && failover_specs_of(
            v@,
            src,
            backups_of(backup_inputs),
            file_id,
        )
    } else {
        match src {
            Some(u) => spec.input.src == Some(InputSrcSpec::RemoteUrl(u)),
            None => spec.input.src is None,
        }
    }
}

/// An endpoint of the kind `kind`, without a label, playing `file_id`.
fn endpoint_spec(kind: InputEndpointKind, file_id: Option<FileId>) -> (e: InputEndpointSpec)
    ensures
        endpoint_spec_is(e, kind, file_id),
{
    InputEndpointSpec { kind, label: None, file_id }
}

/// An enabled backup input with one endpoint.
fn failover_spec(
    key: String,
    kind: InputEndpointKind,
    file_id: Option<FileId>,
    src: Option<String>,
) -> (i: FailoverInputSpec)
    ensures
        failover_spec_is(i, key@, kind, file_id, src),
{
    let mut endpoints: Vec<InputEndpointSpec> = Vec::new();
    endpoints.push(endpoint_spec(kind, file_id));
    FailoverInputSpec { id: None, key, endpoints, src, enabled: true }
}

/// Builds the re-stream `set_restream` asks for (see [`restream_spec_of`]).
pub fn restream_spec(
    key: String,
    label: Option<String>,
    src: Option<String>,
    backup_inputs: Option<Vec<BackupInput>>,
    file_id: Option<FileId>,
    max_files_in_playlist: Option<u16>,
    with_hls: bool,
) -> (spec: RestreamSpec)
    ensures
        restream_spec_of(key@, label, src, backup_inputs, file_id, max_files_in_playlist, with_hls, spec),
{
    let ghost backups0 = backups_of(backup_inputs);
    let failover = backup_inputs.is_some() || file_id.is_some();
    let (input_key, input_src) = if failover {
        let mut v: Vec<FailoverInputSpec> = Vec::new();
        v.push(failover_spec(String::from_str("primary"), InputEndpointKind::Rtmp, None, src));
        let mut backups = match backup_inputs {
            Some(b) => b,
            None => Vec::new(),
        };
        while backups.len() > 0
            invariant
                v@.len() >= 1,
                backups@ == backups0.skip(v@.len() - 1),
                v@.len() - 1 <= backups0.len(),
                failover_spec_is(v@[0], "primary"@, InputEndpointKind::Rtmp, None, src),
                forall|b: int|
                    0 <= b < v@.len() - 1 ==> failover_spec_is(
                        #[trigger] v@[1 + b],
                        backups0[b].key@,
                        InputEndpointKind::Rtmp,
                        None,
                        backups0[b].src,
                    ),
            decreases backups.len(),
        {
            let b = backups.remove(0);
            v.push(failover_spec(b.key, InputEndpointKind::Rtmp, None, b.src));
            assert(backups@ =~= backups0.skip(v@.len() - 1));
        }
        assert(v@.len() - 1 == backups0.len()) by {
            assert(backups0.skip(v@.len() - 1).len() == 0);
        }
        match file_id {
            Some(f) => {
                v.push(failover_spec(String::from_str("file_backup"), InputEndpointKind::File, Some(f), None));
            },
            None => {},
        }
        (String::from_str("playback"), Some(InputSrcSpec::FailoverInputs(v)))
    } else {
        let s = match src {
            Some(u) => Some(InputSrcSpec::RemoteUrl(u)),
            None => None,
        };
        (String::from_str("primary"), s)
    };
    let mut endpoints: Vec<InputEndpointSpec> = Vec::new();
    endpoints.push(endpoint_spec(InputEndpointKind::Rtmp, None));
    if with_hls {
        endpoints.push(endpoint_spec(InputEndpointKind::Hls, None));
    }
    proof {
        reveal_strlit("primary");
        reveal_strlit("playback");
        reveal_strlit("file_backup");
    }
    RestreamSpec {
        id: None,
        key,
        label,
        input: InputSpec { id: None, key: input_key, endpoints, src: input_src, enabled: true },
        outputs: Vec::new(),
        max_files_in_playlist,
    }
}

/// `e` is a new endpoint made after `s`: offline.
pub open spec fn endpoint_from(e: InputEndpoint, s: InputEndpointSpec) -> bool {
    e.kind == s.kind && e.label == s.label && e.file_id == s.file_id && e.status == Status::Offline
}

/// Each of `es` is a new endpoint made after the spec at its position.
pub open spec fn endpoints_from(es: Seq<InputEndpoint>, ss: Seq<InputEndpointSpec>) -> bool {
    es.len() == ss.len() && forall|k: int| 0 <= k < es.len() ==> endpoint_from(#[trigger] es[k], ss[k])
}

/// `i` is a new backup input made after `s`, with the identity of `s`
/// where it has one.
pub open spec fn failover_from(i: FailoverInput, s: FailoverInputSpec) -> bool {
    &&& (s.id matches Some(id) ==> i.id == id)
    &&& i.key@ == s.key@
    &&& endpoints_from(i.endpoints@, s.endpoints@)
    &&& i.src == s.src
    &&& i.enabled == s.enabled
}

/// `i` is a new main input made after `s`, with the identity of `s` where
/// it has one.
pub open spec fn input_from(i: Input, s: InputSpec) -> bool {
    &&& (s.id matches Some(id) ==> i.id == id)
    &&& i.key@ == s.key@
    &&& endpoints_from(i.endpoints@, s.endpoints@)
    &&& i.enabled == s.enabled
    &&& match s.src {
        None => i.src is None,
        Some(InputSrcSpec::RemoteUrl(u)) => i.src == Some(InputSrc::Remote(u)),
        Some(InputSrcSpec::FailoverInputs(v)) => i.src matches Some(InputSrc::Failover(w)) && w@.len() == v@.len()
            && forall|k: int| 0 <= k < w@.len() ==> failover_from(#[trigger] w@[k], v@[k]),
    }
}

/// `r` is a new re-stream made after `s`: with the identity of `s` where it
/// has one, its input and outputs made after those of `s`, and an empty
/// playlist that plays nothing.
pub open spec fn restream_from(r: Restream, s: RestreamSpec) -> bool {
    &&& (s.id matches Some(id) ==> r.id == id)
    &&& r.key@ == s.key@
    &&& r.label == s.label
    &&& input_from(r.input, s.input)
    &&& r.outputs@.len() == s.outputs@.len()
    &&& forall|k: int| 0 <= k < r.outputs@.len() ==> output_from(#[trigger] r.outputs@[k], s.outputs@[k])
    &&& r.playlist.queue@.len() == 0
    &&& r.playlist.currently_playing_file is None
    &&& r.max_files_in_playlist == s.max_files_in_playlist
}

/// New endpoints made after `specs`, with random identifiers.
fn new_endpoints(specs: Vec<InputEndpointSpec>) -> (es: Vec<InputEndpoint>)
    ensures
        endpoints_from(es@, specs@),
{
    let ghost s0 = specs@;
    let mut specs = specs;
    let mut es: Vec<InputEndpoint> = Vec::new();
    while specs.len() > 0
        invariant
            specs@ == s0.skip(es@.len() as int),
            es@.len() <= s0.len(),
            forall|k: int| 0 <= k < es@.len() ==> endpoint_from(#[trigger] es@[k], s0[k]),
        decreases specs.len(),
    {
        let s = specs.remove(0);
        es.push(InputEndpoint { id: random_id(), kind: s.kind, status: Status::Offline, label: s.label, file_id: s.file_id });
        assert(specs@ =~= s0.skip(es@.len() as int));
    }
    es
}

/// New backup inputs made after `specs`, with the identifiers they give,
/// else random ones.
fn new_failovers(specs: Vec<FailoverInputSpec>) -> (v: Vec<FailoverInput>)
    ensures
        v@.len() == specs@.len(),
        forall|k: int| 0 <= k < v@.len() ==> failover_from(#[trigger] v@[k], specs@[k]),
{
    let ghost s0 = specs@;
    let mut specs = specs;
    let mut v: Vec<FailoverInput> = Vec::new();
    while specs.len() > 0
        invariant
            specs@ == s0.skip(v@.len() as int),
            v@.len() <= s0.len(),
            forall|k: int| 0 <= k < v@.len() ==> failover_from(#[trigger] v@[k], s0[k]),
        decreases specs.len(),
    {
        let s = specs.remove(0);
        let endpoints = new_endpoints(s.endpoints);
        let id = match s.id {
            Some(x) => x,
            None => random_id(),
        };
        v.push(FailoverInput { id, key: s.key, endpoints, src: s.src, enabled: s.enabled });
        assert(specs@ =~= s0.skip(v@.len() as int));
    }
    v
}

/// New outputs made after `specs`.
pub(crate) fn new_outputs(specs: Vec<OutputSpec>) -> (v: Vec<Output>)
    ensures
        v@.len() == specs@.len(),
        forall|k: int| 0 <= k < v@.len() ==> output_from(#[trigger] v@[k], specs@[k]),
{
    let ghost s0 = specs@;
    let mut specs = specs;
    let mut v: Vec<Output> = Vec::new();
    while specs.len() > 0
        invariant
            specs@ == s0.skip(v@.len() as int),
            v@.len() <= s0.len(),
            forall|k: int| 0 <= k < v@.len() ==> output_from(#[trigger] v@[k], s0[k]),
        decreases specs.len(),
    {
        let s = specs.remove(0);
        v.push(Output::new(s));
        assert(specs@ =~= s0.skip(v@.len() as int));
    }
    v
}

impl Input {
    /// A new main input made after `s`, with random identifiers where `s`
    /// gives none.
    pub fn new(s: InputSpec) -> (i: Input)
        ensures
            input_from(i, s),
    {
        let InputSpec { id, key, endpoints, src, enabled } = s;
        let id = match id {
            Some(x) => x,
            None => random_id(),
        };
        let endpoints = new_endpoints(endpoints);
        let src = match src {
            None => None,
            Some(InputSrcSpec::RemoteUrl(u)) => Some(InputSrc::Remote(u)),
            Some(InputSrcSpec::FailoverInputs(v)) => Some(InputSrc::Failover(new_failovers(v))),
        };
        Input { id, key, endpoints, src, enabled }
    }
}

impl Restream {
    /// A new re-stream made after `s` (see [`restream_from`]).
    pub fn new(s: RestreamSpec) -> (r: Restream)
        ensures
            restream_from(r, s),
    {
        let RestreamSpec { id, key, label, input, outputs, max_files_in_playlist } = s;
        let id = match id {
            Some(x) => x,
            None => random_id(),
        };
        let playlist = Playlist { id: random_id(), queue: Vec::new(), currently_playing_file: None };
        Restream {
            id,
            key,
            label,
            input: Input::new(input),
            outputs: new_outputs(outputs),
            playlist,
            max_files_in_playlist,
        }
    }
}

/// Whether `key` is the key of a re-stream of `rs`, other than the
/// re-stream `except` where one is given.
pub open spec fn key_used(rs: Seq<Restream>, key: Seq<char>, except: Option<Id>) -> bool {
    exists|k: int|
        0 <= k < rs.len() && (#[trigger] rs[k]).key@ == key && (except matches Some(id) ==> rs[k].id != id)
}

/// Message of a re-stream key used twice.
pub open spec fn key_used_message(key: Seq<char>) -> Seq<char> {
    "Restream.key '"@ + key + "' is used already"@
}

/// What adding the re-stream `spec` does: an error, and nothing, where its
/// key is used already; else a new re-stream made after `spec` is
/// appended.
pub open spec fn restream_added(old: Seq<Restream>, new: Seq<Restream>, spec: RestreamSpec, r: Result<(), String>) -> bool {
    if key_used(old, spec.key@, None) {
        r matches Err(e) && e@ == key_used_message(spec.key@) && new == old
    } else {
        &&& r is Ok
        &&& new.len() == old.len() + 1
        &&& new.drop_last() == old
        &&& restream_from(new.last(), spec)
    }
}

/// What setting the re-stream `id` after `spec` does: nothing, and no
/// result, where there is no re-stream `id`; an error, and nothing, where
/// another re-stream has its key; else that re-stream takes the key, the
/// label and the limit of playlist files of `spec`, its input is set after
/// that of `spec` (see [`input_applied`]), and it keeps its identity,
/// outputs and playlist.
pub open spec fn restream_edited(
    old: Seq<Restream>,
    new: Seq<Restream>,
    id: Id,
    spec: RestreamSpec,
    r: Result<Option<()>, String>,
) -> bool {
    match first_index(old, is_restream(id)) {
        None => r == Ok::<Option<()>, String>(None) && new == old,
        Some(i) => if key_used(old, spec.key@, Some(id)) {
            r matches Err(e) && e@ == key_used_message(spec.key@) && new == old
        } else {
            &&& r == Ok::<Option<()>, String>(Some(()))
            &&& new == old.update(
                i,
                Restream {
                    key: new[i].key,
                    label: spec.label,
                    input: new[i].input,
                    max_files_in_playlist: spec.max_files_in_playlist,
                    ..old[i]
                },
            )
            &&& new[i].key@ == spec.key@
            &&& input_applied(old[i].input, spec.input, new[i].input)
        },
    }
}

/// Whether a re-stream of `rs` other than `except` has the key `key`.
fn find_key(rs: &Vec<Restream>, key: &String, except: Option<Id>) -> (r: bool)
    ensures
        r == key_used(rs@, key@, except),
{
    let mut k: usize = 0;
    while k < rs.len()
        invariant
            k <= rs@.len(),
            forall|j: int|
                0 <= j < k ==> !((#[trigger] rs@[j]).key@ == key@ && (except matches Some(id) ==> rs@[j].id != id)),
        decreases rs.len() - k,
    {
        let other = match except {
            Some(id) => rs[k].id != id,
            None => true,
        };
        if rs[k].key == *key && other {
            return true;
        }
        k = k + 1;
    }
    false
}

impl State {
    /// Adds a new re-stream made after `spec` (see [`restream_added`]).
    pub fn add_restream(&mut self, spec: RestreamSpec) -> (r: Result<(), String>)
        ensures
            restream_added(old(self).restreams@, final(self).restreams@, spec, r),
            only_restreams_changed(*old(self), *final(self)),
    {
        if find_key(&self.restreams, &spec.key, None) {
            return Err(join3("Restream.key '", spec.key.as_str(), "' is used already"));
        }
        let ghost before = self.restreams@;
        self.restreams.push(Restream::new(spec));
        assert(self.restreams@.drop_last() =~= before);
        Ok(())
    }

    /// Sets the re-stream `id` after `spec` (see [`restream_edited`]).
    pub fn edit_restream(&mut self, id: Id, spec: RestreamSpec) -> (r: Result<Option<()>, String>)
        ensures
            restream_edited(old(self).restreams@, final(self).restreams@, id, spec, r),
            only_restreams_changed(*old(self), *final(self)),
    {
        let i = match find_restream(&self.restreams, id) {
            Some(i) => i,
            None => return Ok(None),
        };
        if find_key(&self.restreams, &spec.key, Some(id)) {
            return Err(join3("Restream.key '", spec.key.as_str(), "' is used already"));
        }
        let ghost before = self.restreams@;
        let RestreamSpec { id: _, key, label, input, outputs: _, max_files_in_playlist } = spec;
        let mut r = self.restreams.remove(i);
        r.key = key;
        r.label = label;
        r.input = r.input.applied(input);
        r.max_files_in_playlist = max_files_in_playlist;
        self.restreams.insert(i, r);
        assert(self.restreams@ =~= before.update(i as int, r));
        Ok(Some(()))
    }

    /// Removes the first re-stream `id`; no result where there is none.
    pub fn remove_restream(&mut self, id: Id) -> (r: Option<()>)
        ensures
            match first_index(old(self).restreams@, is_restream(id)) {
                Some(i) => r is Some && final(self).restreams@ == old(self).restreams@.remove(i),
                None => r is None && final(self).restreams@ == old(self).restreams@,
            },
            only_restreams_changed(*old(self), *final(self)),
    {
        match find_restream(&self.restreams, id) {
            Some(i) => {
                let _ = self.restreams.remove(i);
                Some(())
            },
            None => None,
        }
    }
}

/// The answer of `set_restream` to what adding or editing gave: a key used
/// twice is a conflict, reported with its message.
pub open spec fn set_restream_answer(r: Result<Option<()>, String>, a: Result<Option<bool>, ApiError>) -> bool {
    match r {
        Ok(Some(_)) => a == Ok::<Option<bool>, ApiError>(Some(true)),
        Ok(None) => a == Ok::<Option<bool>, ApiError>(None),
        Err(m) => a matches Err(e) && is_error(e, "DUPLICATE_RESTREAM_KEY"@, 409, m@),
    }
}

/// What `set_restream` does with the re-stream asked for: it sets the
/// re-stream `id` where one is given (see [`restream_edited`]), else it adds
/// a new one (see [`restream_added`]); `r` is the outcome, with `Some` for a
/// re-stream added.
pub open spec fn restream_set(
    old: Seq<Restream>,
    new: Seq<Restream>,
    id: Option<Id>,
    spec: RestreamSpec,
    r: Result<Option<()>, String>,
) -> bool {
    match id {
        Some(rid) => restream_edited(old, new, rid, spec, r),
        None => exists|a: Result<(), String>|
            #[trigger] restream_added(old, new, spec, a) && r == match a {
                Ok(()) => Ok::<Option<()>, String>(Some(())),
                Err(e) => Err(e),
            },
    }
}

impl MutationsRoot {
    /// Sets a new re-stream, or, where `id` is given, updates that
    /// re-stream, after the re-stream asked for (see [`restream_spec_of`],
    /// [`restream_set`]); the file manager is told that the files may have
    /// changed, whatever the outcome. Answers no result where the re-stream
    /// `id` does not exist, else a conflict where the key is used, else
    /// `true`.
    pub fn set_restream(
        key: String,
        label: Option<String>,
        src: Option<String>,
        backup_inputs: Option<Vec<BackupInput>>,
        file_id: Option<FileId>,
        max_files_in_playlist: Option<u16>,
        with_hls: bool,
        id: Option<Id>,
        state: &mut State,
    ) -> (a: Result<Option<bool>, ApiError>)
        ensures
            only_restreams_and_commands_changed(*old(state), *final(state)),
            final(state).file_commands@ == old(state).file_commands@.push(FileCommand::ListOfFilesChanged),
            exists|spec: RestreamSpec, r: Result<Option<()>, String>|
                {
                    &&& #[trigger] restream_spec_of(
                        key@,
                        label,
                        src,
                        backup_inputs,
                        file_id,
                        max_files_in_playlist,
                        with_hls,
                        spec,
                    )
                    &&& restream_set(old(state).restreams@, final(state).restreams@, id, spec, r)
                    &&& #[trigger] set_restream_answer(r, a)
                },
    {
        let ghost old_restreams = state.restreams@;
        let spec = restream_spec(key, label, src, backup_inputs, file_id, max_files_in_playlist, with_hls);
        let ghost sp = spec;
        let r = match id {
            Some(rid) => state.edit_restream(rid, spec),
            None => {
                let added = state.add_restream(spec);
                proof {
                    assert(restream_added(old_restreams, state.restreams@, sp, added));
                }
                match added {
                    Ok(()) => Ok(Some(())),
                    Err(e) => Err(e),
                }
            },
        };
        state.file_commands.push(FileCommand::ListOfFilesChanged);
        let a = match r {
            Ok(Some(())) => Ok(Some(true)),
            Ok(None) => Ok(None),
            Err(m) => Err(ApiError::new("DUPLICATE_RESTREAM_KEY", CONFLICT, m)),
        };
        assert(set_restream_answer(r, a));
        assert(restream_set(old_restreams, state.restreams@, id, sp, r));
        a
    }

    /// Removes the re-stream `id`: `true`, or no result where it does not
    /// exist.
    pub fn remove_restream(id: Id, state: &mut State) -> (a: Option<bool>)
        ensures
            match first_index(old(state).restreams@, is_restream(id)) {
                Some(i) => a == Some(true) && final(state).restreams@ == old(state).restreams@.remove(i),
                None => a is None && final(state).restreams@ == old(state).restreams@,
            },
            only_restreams_changed(*old(state), *final(state)),
    {
        match state.remove_restream(id) {
            Some(()) => Some(true),
            None => None,
        }
    }
}

/// Whether the backup input `i` has the identity `id`.
pub open spec fn is_failover(id: Id) -> spec_fn(FailoverInput) -> bool {
    |i: FailoverInput| i.id == id
}

/// Where the input `id` of a re-stream stands: the main input, or a backup
/// input of its failover source at a position.
pub enum InputPlace {
    /// The main input.
    Main,
    /// The backup input at the given position.
    Backup(usize),
}

/// Where the input `id` of `r` stands: the main input where it has that
/// identity, else the first backup input that has it, if any.
pub open spec fn input_place(r: Restream, id: Id) -> Option<InputPlace> {
    if r.input.id == id {
        Some(InputPlace::Main)
    } else {
        match r.input.src {
            Some(InputSrc::Failover(v)) => match first_index(v@, is_failover(id)) {
                Some(k) => Some(InputPlace::Backup(k as usize)),
                None => None,
            },
            _ => None,
        }
    }
}

/// Whether the input at `p` of `r` is enabled.
pub open spec fn input_enabled(r: Restream, p: InputPlace) -> bool {
    match p {
        InputPlace::Main => r.input.enabled,
        InputPlace::Backup(k) => r.input.src->Some_0->Failover_0@[k as int].enabled,
    }
}

/// `new` is `r` with the input at `p` set `enabled`, all else unchanged.
pub open spec fn input_switched(r: Restream, new: Restream, p: InputPlace, enabled: bool) -> bool {
    match p {
        InputPlace::Main => new == Restream { input: Input { enabled, ..r.input }, ..r },
        InputPlace::Backup(k) => {
            let v = r.input.src->Some_0->Failover_0@;
            &&& new == Restream { input: Input { src: new.input.src, ..r.input }, ..r }
            &&& new.input.src matches Some(InputSrc::Failover(w))
            &&& w@ == v.update(k as int, FailoverInput { enabled, ..v[k as int] })
        },
    }
}

/// Finds the backup input `id` among `v`.
pub(crate) fn find_failover(v: &Vec<FailoverInput>, id: Id) -> (r: Option<usize>)
    ensures
        r matches Some(k) ==> k < v@.len(),
        match r {
            Some(k) => first_index(v@, is_failover(id)) == Some(k as int),
            None => first_index(v@, is_failover(id)) is None,
        },
{
    let mut k: usize = 0;
    while k < v.len()
        invariant
            k <= v@.len(),
            forall|j: int| 0 <= j < k ==> !is_failover(id)(#[trigger] v@[j]),
        decreases v.len() - k,
    {
        if v[k].id == id {
            proof {
                lemma_first_index(v@, is_failover(id), k as int);
            }
            return Some(k);
        }
        k = k + 1;
    }
    proof {
        lemma_first_index(v@, is_failover(id), k as int);
    }
    None
}

/// Finds where the input `id` of `r` stands (see [`input_place`]).
pub(crate) fn locate_input(r: &Restream, id: Id) -> (p: Option<InputPlace>)
    ensures
        p == input_place(*r, id),
        p matches Some(InputPlace::Backup(k)) ==> r.input.src matches Some(InputSrc::Failover(v)) && k < v@.len(),
{
    if r.input.id == id {
        return Some(InputPlace::Main);
    }
    match &r.input.src {
        Some(InputSrc::Failover(v)) => match find_failover(v, id) {
            Some(k) => Some(InputPlace::Backup(k)),
            None => None,
        },
        _ => None,
    }
}

/// Sets whether the input at `p` of `r` is enabled; tells whether it was
/// not so.
fn switch_input(r: &mut Restream, p: InputPlace, enabled: bool) -> (changed: bool)
    requires
        p matches InputPlace::Backup(k) ==> old(r).input.src matches Some(InputSrc::Failover(v)) && k < v@.len(),
    ensures
        changed == (input_enabled(*old(r), p) != enabled),
        input_switched(*old(r), *final(r), p, enabled),
{
    match p {
        InputPlace::Main => {
            let changed = r.input.enabled != enabled;
            r.input.enabled = enabled;
            changed
        },
        InputPlace::Backup(k) => {
            let src = r.input.src.take();
            match src {
                Some(InputSrc::Failover(mut v)) => {
                    let ghost v0 = v@;
                    let mut i = v.remove(k);
                    let changed = i.enabled != enabled;
                    i.enabled = enabled;
                    v.insert(k, i);
                    assert(v@ =~= v0.update(k as int, i));
                    r.input.src = Some(InputSrc::Failover(v));
                    changed
                },
                other => {
                    r.input.src = other;
                    false
                },
            }
        },
    }
}

/// What switching the input `id` of the re-stream `rid` does: whether it
/// changes, and the input switched in place; no result, and nothing, where
/// either does not exist.
pub open spec fn input_switched_in(
    old: Seq<Restream>,
    new: Seq<Restream>,
    rid: Id,
    id: Id,
    enabled: bool,
    r: Option<bool>,
) -> bool {
    match first_index(old, is_restream(rid)) {
        Some(i) => match input_place(old[i], id) {
            Some(p) => {
                &&& r == Some(input_enabled(old[i], p) != enabled)
                &&& new.len() == old.len()
                &&& forall|j: int| 0 <= j < old.len() && j != i ==> new[j] == old[j]
                &&& input_switched(old[i], new[i], p, enabled)
            },
            None => r is None && new == old,
        },
        None => r is None && new == old,
    }
}

/// Switches the input `id` of the re-stream `rid`.
fn switch_input_in(rs: &mut Vec<Restream>, rid: Id, id: Id, enabled: bool) -> (r: Option<bool>)
    ensures
        input_switched_in(old(rs)@, final(rs)@, rid, id, enabled, r),
{
    let i = match find_restream(rs, rid) {
        Some(i) => i,
        None => return None,
    };
    let p = match locate_input(&rs[i], id) {
        Some(p) => p,
        None => return None,
    };
    let ghost before = rs@;
    let mut r = rs.remove(i);
    let changed = switch_input(&mut r, p, enabled);
    rs.insert(i, r);
    assert(rs@ =~= before.update(i as int, r));
    Some(changed)
}

impl State {
    /// Enables the input `id` of the re-stream `restream_id` (see
    /// [`input_switched_in`]).
    pub fn enable_input(&mut self, id: Id, restream_id: Id) -> (r: Option<bool>)
        ensures
            input_switched_in(old(self).restreams@, final(self).restreams@, restream_id, id, true, r),
            only_restreams_changed(*old(self), *final(self)),
    {
        switch_input_in(&mut self.restreams, restream_id, id, true)
    }

    /// Disables the input `id` of the re-stream `restream_id` (see
    /// [`input_switched_in`]).
    pub fn disable_input(&mut self, id: Id, restream_id: Id) -> (r: Option<bool>)
        ensures
            input_switched_in(old(self).restreams@, final(self).restreams@, restream_id, id, false, r),
            only_restreams_changed(*old(self), *final(self)),
    {
        switch_input_in(&mut self.restreams, restream_id, id, false)
    }

    /// Enables the re-stream `id`, that is its main input: whether it was
    /// disabled, or no result where it does not exist.
    pub fn enable_restream(&mut self, id: Id) -> (r: Option<bool>)
        ensures
            match first_index(old(self).restreams@, is_restream(id)) {
                Some(i) => input_switched_in(
                    old(self).restreams@,
                    final(self).restreams@,
                    id,
                    old(self).restreams@[i].input.id,
                    true,
                    r,
                ),
                None => r is None && final(self).restreams@ == old(self).restreams@,
            },
            only_restreams_changed(*old(self), *final(self)),
    {
        match find_restream(&self.restreams, id) {
            Some(i) => {
                let input_id = self.restreams[i].input.id;
                switch_input_in(&mut self.restreams, id, input_id, true)
            },
            None => None,
        }
    }

    /// Disables the re-stream `id`, that is its main input: whether it was
    /// enabled, or no result where it does not exist.
    pub fn disable_restream(&mut self, id: Id) -> (r: Option<bool>)
        ensures
            match first_index(old(self).restreams@, is_restream(id)) {
                Some(i) => input_switched_in(
                    old(self).restreams@,
                    final(self).restreams@,
                    id,
                    old(self).restreams@[i].input.id,
                    false,
                    r,
                ),
                None => r is None && final(self).restreams@ == old(self).restreams@,
            },
            only_restreams_changed(*old(self), *final(self)),
    {
        match find_restream(&self.restreams, id) {
            Some(i) => {
                let input_id = self.restreams[i].input.id;
                switch_input_in(&mut self.restreams, id, input_id, false)
            },
            None => None,
        }
    }
}

impl MutationsRoot {
    /// Enables the re-stream `id` (see [`State::enable_restream`]).
    pub fn enable_restream(id: Id, state: &mut State) -> (a: Option<bool>)
        ensures
            match first_index(old(state).restreams@, is_restream(id)) {
                Some(i) => input_switched_in(
                    old(state).restreams@,
                    final(state).restreams@,
                    id,
                    old(state).restreams@[i].input.id,
                    true,
                    a,
                ),
                None => a is None && final(state).restreams@ == old(state).restreams@,
            },
            only_restreams_changed(*old(state), *final(state)),
    {
        state.enable_restream(id)
    }

    /// Disables the re-stream `id` (see [`State::disable_restream`]).
    pub fn disable_restream(id: Id, state: &mut State) -> (a: Option<bool>)
        ensures
            match first_index(old(state).restreams@, is_restream(id)) {
                Some(i) => input_switched_in(
                    old(state).restreams@,
                    final(state).restreams@,
                    id,
                    old(state).restreams@[i].input.id,
                    false,
                    a,
                ),
                None => a is None && final(state).restreams@ == old(state).restreams@,
            },
            only_restreams_changed(*old(state), *final(state)),
    {
        state.disable_restream(id)
    }

    /// Enables the input `id` of the re-stream `restream_id` (see
    /// [`input_switched_in`]).
    pub fn enable_input(id: Id, restream_id: Id, state: &mut State) -> (a: Option<bool>)
        ensures
            input_switched_in(old(state).restreams@, final(state).restreams@, restream_id, id, true, a),
            only_restreams_changed(*old(state), *final(state)),
    {
        state.enable_input(id, restream_id)
    }

    /// Disables the input `id` of the re-stream `restream_id` (see
    /// [`input_switched_in`]).
    pub fn disable_input(id: Id, restream_id: Id, state: &mut State) -> (a: Option<bool>)
        ensures
            input_switched_in(old(state).restreams@, final(state).restreams@, restream_id, id, false, a),
            only_restreams_changed(*old(state), *final(state)),
    {
        state.disable_input(id, restream_id)
    }
}

/// A re-stream added holds its key: adding another re-stream with that key
/// is refused.
pub proof fn lemma_added_key_used(old: Seq<Restream>, new: Seq<Restream>, spec: RestreamSpec, other: RestreamSpec)
    requires
        restream_added(old, new, spec, Ok(())),
        other.key@ == spec.key@,
    ensures
        key_used(new, other.key@, None),
        forall|n: Seq<Restream>, r: Result<(), String>|
            #[trigger] restream_added(new, n, other, r) ==> r is Err && n == new,
{
    assert(new[new.len() - 1].key@ == spec.key@);
}

/// A copy of an optional text.
fn copy_text(s: &Option<String>) -> (r: Option<String>)
    ensures
        r.deep_view() == s.deep_view(),
{
    match s {
        Some(t) => Some(t.clone()),
        None => None,
    }
}

/// A copy of an optional file identity.
fn copy_file_id(f: &Option<FileId>) -> (r: Option<FileId>)
    ensures
        match (r, *f) {
            (Some(a), Some(b)) => a@ == b@,
            (None, None) => true,
            _ => false,
        },
{
    match f {
        Some(x) => Some(x.duplicate()),
        None => None,
    }
}

/// `s` describes the endpoint `e`.
pub open spec fn endpoint_exported(e: InputEndpoint, s: InputEndpointSpec) -> bool {
    &&& s.kind == e.kind
    &&& s.label.deep_view() == e.label.deep_view()
    &&& match (s.file_id, e.file_id) {
        (Some(a), Some(b)) => a@ == b@,
        (None, None) => true,
        _ => false,
    }
}

/// Each of `ss` describes the endpoint at its position in `es`.
pub open spec fn endpoints_exported(es: Seq<InputEndpoint>, ss: Seq<InputEndpointSpec>) -> bool {
    ss.len() == es.len() && forall|k: int| 0 <= k < es.len() ==> endpoint_exported(es[k], #[trigger] ss[k])
}

/// `s` describes the backup input `i`.
pub open spec fn failover_exported(i: FailoverInput, s: FailoverInputSpec) -> bool {
    &&& s.id == Some(i.id)
    &&& s.key@ == i.key@
    &&& endpoints_exported(i.endpoints@, s.endpoints@)
    &&& s.src.deep_view() == i.src.deep_view()
    &&& s.enabled == i.enabled
}

/// `s` describes the main input `i`, with its identity.
pub open spec fn input_exported(i: Input, s: InputSpec) -> bool {
    &&& s.id == Some(i.id)
    &&& s.key@ == i.key@
    &&& endpoints_exported(i.endpoints@, s.endpoints@)
    &&& s.enabled == i.enabled
    &&& match i.src {
        None => s.src is None,
        Some(InputSrc::Remote(u)) => s.src matches Some(InputSrcSpec::RemoteUrl(v)) && v@ == u@,
        Some(InputSrc::Failover(w)) => s.src matches Some(InputSrcSpec::FailoverInputs(v)) && v@.len() == w@.len()
            && forall|k: int| 0 <= k < w@.len() ==> failover_exported(w@[k], #[trigger] v@[k]),
    }
}

/// `s` describes the mixin `m`.
pub open spec fn mixin_exported(m: Mixin, s: MixinSpec) -> bool {
    s.src@ == m.src@ && s.volume == m.volume && s.delay == m.delay && s.sidechain == m.sidechain
}

/// `s` describes the output `o`, with its identity.
pub open spec fn output_exported(o: Output, s: OutputSpec) -> bool {
    &&& s.id == Some(o.id)
    &&& s.dst@ == o.dst@
    &&& s.label.deep_view() == o.label.deep_view()
    &&& s.preview_url.deep_view() == o.preview_url.deep_view()
    &&& s.volume == o.volume
    &&& s.enabled == o.enabled
    &&& s.mixins@.len() == o.mixins@.len()
    &&& forall|k: int| 0 <= k < o.mixins@.len() ==> mixin_exported(o.mixins@[k], #[trigger] s.mixins@[k])
}

/// `s` describes the re-stream `r`, with the identities of the re-stream,
/// its main input and its outputs.
pub open spec fn restream_exported(r: Restream, s: RestreamSpec) -> bool {
    &&& s.id == Some(r.id)
    &&& s.key@ == r.key@
    &&& s.label.deep_view() == r.label.deep_view()
    &&& input_exported(r.input, s.input)
    &&& s.outputs@.len() == r.outputs@.len()
    &&& forall|k: int| 0 <= k < r.outputs@.len() ==> output_exported(r.outputs@[k], #[trigger] s.outputs@[k])
    &&& s.max_files_in_playlist == r.max_files_in_playlist
}

/// Describes the endpoints `es`.
fn export_endpoints(es: &Vec<InputEndpoint>) -> (ss: Vec<InputEndpointSpec>)
    ensures
        endpoints_exported(es@, ss@),
{
    let mut ss: Vec<InputEndpointSpec> = Vec::new();
    let mut k: usize = 0;
    while k < es.len()
        invariant
            k <= es@.len(),
            ss@.len() == k,
            forall|j: int| 0 <= j < k ==> endpoint_exported(es@[j], #[trigger] ss@[j]),
        decreases es.len() - k,
    {
        let e = &es[k];
        ss.push(InputEndpointSpec { kind: e.kind, label: copy_text(&e.label), file_id: copy_file_id(&e.file_id) });
        k = k + 1;
    }
    ss
}

impl Output {
    /// Describes this output, with its identity.
    pub fn export(&self) -> (s: OutputSpec)
        ensures
            output_exported(*self, s),
    {
        let mut mixins: Vec<MixinSpec> = Vec::new();
        let mut k: usize = 0;
        while k < self.mixins.len()
            invariant
                k <= self.mixins@.len(),
                mixins@.len() == k,
                forall|j: int| 0 <= j < k ==> mixin_exported(self.mixins@[j], #[trigger] mixins@[j]),
            decreases self.mixins.len() - k,
        {
            let m = &self.mixins[k];
            mixins.push(MixinSpec { src: m.src.clone(), volume: m.volume, delay: m.delay, sidechain: m.sidechain });
            k = k + 1;
        }
        OutputSpec {
            id: Some(self.id),
            dst: self.dst.clone(),
            label: copy_text(&self.label),
            preview_url: copy_text(&self.preview_url),
            volume: self.volume,
            mixins,
            enabled: self.enabled,
        }
    }
}

impl Input {
    /// Describes this main input, with its identity.
    pub fn export(&self) -> (s: InputSpec)
        ensures
            input_exported(*self, s),
    {
        let src = match &self.src {
            None => None,
            Some(InputSrc::Remote(u)) => Some(InputSrcSpec::RemoteUrl(u.clone())),
            Some(InputSrc::Failover(w)) => {
                let mut v: Vec<FailoverInputSpec> = Vec::new();
                let mut k: usize = 0;
                while k < w.len()
                    invariant
                        k <= w@.len(),
                        v@.len() == k,
                        forall|j: int| 0 <= j < k ==> failover_exported(w@[j], #[trigger] v@[j]),
                    decreases w.len() - k,
                {
                    let i = &w[k];
                    v.push(
                        FailoverInputSpec {
                            id: Some(i.id),
                            key: i.key.clone(),
                            endpoints: export_endpoints(&i.endpoints),
                            src: copy_text(&i.src),
                            enabled: i.enabled,
                        },
                    );
                    k = k + 1;
                }
                Some(InputSrcSpec::FailoverInputs(v))
            },
        };
        InputSpec {
            id: Some(self.id),
            key: self.key.clone(),
            endpoints: export_endpoints(&self.endpoints),
            src,
            enabled: self.enabled,
        }
    }
}

impl Restream {
    /// Describes this re-stream, with the identities of the re-stream, its
    /// main input and its outputs; its playlist and the statuses are not
    /// part of the description.
    pub fn export(&self) -> (s: RestreamSpec)
        ensures
            restream_exported(*self, s),
    {
        let mut outputs: Vec<OutputSpec> = Vec::new();
        let mut k: usize = 0;
        while k < self.outputs.len()
            invariant
                k <= self.outputs@.len(),
                outputs@.len() == k,
                forall|j: int| 0 <= j < k ==> output_exported(self.outputs@[j], #[trigger] outputs@[j]),
            decreases self.outputs.len() - k,
        {
            outputs.push(self.outputs[k].export());
            k = k + 1;
        }
        RestreamSpec {
            id: Some(self.id),
            key: self.key.clone(),
            label: copy_text(&self.label),
            input: self.input.export(),
            outputs,
            max_files_in_playlist: self.max_files_in_playlist,
        }
    }
}

/// Whether the re-stream `r` is exported when `ids` are asked for: all are
/// where none is named.
pub open spec fn exported_by(ids: Seq<u128>, r: Restream) -> bool {
    ids.len() == 0 || ids.contains(r.id)
}

impl QueriesRoot {
    /// Describes the server: its settings, and the re-streams named by
    /// `ids`, all where none is named, in their order; nothing where no
    /// re-stream is described.
    pub fn export(ids: &Vec<u128>, state: &State) -> (r: Option<Spec>)
        ensures
            ({
                let chosen = state.restreams@.filter(|x: Restream| exported_by(ids@, x));
                match r {
                    Some(sp) => {
                        &&& chosen.len() > 0
                        &&& sp.settings == Some(settings_spec_of(state.settings))
                        &&& sp.restreams@.len() == chosen.len()
                        &&& forall|k: int|
                            0 <= k < chosen.len() ==> restream_exported(chosen[k], #[trigger] sp.restreams@[k])
                    },
                    None => chosen.len() == 0,
                }
            }),
    {
        let ghost pred = |x: Restream| exported_by(ids@, x);
        let ghost rs = state.restreams@;
        let mut v: Vec<RestreamSpec> = Vec::new();
        let mut k: usize = 0;
        while k < state.restreams.len()
            invariant
                k <= rs.len(),
                rs == state.restreams@,
                pred == (|x: Restream| exported_by(ids@, x)),
                v@.len() == rs.take(k as int).filter(pred).len(),
                forall|j: int|
                    0 <= j < v@.len() ==> restream_exported(rs.take(k as int).filter(pred)[j], #[trigger] v@[j]),
            decreases state.restreams.len() - k,
        {
            let r = &state.restreams[k];
            proof {
                rs.take(k as int).lemma_filter_push(rs[k as int], pred);
                assert(rs.take(k as int + 1) =~= rs.take(k as int).push(rs[k as int]));
            }
            let mut wanted = ids.len() == 0;
            let mut m: usize = 0;
            while m < ids.len()
                invariant
                    m <= ids@.len(),
                    wanted == (ids@.len() == 0 || exists|q: int| 0 <= q < m && ids@[q] == r.id),
                decreases ids.len() - m,
            {
                if ids[m] == r.id {
                    wanted = true;
                }
                m = m + 1;
            }
            proof {
                if ids@.contains(r.id) {
                    let q = choose|q: int| 0 <= q < ids@.len() && ids@[q] == r.id;
                }
            }
            if wanted {
                v.push(r.export());
            }
            k = k + 1;
        }
        assert(rs.take(rs.len() as int) =~= rs);
        if v.len() == 0 {
            None
        } else {
            Some(Spec { settings: Some(state.settings.export()), restreams: v })
        }
    }
}

/// A re-stream made anew after the description of a re-stream has the
/// identities, key, label and limit of playlist files of that re-stream,
/// its main input's key, source kind and state, and its outputs'
/// identities, destinations, volumes and mixins: exporting and importing
/// gives the re-stream back, but for statuses, the playlist and the
/// identities of endpoints and mixins.
pub proof fn lemma_export_then_new(r: Restream, s: RestreamSpec, n: Restream)
    requires
        restream_exported(r, s),
        restream_from(n, s),
    ensures
        n.id == r.id,
        n.key@ == r.key@,
        n.label.deep_view() == r.label.deep_view(),
        n.max_files_in_playlist == r.max_files_in_playlist,
        n.input.id == r.input.id,
        n.input.key@ == r.input.key@,
        n.input.enabled == r.input.enabled,
        n.input.endpoints@.len() == r.input.endpoints@.len(),
        n.outputs@.len() == r.outputs@.len(),
        forall|k: int|
            0 <= k < r.outputs@.len() ==> {
                &&& (#[trigger] n.outputs@[k]).id == r.outputs@[k].id
                &&& n.outputs@[k].dst@ == r.outputs@[k].dst@
                &&& n.outputs@[k].volume == r.outputs@[k].volume
                &&& n.outputs@[k].enabled == r.outputs@[k].enabled
                &&& n.outputs@[k].mixins@.len() == r.outputs@[k].mixins@.len()
            },
{
    assert forall|k: int| 0 <= k < r.outputs@.len() implies {
        &&& (#[trigger] n.outputs@[k]).id == r.outputs@[k].id
        &&& n.outputs@[k].dst@ == r.outputs@[k].dst@
        &&& n.outputs@[k].volume == r.outputs@[k].volume
        &&& n.outputs@[k].enabled == r.outputs@[k].enabled
        &&& n.outputs@[k].mixins@.len() == r.outputs@[k].mixins@.len()
    } by {
        assert(output_exported(r.outputs@[k], s.outputs@[k]));
        assert(output_from(n.outputs@[k], s.outputs@[k]));
    }
}

} // verus!
