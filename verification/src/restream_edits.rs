//! Setting a re-stream that exists is idempotent: setting it again after
//! the same request leaves it as the first time did.

use vstd::prelude::*;

use crate::client_api::is_restream;
use crate::input_apply::{inputs_alike, lemma_input_applied_again, same_input};
use crate::restreams::{
    backups_of, failover_spec_is, key_used, restream_edited, restream_set, restream_spec_of, set_restream_answer,
};
use crate::seq_util::{first_index, lemma_first_index_same, lemma_first_index_some};
use crate::spec::{BackupInput, InputSrcSpec, RestreamSpec};
use crate::api_error::ApiError;
use crate::file_manager::FileId;
use crate::state::{Id, InputEndpointKind, Restream};

verus! {

/// Whether the re-streams `a` and `b` are the same: equal but for their
/// keys, which write the same, and their main inputs, which are the same
/// (see [`same_input`]).
pub open spec fn same_restream(a: Restream, b: Restream) -> bool {
    &&& b == Restream { key: b.key, input: b.input, ..a }
    &&& b.key@ == a.key@
    &&& same_input(a.input, b.input)
}

/// Whether the re-streams `a` and `b` are the same, one by one.
pub open spec fn same_restreams(a: Seq<Restream>, b: Seq<Restream>) -> bool {
    a.len() == b.len() && forall|j: int| 0 <= j < a.len() ==> same_restream(#[trigger] a[j], b[j])
}

/// Whether the re-streams `s1` and `s2` ask for the same key, label, limit
/// of playlist files and main input.
pub open spec fn restream_specs_alike(s1: RestreamSpec, s2: RestreamSpec) -> bool {
    &&& s1.key@ == s2.key@
    &&& s1.label == s2.label
    &&& s1.max_files_in_playlist == s2.max_files_in_playlist
    &&& inputs_alike(s1.input, s2.input)
}

/// Whether two outcomes of setting a re-stream are alike: the same result,
/// or errors of the same text.
pub open spec fn outcomes_alike(r1: Result<Option<()>, String>, r2: Result<Option<()>, String>) -> bool {
    match (r1, r2) {
        (Ok(x), Ok(y)) => x == y,
        (Err(e1), Err(e2)) => e1@ == e2@,
        _ => false,
    }
}

/// Setting the re-stream `id` a second time after a request alike (see
/// [`restream_specs_alike`]) gives the same outcome and leaves the
/// re-streams the same.
pub proof fn lemma_edit_again(
    s0: Seq<Restream>,
    s1: Seq<Restream>,
    s2: Seq<Restream>,
    id: Id,
    spec1: RestreamSpec,
    spec2: RestreamSpec,
    r1: Result<Option<()>, String>,
    r2: Result<Option<()>, String>,
)
    requires
        restream_edited(s0, s1, id, spec1, r1),
        restream_edited(s1, s2, id, spec2, r2),
        restream_specs_alike(spec1, spec2),
    ensures
        outcomes_alike(r1, r2),
        same_restreams(s1, s2),
{
    match first_index(s0, is_restream(id)) {
        None => {
            assert(same_restreams(s1, s2));
        },
        Some(i) => {
            lemma_first_index_some(s0, is_restream(id));
            if key_used(s0, spec1.key@, Some(id)) {
                assert(same_restreams(s1, s2));
            } else {
                assert(s1[i].id == s0[i].id);
                assert(!key_used(s1, spec2.key@, Some(id))) by {
                    if key_used(s1, spec2.key@, Some(id)) {
                        let k = choose|k: int|
                            0 <= k < s1.len() && (#[trigger] s1[k]).key@ == spec2.key@ && s1[k].id != id;
                        if k != i {
                            assert(s1[k] == s0[k]);
                        }
                    }
                }
                assert forall|j: int| 0 <= j < s0.len() implies is_restream(id)(#[trigger] s0[j]) == is_restream(
                    id,
                )(s1[j]) by {
                    if j != i {
                        assert(s1[j] == s0[j]);
                    }
                }
                lemma_first_index_same(s0, is_restream(id), s1, is_restream(id));
                lemma_input_applied_again(s0[i].input, spec1.input, s1[i].input, spec2.input, s2[i].input);
                assert forall|j: int| 0 <= j < s1.len() implies same_restream(#[trigger] s1[j], s2[j]) by {
                    if j != i {
                        assert(s2[j] == s1[j]);
                    }
                }
            }
        },
    }
}

/// Setting the re-stream `id` twice with the same arguments is idempotent:
/// the second time answers as the first did and leaves the re-streams the
/// same.
pub proof fn lemma_set_restream_idempotent(
    s0: Seq<Restream>,
    s1: Seq<Restream>,
    s2: Seq<Restream>,
    key: Seq<char>,
    label: Option<String>,
    src: Option<String>,
    backup_inputs: Option<Vec<BackupInput>>,
    file_id: Option<FileId>,
    max_files_in_playlist: Option<u16>,
    with_hls: bool,
    id: Id,
    a1: Result<Option<bool>, ApiError>,
    a2: Result<Option<bool>, ApiError>,
)
    requires
        exists|spec: RestreamSpec, r: Result<Option<()>, String>|
            {
                &&& #[trigger] restream_spec_of(
                    key,
                    label,
                    src,
                    backup_inputs,
                    file_id,
                    max_files_in_playlist,
                    with_hls,
                    spec,
                )
                &&& restream_set(s0, s1, Some(id), spec, r)
                &&& #[trigger] set_restream_answer(r, a1)
            },
        exists|spec: RestreamSpec, r: Result<Option<()>, String>|
            {
                &&& #[trigger] restream_spec_of(
                    key,
                    label,
                    src,
                    backup_inputs,
                    file_id,
                    max_files_in_playlist,
                    with_hls,
                    spec,
                )
                &&& restream_set(s1, s2, Some(id), spec, r)
                &&& #[trigger] set_restream_answer(r, a2)
            },
    ensures
        a1 is Ok ==> a2 == a1,
        a1 is Err ==> a2 is Err,
        same_restreams(s1, s2),
{
    let (spec1, r1) = choose|spec: RestreamSpec, r: Result<Option<()>, String>|
        {
            &&& #[trigger] restream_spec_of(
                key,
                label,
                src,
                backup_inputs,
                file_id,
                max_files_in_playlist,
                with_hls,
                spec,
            )
            &&& restream_set(s0, s1, Some(id), spec, r)
            &&& #[trigger] set_restream_answer(r, a1)
        };
    let (spec2, r2) = choose|spec: RestreamSpec, r: Result<Option<()>, String>|
        {
            &&& #[trigger] restream_spec_of(
                key,
                label,
                src,
                backup_inputs,
                file_id,
                max_files_in_playlist,
                with_hls,
                spec,
            )
            &&& restream_set(s1, s2, Some(id), spec, r)
            &&& #[trigger] set_restream_answer(r, a2)
        };
    lemma_specs_alike(key, label, src, backup_inputs, file_id, max_files_in_playlist, with_hls, spec1, spec2);
    lemma_edit_again(s0, s1, s2, id, spec1, spec2, r1, r2);
}

/// Two re-streams that `set_restream` asks for with the same arguments ask
/// for the same.
proof fn lemma_specs_alike(
    key: Seq<char>,
    label: Option<String>,
    src: Option<String>,
    backup_inputs: Option<Vec<BackupInput>>,
    file_id: Option<FileId>,
    max_files_in_playlist: Option<u16>,
    with_hls: bool,
    spec1: RestreamSpec,
    spec2: RestreamSpec,
)
    requires
        restream_spec_of(key, label, src, backup_inputs, file_id, max_files_in_playlist, with_hls, spec1),
        restream_spec_of(key, label, src, backup_inputs, file_id, max_files_in_playlist, with_hls, spec2),
    ensures
        restream_specs_alike(spec1, spec2),
{
    let n = backups_of(backup_inputs).len();
    let b = backups_of(backup_inputs);
    assert(spec1.input.endpoints@ =~= spec2.input.endpoints@);
    match (spec1.input.src, spec2.input.src) {
        (Some(InputSrcSpec::FailoverInputs(v1)), Some(InputSrcSpec::FailoverInputs(v2))) => {
            assert forall|k: int| 0 <= k < v1@.len() implies {
                &&& (#[trigger] v1@[k]).key@ == v2@[k].key@
                &&& v1@[k].endpoints@ == v2@[k].endpoints@
                &&& v1@[k].src == v2@[k].src
                &&& v1@[k].enabled == v2@[k].enabled
            } by {
                if 1 <= k <= n {
                    assert(failover_spec_is(v1@[1 + (k - 1)], b[k - 1].key@, InputEndpointKind::Rtmp, None, b[k - 1].src));
                    assert(failover_spec_is(v2@[1 + (k - 1)], b[k - 1].key@, InputEndpointKind::Rtmp, None, b[k - 1].src));
                }
                assert(v1@[k].endpoints@ =~= v2@[k].endpoints@);
            }
        },
        _ => {},
    }
}

} // verus!
