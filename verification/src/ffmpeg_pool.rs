//! The FFmpeg processes the re-streams need: for each re-stream, the file
//! its playlist plays, the pulls of its backup and main inputs, and the
//! re-streams to its outputs.

use vstd::prelude::*;

use crate::ffmpeg::{
    endpoint_rtmp_url, hls_options, input_kind, kind_dst, kind_src, is_ready_to_serve, opt_kind, pool_view, ready_to_serve, rtmp_url,
    CopyRestreamer, KindView, RestreamerKind, TranscodingOptions, TranscodingRestreamer,
};
use crate::file_manager::{files_view, LocalFileInfo, LocalFileView};
use crate::seq_util::{first_index, lemma_first_index};
use crate::state::{FailoverInput, Input, InputEndpoint, InputEndpointKind, InputSrc, Output, Restream, Status};
use crate::url_util::{is_absolute, joined_path, parsed_url, path_url, scheme};

verus! {

/// Whether a backup input can serve a live stream: one of its RTMP
/// endpoints is online.
pub open spec fn failover_ready(i: FailoverInput) -> bool {
    exists|e: int| 0 <= e < i.endpoints@.len() && i.endpoints@[e].kind == InputEndpointKind::Rtmp
        && i.endpoints@[e].status == Status::Online
}

/// The process an endpoint of a backup input needs, as for a main input
/// pulling from its URL (see [`input_kind`]): none if the input is
/// disabled; for an RTMP endpoint, a copy of the input's URL, if it has
/// one; for an HLS endpoint, if the input can serve, a transcoding of its
/// RTMP stream; for a file endpoint, none.
pub open spec fn failover_input_kind(i: FailoverInput, e: InputEndpoint, key: Seq<char>) -> Option<KindView> {
    if !i.enabled {
        None
    } else {
        match e.kind {
            InputEndpointKind::Rtmp => match i.src {
                Some(u) => Some(KindView::Copy(e.id, u@, rtmp_url(e.kind, key, i.key@))),
                None => None,
            },
            InputEndpointKind::Hls => if failover_ready(i) {
                Some(
                    KindView::Transcoding(
                        e.id,
                        rtmp_url(InputEndpointKind::Rtmp, key, i.key@),
                        rtmp_url(e.kind, key, i.key@),
                        hls_options(),
                    ),
                )
            } else {
                None
            },
            InputEndpointKind::File => None,
        }
    }
}

/// Whether a backup input can serve a live stream.
fn is_failover_ready(i: &FailoverInput) -> (r: bool)
    ensures
        r == failover_ready(*i),
{
    let mut e: usize = 0;
    while e < i.endpoints.len()
        invariant
            e <= i.endpoints@.len(),
            forall|m: int| 0 <= m < e ==> !(i.endpoints@[m].kind == InputEndpointKind::Rtmp
                && #[trigger] i.endpoints@[m].status == Status::Online),
        decreases i.endpoints.len() - e,
    {
        if i.endpoints[e].kind == InputEndpointKind::Rtmp && i.endpoints[e].status == Status::Online {
            return true;
        }
        e = e + 1;
    }
    false
}

impl RestreamerKind {
    /// The process an endpoint of a backup input needs (see
    /// [`failover_input_kind`]).
    pub fn from_failover_input(i: &FailoverInput, e: &InputEndpoint, key: &str) -> (r: Option<RestreamerKind>)
        ensures
            opt_kind(r) == failover_input_kind(*i, *e, key@),
    {
        if !i.enabled {
            return None;
        }
        match e.kind {
            InputEndpointKind::Rtmp => match &i.src {
                Some(u) => Some(
                    RestreamerKind::Copy(
                        CopyRestreamer {
                            id: e.id,
                            from_url: u.clone(),
                            to_url: endpoint_rtmp_url(e.kind, key, i.key.as_str()),
                        },
                    ),
                ),
                None => None,
            },
            InputEndpointKind::Hls => {
                if !is_failover_ready(i) {
                    return None;
                }
                Some(
                    RestreamerKind::Transcoding(
                        TranscodingRestreamer {
                            id: e.id,
                            from_url: endpoint_rtmp_url(InputEndpointKind::Rtmp, key, i.key.as_str()),
                            to_url: endpoint_rtmp_url(e.kind, key, i.key.as_str()),
                            options: TranscodingOptions {
                                vcodec: Some(String::from_str("libx264")),
                                vprofile: Some(String::from_str("baseline")),
                                vpreset: Some(String::from_str("superfast")),
                                acodec: Some(String::from_str("libfdk_aac")),
                                maxrate: None,
                                bufsize: None,
                                ar: None,
                                fps: None,
                                tune: None,
                            },
                        },
                    ),
                )
            },
            InputEndpointKind::File => None,
        }
    }
}

/// `v` with the process `(id, k)` appended, where one is needed.
pub open spec fn with_process(v: Seq<(u128, KindView)>, id: u128, k: Option<KindView>) -> Seq<(u128, KindView)> {
    match k {
        Some(x) => v.push((id, x)),
        None => v,
    }
}

/// Appends the process `(id, k)`, where one is needed.
fn push_process(v: &mut Vec<(u128, RestreamerKind)>, id: u128, k: Option<RestreamerKind>)
    ensures
        pool_view(final(v)@) == with_process(pool_view(old(v)@), id, opt_kind(k)),
{
    match k {
        Some(x) => {
            v.push((id, x));
            assert(pool_view(v@) =~= pool_view(old(v)@).push((id, x@)));
        },
        None => {},
    }
}

/// Processes the endpoints `es` of the backup input `i` need, in order.
pub open spec fn failover_endpoint_processes(i: FailoverInput, es: Seq<InputEndpoint>, key: Seq<char>) -> Seq<
    (u128, KindView),
>
    decreases es.len(),
{
    if es.len() == 0 {
        seq![]
    } else {
        with_process(
            failover_endpoint_processes(i, es.drop_last(), key),
            es.last().id,
            failover_input_kind(i, es.last(), key),
        )
    }
}

/// Processes the backup inputs `v` need, input by input, in order.
pub open spec fn failover_processes(v: Seq<FailoverInput>, key: Seq<char>) -> Seq<(u128, KindView)>
    decreases v.len(),
{
    if v.len() == 0 {
        seq![]
    } else {
        failover_processes(v.drop_last(), key) + failover_endpoint_processes(v.last(), v.last().endpoints@, key)
    }
}

/// Processes the endpoints `es` of the main input `input` need, in order.
pub open spec fn endpoint_processes(
    input: Input,
    es: Seq<InputEndpoint>,
    key: Seq<char>,
    playing: bool,
    files: Seq<LocalFileView>,
    file_root: Seq<char>,
) -> Seq<(u128, KindView)>
    decreases es.len(),
{
    if es.len() == 0 {
        seq![]
    } else {
        with_process(
            endpoint_processes(input, es.drop_last(), key, playing, files, file_root),
            es.last().id,
            input_kind(input, es.last(), key, playing, files, file_root),
        )
    }
}

/// Whether a DVR file URL is given for the output `id`.
pub open spec fn for_output(id: u128) -> spec_fn((u128, String)) -> bool {
    |p: (u128, String)| p.0 == id
}

/// DVR file URL given for the output `id`: the first given, or an empty
/// one where none is.
pub open spec fn dvr_url_of(dvr_urls: Seq<(u128, String)>, id: u128) -> Seq<char> {
    match first_index(dvr_urls, for_output(id)) {
        Some(k) => dvr_urls[k].1@,
        None => seq![],
    }
}

/// The process an output needs, pulling from `from`, where a destination
/// with the `file` scheme is recorded at `dvr_url`: none if it is disabled;
/// a copy if it has no mixins, a mixing otherwise.
pub open spec fn output_kind(o: Output, from: Seq<char>, dvr_url: Seq<char>) -> Option<KindView> {
    if !o.enabled {
        None
    } else {
        let to = if scheme(o.dst@) == "file"@ {
            dvr_url
        } else {
            o.dst@
        };
        if o.mixins@.len() == 0 {
            Some(KindView::Copy(o.id, from, to))
        } else {
            Some(KindView::Mixing(o.id, from, to))
        }
    }
}

/// Processes the outputs `os` need, in order.
pub open spec fn output_processes(os: Seq<Output>, from: Seq<char>, dvr_urls: Seq<(u128, String)>) -> Seq<
    (u128, KindView),
>
    decreases os.len(),
{
    if os.len() == 0 {
        seq![]
    } else {
        with_process(
            output_processes(os.drop_last(), from, dvr_urls),
            os.last().id,
            output_kind(os.last(), from, dvr_url_of(dvr_urls, os.last().id)),
        )
    }
}

/// Whether the process `(id, k)` re-streams the output `o` pulling from
/// `from`: it serves `o`, pulls from `from`, publishes onto the output's
/// destination (a recording, for a `file` destination, onto the DVR URL
/// given for it) and is a copy exactly when the output mixes nothing in.
pub open spec fn restreams_output(p: (u128, KindView), o: Output, from: Seq<char>, dvr_urls: Seq<(u128, String)>) -> bool {
    let (id, k) = p;
    &&& id == o.id
    &&& (k is Copy || k is Mixing)
    &&& (k is Copy) == (o.mixins@.len() == 0)
    &&& kind_src(k) == from
    &&& scheme(o.dst@) != "file"@ ==> kind_dst(k) == o.dst@
    &&& scheme(o.dst@) == "file"@ ==> kind_dst(k) == dvr_url_of(dvr_urls, o.id)
}

/// Whether the process `p` re-streams one of the enabled outputs `os`.
pub open spec fn serves_enabled_output(os: Seq<Output>, p: (u128, KindView), from: Seq<char>, dvr_urls: Seq<(u128, String)>) -> bool {
    exists|i: int| 0 <= i < os.len() && (#[trigger] os[i]).enabled && restreams_output(p, os[i], from, dvr_urls)
}

/// Whether one of the processes `ps` re-streams the output `o`.
pub open spec fn has_output_process(ps: Seq<(u128, KindView)>, o: Output, from: Seq<char>, dvr_urls: Seq<(u128, String)>) -> bool {
    exists|x: int| 0 <= x < ps.len() && restreams_output(#[trigger] ps[x], o, from, dvr_urls)
}

/// The outputs of a re-stream are served exactly by re-streams of its
/// enabled outputs: every process re-streams an enabled output (see
/// [`restreams_output`]), so none serves a disabled output alone, and
/// every enabled output has its process.
pub proof fn lemma_output_processes(os: Seq<Output>, from: Seq<char>, dvr_urls: Seq<(u128, String)>)
    ensures
        forall|x: int|
            0 <= x < output_processes(os, from, dvr_urls).len() ==> serves_enabled_output(
                os,
                #[trigger] output_processes(os, from, dvr_urls)[x],
                from,
                dvr_urls,
            ),
        forall|i: int|
            0 <= i < os.len() && (#[trigger] os[i]).enabled ==> has_output_process(
                output_processes(os, from, dvr_urls),
                os[i],
                from,
                dvr_urls,
            ),
    decreases os.len(),
{
    if os.len() > 0 {
        let p = os.drop_last();
        let o = os.last();
        lemma_output_processes(p, from, dvr_urls);
        let before = output_processes(p, from, dvr_urls);
        reveal_strlit("file");
        if o.enabled {
            assert(output_processes(os, from, dvr_urls) == before.push(
                (o.id, output_kind(o, from, dvr_url_of(dvr_urls, o.id))->0),
            ));
            assert(restreams_output(output_processes(os, from, dvr_urls)[before.len() as int], o, from, dvr_urls));
        } else {
            assert(output_processes(os, from, dvr_urls) == before);
        }
        assert forall|x: int| 0 <= x < output_processes(os, from, dvr_urls).len() implies serves_enabled_output(
            os,
            #[trigger] output_processes(os, from, dvr_urls)[x],
            from,
            dvr_urls,
        ) by {
            if x < before.len() {
                assert(output_processes(os, from, dvr_urls)[x] == before[x]);
                assert(serves_enabled_output(p, before[x], from, dvr_urls));
                let i = choose|i: int|
                    0 <= i < p.len() && (#[trigger] p[i]).enabled && restreams_output(before[x], p[i], from, dvr_urls);
                assert(os[i] == p[i]);
            } else {
                assert(os[os.len() - 1] == o);
            }
        }
        assert forall|i: int| 0 <= i < os.len() && (#[trigger] os[i]).enabled implies has_output_process(
            output_processes(os, from, dvr_urls),
            os[i],
            from,
            dvr_urls,
        ) by {
            if i < p.len() {
                assert(os[i] == p[i]);
                assert(has_output_process(before, p[i], from, dvr_urls));
                let x = choose|x: int| 0 <= x < before.len() && restreams_output(#[trigger] before[x], p[i], from, dvr_urls);
                assert(output_processes(os, from, dvr_urls)[x] == before[x]);
            } else {
                assert(os[i] == o);
            }
        }
    }
}

/// The process a backup input's endpoint needs: a copy of the input's own
/// URL onto the input's local RTMP URL for an RTMP endpoint of an enabled
/// input that pulls from one; none for a disabled input or a file endpoint.
pub proof fn lemma_backup_pulls(i: FailoverInput, e: InputEndpoint, key: Seq<char>)
    ensures
        !i.enabled ==> failover_input_kind(i, e, key) is None,
        e.kind == InputEndpointKind::File ==> failover_input_kind(i, e, key) is None,
        i.enabled && e.kind == InputEndpointKind::Rtmp ==> match i.src {
            Some(u) => failover_input_kind(i, e, key) == Some(
                KindView::Copy(e.id, u@, "rtmp://127.0.0.1:1935/"@ + key + "/"@ + i.key@),
            ),
            None => failover_input_kind(i, e, key) is None,
        },
{
    reveal_strlit("");
    assert("rtmp://127.0.0.1:1935/"@ + key + ""@ + "/"@ + i.key@ =~= "rtmp://127.0.0.1:1935/"@ + key + "/"@
        + i.key@);
}

/// The process that plays the file a playlist plays, where one is needed.
pub open spec fn playlist_kind(r: Restream, file_root: Seq<char>) -> Option<KindView> {
    match r.playlist.currently_playing_file {
        Some(f) => {
            let p = joined_path(file_root, f.file_id@);
            let to = parsed_url("rtmp://127.0.0.1:1935/"@ + r.key@ + "/"@ + r.input.key@);
            if is_absolute(p) && to is Some {
                Some(KindView::File(r.playlist.id, path_url(p), to->0))
            } else {
                None
            }
        },
        None => None,
    }
}

/// Processes the backup inputs of a re-stream need.
pub open spec fn restream_backups(r: Restream) -> Seq<(u128, KindView)> {
    match r.input.src {
        Some(InputSrc::Failover(v)) => failover_processes(v@, r.key@),
        _ => seq![],
    }
}

/// Processes a re-stream needs, in order: the file its playlist plays; the
/// pulls of its backup inputs, then of its main input's endpoints; and,
/// where its main input is enabled and can serve or a file plays, the
/// re-streams from its main RTMP endpoint to its outputs.
pub open spec fn restream_processes(
    r: Restream,
    files: Seq<LocalFileView>,
    file_root: Seq<char>,
    dvr_urls: Seq<(u128, String)>,
) -> Seq<(u128, KindView)> {
    let playing = r.playlist.currently_playing_file is Some;
    let backups = restream_backups(r);
    let outputs = if r.input.enabled && (ready_to_serve(r.input) || playing) {
        output_processes(r.outputs@, rtmp_url(InputEndpointKind::Rtmp, r.key@, r.input.key@), dvr_urls)
    } else {
        seq![]
    };
    with_process(seq![], r.playlist.id, playlist_kind(r, file_root)) + backups + endpoint_processes(
        r.input,
        r.input.endpoints@,
        r.key@,
        playing,
        files,
        file_root,
    ) + outputs
}

/// Processes the re-streams `rs` need, re-stream by re-stream, in order.
pub open spec fn desired_processes(
    rs: Seq<Restream>,
    files: Seq<LocalFileView>,
    file_root: Seq<char>,
    dvr_urls: Seq<(u128, String)>,
) -> Seq<(u128, KindView)>
    decreases rs.len(),
{
    if rs.len() == 0 {
        seq![]
    } else {
        desired_processes(rs.drop_last(), files, file_root, dvr_urls) + restream_processes(
            rs.last(),
            files,
            file_root,
            dvr_urls,
        )
    }
}

/// The DVR file URL given for the output `id` (see [`dvr_url_of`]).
fn find_dvr_url(dvr_urls: &Vec<(u128, String)>, id: u128) -> (u: String)
    ensures
        u@ == dvr_url_of(dvr_urls@, id),
{
    let ghost p = for_output(id);
    let mut k: usize = 0;
    while k < dvr_urls.len()
        invariant
            k <= dvr_urls@.len(),
            p == for_output(id),
            forall|j: int| 0 <= j < k ==> !p(#[trigger] dvr_urls@[j]),
        decreases dvr_urls.len() - k,
    {
        if dvr_urls[k].0 == id {
            proof {
                lemma_first_index(dvr_urls@, p, k as int);
            }
            return dvr_urls[k].1.clone();
        }
        k = k + 1;
    }
    proof {
        lemma_first_index(dvr_urls@, p, k as int);
    }
    String::new()
}

/// Appends the processes a restream needs (see [`restream_processes`]).
fn push_restream(
    v: &mut Vec<(u128, RestreamerKind)>,
    r: &Restream,
    files: &Vec<LocalFileInfo>,
    file_root: &str,
    dvr_urls: &Vec<(u128, String)>,
)
    ensures
        pool_view(final(v)@) == pool_view(old(v)@) + restream_processes(*r, files_view(files@), file_root@, dvr_urls@),
{
    let ghost fv = files_view(files@);
    let ghost v0 = pool_view(v@);
    let playing = r.playlist.currently_playing_file.is_some();
    if playing {
        push_process(v, r.playlist.id, RestreamerKind::from_playlist(&r.playlist, r.key.as_str(), r.input.key.as_str(), file_root));
    }
    let ghost v1 = pool_view(v@);
    assert(v1 =~= v0 + with_process(seq![], r.playlist.id, playlist_kind(*r, file_root@)));
    match &r.input.src {
        Some(InputSrc::Failover(backups)) => {
            let mut b: usize = 0;
            while b < backups.len()
                invariant
                    b <= backups@.len(),
                    pool_view(v@) == v1 + failover_processes(backups@.take(b as int), r.key@),
                decreases backups.len() - b,
            {
                let i = &backups[b];
                let ghost before = pool_view(v@);
                let mut e: usize = 0;
                while e < i.endpoints.len()
                    invariant
                        e <= i.endpoints@.len(),
                        pool_view(v@) == before + failover_endpoint_processes(*i, i.endpoints@.take(e as int), r.key@),
                    decreases i.endpoints.len() - e,
                {
                    let k = RestreamerKind::from_failover_input(i, &i.endpoints[e], r.key.as_str());
                    push_process(v, i.endpoints[e].id, k);
                    assert(i.endpoints@.take(e as int + 1).drop_last() =~= i.endpoints@.take(e as int));
                    e = e + 1;
                }
                assert(i.endpoints@.take(i.endpoints@.len() as int) =~= i.endpoints@);
                assert(backups@.take(b as int + 1).drop_last() =~= backups@.take(b as int));
                b = b + 1;
            }
            assert(backups@.take(backups@.len() as int) =~= backups@);
        },
        _ => {},
    }
    let ghost backups_needed = restream_backups(*r);
    assert(pool_view(v@) =~= v1 + backups_needed);
    let ghost v2 = pool_view(v@);
    let mut e: usize = 0;
    while e < r.input.endpoints.len()
        invariant
            e <= r.input.endpoints@.len(),
            fv == files_view(files@),
            pool_view(v@) == v2 + endpoint_processes(r.input, r.input.endpoints@.take(e as int), r.key@, playing, fv, file_root@),
        decreases r.input.endpoints.len() - e,
    {
        let k = RestreamerKind::from_input(&r.input, &r.input.endpoints[e], r.key.as_str(), playing, files, file_root);
        push_process(v, r.input.endpoints[e].id, k);
        assert(r.input.endpoints@.take(e as int + 1).drop_last() =~= r.input.endpoints@.take(e as int));
        e = e + 1;
    }
    assert(r.input.endpoints@.take(r.input.endpoints@.len() as int) =~= r.input.endpoints@);
    let ghost v3 = pool_view(v@);
    if r.input.enabled && (is_ready_to_serve(&r.input) || playing) {
        let from = endpoint_rtmp_url(InputEndpointKind::Rtmp, r.key.as_str(), r.input.key.as_str());
        let mut o: usize = 0;
        while o < r.outputs.len()
            invariant
                o <= r.outputs@.len(),
                pool_view(v@) == v3 + output_processes(r.outputs@.take(o as int), from@, dvr_urls@),
            decreases r.outputs.len() - o,
        {
            let out = &r.outputs[o];
            let dvr = find_dvr_url(dvr_urls, out.id);
            let k = RestreamerKind::from_output(out, from.as_str(), dvr.as_str());
            push_process(v, out.id, k);
            assert(r.outputs@.take(o as int + 1).drop_last() =~= r.outputs@.take(o as int));
            o = o + 1;
        }
        assert(r.outputs@.take(r.outputs@.len() as int) =~= r.outputs@);
    }
    let ghost outs = if r.input.enabled && (ready_to_serve(r.input) || playing) {
        output_processes(r.outputs@, rtmp_url(InputEndpointKind::Rtmp, r.key@, r.input.key@), dvr_urls@)
    } else {
        seq![]
    };
    assert(pool_view(v@) =~= v3 + outs);
    assert(pool_view(v@) =~= v0 + restream_processes(*r, fv, file_root@, dvr_urls@));
}

/// The FFmpeg processes the re-streams need (see [`desired_processes`]),
/// each with the element of the state it serves; `files` are the files
/// known, `file_root` is where downloaded files are stored, `dvr_urls` give
/// the files the outputs with a `file` destination record to.
pub fn restreamer_processes(
    restreams: &Vec<Restream>,
    files: &Vec<LocalFileInfo>,
    file_root: &str,
    dvr_urls: &Vec<(u128, String)>,
) -> (v: Vec<(u128, RestreamerKind)>)
    ensures
        pool_view(v@) == desired_processes(restreams@, files_view(files@), file_root@, dvr_urls@),
{
    let mut v: Vec<(u128, RestreamerKind)> = Vec::new();
    let mut k: usize = 0;
    while k < restreams.len()
        invariant
            k <= restreams@.len(),
            pool_view(v@) == desired_processes(restreams@.take(k as int), files_view(files@), file_root@, dvr_urls@),
        decreases restreams.len() - k,
    {
        push_restream(&mut v, &restreams[k], files, file_root, dvr_urls);
        assert(restreams@.take(k as int + 1).drop_last() =~= restreams@.take(k as int));
        k = k + 1;
    }
    assert(restreams@.take(restreams@.len() as int) =~= restreams@);
    v
}

} // verus!
