//! FFmpeg re-streaming processes: which process a part of the state needs,
//! when a running process must be restarted, and how statuses follow the
//! processes.

use vstd::prelude::*;

use crate::file_manager::{files_view, FileId, FileState, LocalFileInfo, LocalFileView};
use crate::client_stat::JobDecision;
use crate::seq_util::{first_index, lemma_first_index, lemma_first_index_some};
use crate::state::{FailoverInput, Input, InputEndpoint, InputEndpointKind, InputSrc, Output, Playlist, Restream, Status};
use crate::text::join4;
use crate::url_util::{file_path_url, has_scheme, is_absolute, join_path, joined_path, parse_url, parsed_url, path_url, scheme};

verus! {

broadcast use vstd::seq_lib::group_seq_properties;

/// Abstract value of an optional text.
pub open spec fn opt_view(o: Option<String>) -> Option<Seq<char>> {
    o.deep_view()
}

/// Compares two optional texts.
pub fn opt_eq(a: &Option<String>, b: &Option<String>) -> (r: bool)
    ensures
        r == (a.deep_view() == b.deep_view()),
{
    match (a, b) {
        (Some(x), Some(y)) => *x == *y,
        (None, None) => true,
        _ => false,
    }
}

/// Options of a transcoding.
#[derive(Debug)]
pub struct TranscodingOptions {
    /// Video encoder.
    pub vcodec: Option<String>,
    /// Preset of the video encoder.
    pub vpreset: Option<String>,
    /// Profile of the video encoder.
    pub vprofile: Option<String>,
    /// Audio encoder.
    pub acodec: Option<String>,
    /// Maximum video bitrate.
    pub maxrate: Option<String>,
    /// Size of the video buffer.
    pub bufsize: Option<String>,
    /// Audio sampling rate.
    pub ar: Option<String>,
    /// Frames per second.
    pub fps: Option<String>,
    /// Tune of the video encoder.
    pub tune: Option<String>,
}

/// Abstract value of [`TranscodingOptions`].
pub struct OptionsView {
    /// Video encoder.
    pub vcodec: Option<Seq<char>>,
    /// Preset of the video encoder.
    pub vpreset: Option<Seq<char>>,
    /// Profile of the video encoder.
    pub vprofile: Option<Seq<char>>,
    /// Audio encoder.
    pub acodec: Option<Seq<char>>,
    /// Maximum video bitrate.
    pub maxrate: Option<Seq<char>>,
    /// Size of the video buffer.
    pub bufsize: Option<Seq<char>>,
    /// Audio sampling rate.
    pub ar: Option<Seq<char>>,
    /// Frames per second.
    pub fps: Option<Seq<char>>,
    /// Tune of the video encoder.
    pub tune: Option<Seq<char>>,
}

impl View for TranscodingOptions {
    type V = OptionsView;

    open spec fn view(&self) -> OptionsView {
        OptionsView {
            vcodec: opt_view(self.vcodec),
            vpreset: opt_view(self.vpreset),
            vprofile: opt_view(self.vprofile),
            acodec: opt_view(self.acodec),
            maxrate: opt_view(self.maxrate),
            bufsize: opt_view(self.bufsize),
            ar: opt_view(self.ar),
            fps: opt_view(self.fps),
            tune: opt_view(self.tune),
        }
    }
}

/// Some text.
fn some(s: &str) -> (r: Option<String>)
    ensures
        r.deep_view() == Some(s@),
{
    Some(String::from_str(s))
}

impl Default for TranscodingOptions {
    /// Options with every field unset: the encoders and their settings are
    /// left to FFmpeg.
    fn default() -> (o: TranscodingOptions)
        ensures
            o@ == (OptionsView {
                vcodec: None,
                vprofile: None,
                vpreset: None,
                acodec: None,
                maxrate: None,
                bufsize: None,
                ar: None,
                fps: None,
                tune: None,
            }),
    {
        TranscodingOptions {
            vcodec: None,
            vprofile: None,
            vpreset: None,
            acodec: None,
            maxrate: None,
            bufsize: None,
            ar: None,
            fps: None,
            tune: None,
        }
    }
}

impl TranscodingOptions {
    /// Options for a low-latency H.264 live stream: H.264 baseline with the
    /// superfast preset and zero-latency tune, AAC audio at 48 kHz, 8 Mbit/s
    /// at most with a 16 Mbit buffer, 25 frames per second.
    pub fn low_latency() -> (o: TranscodingOptions)
        ensures
            o@ == (OptionsView {
                vcodec: Some("libx264"@),
                vprofile: Some("baseline"@),
                vpreset: Some("superfast"@),
                acodec: Some("aac"@),
                maxrate: Some("8M"@),
                bufsize: Some("16M"@),
                ar: Some("48000"@),
                fps: Some("25"@),
                tune: Some("zerolatency"@),
            }),
    {
        TranscodingOptions {
            vcodec: some("libx264"),
            vprofile: some("baseline"),
            vpreset: some("superfast"),
            acodec: some("aac"),
            maxrate: some("8M"),
            bufsize: some("16M"),
            ar: some("48000"),
            fps: some("25"),
            tune: some("zerolatency"),
        }
    }
}

impl TranscodingOptions {
    /// Whether two sets of options are the same.
    pub fn same(&self, other: &TranscodingOptions) -> (r: bool)
        ensures
            r == (self@ == other@),
    {
        opt_eq(&self.vcodec, &other.vcodec) && opt_eq(&self.vpreset, &other.vpreset) && opt_eq(
            &self.vprofile,
            &other.vprofile,
        ) && opt_eq(&self.acodec, &other.acodec) && opt_eq(&self.maxrate, &other.maxrate) && opt_eq(
            &self.bufsize,
            &other.bufsize,
        ) && opt_eq(&self.ar, &other.ar) && opt_eq(&self.fps, &other.fps) && opt_eq(&self.tune, &other.tune)
    }
}

/// Re-streaming of a live stream "as is".
#[derive(Debug)]
pub struct CopyRestreamer {
    /// ID of the element of the state this process serves.
    pub id: u128,
    /// URL to pull the live stream from.
    pub from_url: String,
    /// URL to publish the live stream onto.
    pub to_url: String,
}

impl CopyRestreamer {
    /// Whether the process must be restarted to match `actual`: it must if
    /// one of its URLs differs.
    pub fn needs_restart(&self, actual: &CopyRestreamer) -> (r: bool)
        ensures
            r == (self.from_url@ != actual.from_url@ || self.to_url@ != actual.to_url@),
    {
        self.from_url != actual.from_url || self.to_url != actual.to_url
    }
}

/// Streaming of a local file.
#[derive(Debug)]
pub struct FileRestreamer {
    /// ID of the element of the state this process serves.
    pub id: u128,
    /// URL of the file to stream.
    pub from_url: String,
    /// URL to publish the stream onto.
    pub to_url: String,
}

impl FileRestreamer {
    /// Whether the process must be restarted to match `actual`: it must if
    /// one of its URLs differs.
    pub fn needs_restart(&self, actual: &FileRestreamer) -> (r: bool)
        ensures
            r == (self.from_url@ != actual.from_url@ || self.to_url@ != actual.to_url@),
    {
        self.from_url != actual.from_url || self.to_url != actual.to_url
    }
}

/// Re-streaming of a live stream transcoded with the given options.
#[derive(Debug)]
pub struct TranscodingRestreamer {
    /// ID of the element of the state this process serves.
    pub id: u128,
    /// URL to pull the live stream from.
    pub from_url: String,
    /// URL to publish the transcoded live stream onto.
    pub to_url: String,
    /// Options of the transcoding.
    pub options: TranscodingOptions,
}

impl TranscodingRestreamer {
    /// Whether the process must be restarted to match `actual`: it must if
    /// anything differs.
    pub fn needs_restart(&self, actual: &TranscodingRestreamer) -> (r: bool)
        ensures
            r == !(self.id == actual.id && self.from_url@ == actual.from_url@ && self.to_url@ == actual.to_url@
                && self.options@ == actual.options@),
    {
        !(self.id == actual.id && self.from_url == actual.from_url && self.to_url == actual.to_url
            && self.options.same(&actual.options))
    }
}

/// Re-streaming of a live stream mixed with other live streams, identified
/// by its endpoints.
#[derive(Debug)]
pub struct MixingRestreamer {
    /// ID of the output this process serves.
    pub id: u128,
    /// URL to pull the main live stream from.
    pub from_url: String,
    /// URL to publish the mixed live stream onto.
    pub to_url: String,
}

impl MixingRestreamer {
    /// Whether the process must be restarted to match `actual`: it must if
    /// one of its URLs differs.
    pub fn needs_restart(&self, actual: &MixingRestreamer) -> (r: bool)
        ensures
            r == (self.from_url@ != actual.from_url@ || self.to_url@ != actual.to_url@),
    {
        self.from_url != actual.from_url || self.to_url != actual.to_url
    }
}

/// Kind of a running FFmpeg process.
#[derive(Debug)]
pub enum RestreamerKind {
    /// Re-streaming "as is".
    Copy(CopyRestreamer),
    /// Re-streaming with transcoding.
    Transcoding(TranscodingRestreamer),
    /// Re-streaming with mixing.
    Mixing(MixingRestreamer),
    /// Streaming of a local file.
    File(FileRestreamer),
}

/// Abstract value of a [`RestreamerKind`]: its kind, ID and URLs, and the
/// options of a transcoding.
pub enum KindView {
    /// Re-streaming "as is".
    Copy(u128, Seq<char>, Seq<char>),
    /// Re-streaming with transcoding.
    Transcoding(u128, Seq<char>, Seq<char>, OptionsView),
    /// Re-streaming with mixing.
    Mixing(u128, Seq<char>, Seq<char>),
    /// Streaming of a local file.
    File(u128, Seq<char>, Seq<char>),
}

impl View for RestreamerKind {
    type V = KindView;

    open spec fn view(&self) -> KindView {
        match self {
            RestreamerKind::Copy(c) => KindView::Copy(c.id, c.from_url@, c.to_url@),
            RestreamerKind::Transcoding(t) => KindView::Transcoding(t.id, t.from_url@, t.to_url@, t.options@),
            RestreamerKind::Mixing(m) => KindView::Mixing(m.id, m.from_url@, m.to_url@),
            RestreamerKind::File(f) => KindView::File(f.id, f.from_url@, f.to_url@),
        }
    }
}

/// ID of the element of the state a process serves.
pub open spec fn kind_id(k: KindView) -> u128 {
    match k {
        KindView::Copy(id, _, _) => id,
        KindView::Transcoding(id, _, _, _) => id,
        KindView::Mixing(id, _, _) => id,
        KindView::File(id, _, _) => id,
    }
}

/// Whether a process of kind `old` must be restarted to become `new`: it
/// must if the kinds differ, if a URL differs, or, for a transcoding, if
/// anything differs.
pub open spec fn kind_needs_restart(old: KindView, new: KindView) -> bool {
    match (old, new) {
        (KindView::Copy(_, f1, t1), KindView::Copy(_, f2, t2)) => f1 != f2 || t1 != t2,
        (KindView::Transcoding(i1, f1, t1, o1), KindView::Transcoding(i2, f2, t2, o2)) => !(i1 == i2 && f1 == f2
            && t1 == t2 && o1 == o2),
        (KindView::Mixing(_, f1, t1), KindView::Mixing(_, f2, t2)) => f1 != f2 || t1 != t2,
        (KindView::File(_, f1, t1), KindView::File(_, f2, t2)) => f1 != f2 || t1 != t2,
        _ => true,
    }
}

impl RestreamerKind {
    /// ID of the element of the state this process serves.
    pub fn id(&self) -> (id: u128)
        ensures
            id == kind_id(self@),
    {
        match self {
            RestreamerKind::Copy(c) => c.id,
            RestreamerKind::Transcoding(c) => c.id,
            RestreamerKind::Mixing(m) => m.id,
            RestreamerKind::File(f) => f.id,
        }
    }

    /// Whether this process must be restarted to become `actual`.
    pub fn needs_restart(&self, actual: &RestreamerKind) -> (r: bool)
        ensures
            r == kind_needs_restart(self@, actual@),
    {
        match (self, actual) {
            (RestreamerKind::Copy(old), RestreamerKind::Copy(new)) => old.needs_restart(new),
            (RestreamerKind::Transcoding(old), RestreamerKind::Transcoding(new)) => old.needs_restart(new),
            (RestreamerKind::Mixing(old), RestreamerKind::Mixing(new)) => old.needs_restart(new),
            (RestreamerKind::File(old), RestreamerKind::File(new)) => old.needs_restart(new),
            _ => true,
        }
    }
}

/// Local RTMP URL of an endpoint of kind `kind` of the input `input_key` of
/// the restream `key`; HLS endpoints live in the `hls` virtual host.
pub open spec fn rtmp_url(kind: InputEndpointKind, key: Seq<char>, input_key: Seq<char>) -> Seq<char> {
    "rtmp://127.0.0.1:1935/"@ + key + (if kind == InputEndpointKind::Hls {
        "?vhost=hls"@
    } else {
        ""@
    }) + "/"@ + input_key
}

/// Local RTMP URL of an endpoint.
pub fn endpoint_rtmp_url(kind: InputEndpointKind, key: &str, input_key: &str) -> (u: String)
    ensures
        u@ == rtmp_url(kind, key@, input_key@),
{
    proof {
        reveal_strlit("");
    }
    let vhost = if kind == InputEndpointKind::Hls {
        "?vhost=hls"
    } else {
        ""
    };
    let mut u = join4("rtmp://127.0.0.1:1935/", key, vhost, "/");
    u.append(input_key);
    u
}

/// Whether an input is ready to serve a live stream: one of its RTMP
/// endpoints is online.
pub open spec fn ready_to_serve(input: Input) -> bool {
    exists|e: int| 0 <= e < input.endpoints@.len() && input.endpoints@[e].kind == InputEndpointKind::Rtmp
        && input.endpoints@[e].status == Status::Online
}

/// Whether an input is ready to serve a live stream.
pub fn is_ready_to_serve(input: &Input) -> (r: bool)
    ensures
        r == ready_to_serve(*input),
{
    let mut e: usize = 0;
    while e < input.endpoints.len()
        invariant
            e <= input.endpoints.len(),
            forall|m: int| 0 <= m < e ==> !(input.endpoints@[m].kind == InputEndpointKind::Rtmp
                && #[trigger] input.endpoints@[m].status == Status::Online),
        decreases input.endpoints.len() - e,
    {
        if input.endpoints[e].kind == InputEndpointKind::Rtmp && input.endpoints[e].status == Status::Online {
            return true;
        }
        e = e + 1;
    }
    false
}

/// Whether the file `id` is downloaded.
pub open spec fn is_local(files: Seq<LocalFileView>, id: Seq<char>) -> bool {
    exists|i: int| 0 <= i < files.len() && files[i].file_id == id && files[i].state == FileState::Local
}

/// Whether the file `id` is downloaded.
pub fn local_file(files: &Vec<LocalFileInfo>, id: &FileId) -> (r: bool)
    ensures
        r == is_local(files_view(files@), id@),
{
    let mut i: usize = 0;
    while i < files.len()
        invariant
            i <= files.len(),
            forall|m: int| 0 <= m < i ==> !((#[trigger] files_view(files@)[m]).file_id == id@
                && files_view(files@)[m].state == FileState::Local),
        decreases files.len() - i,
    {
        if files[i].file_id.same(id) && files[i].state == FileState::Local {
            assert(files_view(files@)[i as int].file_id == id@);
            return true;
        }
        i = i + 1;
    }
    false
}

/// Source a failover endpoint offers: an online RTMP endpoint offers its
/// local RTMP URL; a file endpoint of an enabled input whose file is
/// downloaded offers the `file` URL of the file under `file_root`, if that
/// path is absolute.
pub open spec fn endpoint_source(
    input: FailoverInput,
    e: InputEndpoint,
    key: Seq<char>,
    files: Seq<LocalFileView>,
    file_root: Seq<char>,
) -> Option<Seq<char>> {
    if e.kind == InputEndpointKind::Rtmp && e.status == Status::Online {
        Some(rtmp_url(e.kind, key, input.key@))
    } else if input.enabled && e.kind == InputEndpointKind::File && e.file_id is Some && is_local(
        files,
        e.file_id->0@,
    ) {
        let p = joined_path(file_root, e.file_id->0@);
        if is_absolute(p) {
            Some(path_url(p))
        } else {
            None
        }
    } else {
        None
    }
}

/// First source offered by the given endpoints, in order.
pub open spec fn endpoints_source(
    input: FailoverInput,
    es: Seq<InputEndpoint>,
    key: Seq<char>,
    files: Seq<LocalFileView>,
    file_root: Seq<char>,
) -> Option<Seq<char>>
    decreases es.len(),
{
    if es.len() == 0 {
        None
    } else {
        match endpoint_source(input, es[0], key, files, file_root) {
            Some(u) => Some(u),
            None => endpoints_source(input, es.drop_first(), key, files, file_root),
        }
    }
}

/// First source offered by the endpoints of the given inputs, in order.
pub open spec fn failover_source(
    inputs: Seq<FailoverInput>,
    key: Seq<char>,
    files: Seq<LocalFileView>,
    file_root: Seq<char>,
) -> Option<Seq<char>>
    decreases inputs.len(),
{
    if inputs.len() == 0 {
        None
    } else {
        match endpoints_source(inputs[0], inputs[0].endpoints@, key, files, file_root) {
            Some(u) => Some(u),
            None => failover_source(inputs.drop_first(), key, files, file_root),
        }
    }
}

/// The source an endpoint offers.
fn endpoint_source_of(
    input: &FailoverInput,
    e: &InputEndpoint,
    key: &str,
    files: &Vec<LocalFileInfo>,
    file_root: &str,
) -> (r: Option<String>)
    ensures
        r.deep_view() == endpoint_source(*input, *e, key@, files_view(files@), file_root@),
{
    if e.kind == InputEndpointKind::Rtmp && e.status == Status::Online {
        Some(endpoint_rtmp_url(e.kind, key, input.key.as_str()))
    } else if input.enabled && e.kind == InputEndpointKind::File && e.file_id.is_some() && local_file(
        files,
        e.file_id.as_ref().unwrap(),
    ) {
        let p = join_path(file_root, e.file_id.as_ref().unwrap().0.as_str());
        file_path_url(p.as_str())
    } else {
        None
    }
}

/// The first source the endpoints of an input offer, from position `from`.
fn endpoints_source_of(
    input: &FailoverInput,
    key: &str,
    files: &Vec<LocalFileInfo>,
    file_root: &str,
) -> (r: Option<String>)
    ensures
        r.deep_view() == endpoints_source(*input, input.endpoints@, key@, files_view(files@), file_root@),
{
    let es = &input.endpoints;
    let mut k: usize = 0;
    while k < es.len()
        invariant
            k <= es.len(),
            es@ == input.endpoints@,
            endpoints_source(*input, es@, key@, files_view(files@), file_root@) == endpoints_source(
                *input,
                es@.skip(k as int),
                key@,
                files_view(files@),
                file_root@,
            ),
        decreases es.len() - k,
    {
        assert(es@.skip(k as int)[0] == es@[k as int]);
        assert(es@.skip(k as int).drop_first() =~= es@.skip(k + 1));
        let s = endpoint_source_of(input, &es[k], key, files, file_root);
        if s.is_some() {
            assert(endpoints_source(*input, es@.skip(k as int), key@, files_view(files@), file_root@)
                == endpoint_source(*input, es@[k as int], key@, files_view(files@), file_root@));
            return s;
        }
        k = k + 1;
    }
    assert(es@.skip(k as int) =~= Seq::<InputEndpoint>::empty());
    None
}

/// The first source the endpoints of the given inputs offer.
fn failover_source_of(
    inputs: &Vec<FailoverInput>,
    key: &str,
    files: &Vec<LocalFileInfo>,
    file_root: &str,
) -> (r: Option<String>)
    ensures
        r.deep_view() == failover_source(inputs@, key@, files_view(files@), file_root@),
{
    let mut k: usize = 0;
    while k < inputs.len()
        invariant
            k <= inputs.len(),
            failover_source(inputs@, key@, files_view(files@), file_root@) == failover_source(
                inputs@.skip(k as int),
                key@,
                files_view(files@),
                file_root@,
            ),
        decreases inputs.len() - k,
    {
        assert(inputs@.skip(k as int)[0] == inputs@[k as int]);
        assert(inputs@.skip(k as int).drop_first() =~= inputs@.skip(k + 1));
        let s = endpoints_source_of(&inputs[k], key, files, file_root);
        if s.is_some() {
            return s;
        }
        k = k + 1;
    }
    assert(inputs@.skip(k as int) =~= Seq::<FailoverInput>::empty());
    None
}

/// Options of the transcoding that serves an HLS endpoint.
pub open spec fn hls_options() -> OptionsView {
    OptionsView {
        vcodec: Some("libx264"@),
        vprofile: Some("baseline"@),
        vpreset: Some("superfast"@),
        acodec: Some("libfdk_aac"@),
        maxrate: None,
        bufsize: None,
        ar: None,
        fps: None,
        tune: None,
    }
}

/// The process an endpoint of an input needs, as a spec:
/// - none if the input is disabled;
/// - for an RTMP endpoint, none while a playlist plays; otherwise a copy from
///   the remote URL of the input, or from the first source of its failover
///   inputs (none if there is no source) to the endpoint's own URL;
/// - for an HLS endpoint, none unless the input is ready to serve; otherwise
///   a transcoding of the input's RTMP stream;
/// - for a file endpoint, none.
pub open spec fn input_kind(
    input: Input,
    endpoint: InputEndpoint,
    key: Seq<char>,
    is_playing_playlist: bool,
    files: Seq<LocalFileView>,
    file_root: Seq<char>,
) -> Option<KindView> {
    if !input.enabled {
        None
    } else {
        match endpoint.kind {
            InputEndpointKind::Rtmp => if is_playing_playlist {
                None
            } else {
                let from = match input.src {
                    Some(InputSrc::Remote(url)) => Some(url@),
                    Some(InputSrc::Failover(v)) => failover_source(v@, key, files, file_root),
                    None => None,
                };
                match from {
                    Some(f) => Some(
                        KindView::Copy(endpoint.id, f, rtmp_url(endpoint.kind, key, input.key@)),
                    ),
                    None => None,
                }
            },
            InputEndpointKind::Hls => if !ready_to_serve(input) {
                None
            } else {
                Some(
                    KindView::Transcoding(
                        endpoint.id,
                        rtmp_url(InputEndpointKind::Rtmp, key, input.key@),
                        rtmp_url(endpoint.kind, key, input.key@),
                        hls_options(),
                    ),
                )
            },
            InputEndpointKind::File => None,
        }
    }
}

/// Abstract value of an optional process kind.
pub open spec fn opt_kind(k: Option<RestreamerKind>) -> Option<KindView> {
    match k {
        Some(x) => Some(x@),
        None => None,
    }
}

impl RestreamerKind {
    /// The process an endpoint of an input needs (see [`input_kind`]).
    pub fn from_input(
        input: &Input,
        endpoint: &InputEndpoint,
        key: &str,
        is_playing_playlist: bool,
        files: &Vec<LocalFileInfo>,
        file_root: &str,
    ) -> (r: Option<RestreamerKind>)
        ensures
            opt_kind(r) == input_kind(*input, *endpoint, key@, is_playing_playlist, files_view(files@), file_root@),
    {
        if !input.enabled {
            return None;
        }
        match endpoint.kind {
            InputEndpointKind::Rtmp => {
                if is_playing_playlist {
                    return None;
                }
                let from_url = match &input.src {
                    Some(InputSrc::Remote(url)) => Some(url.clone()),
                    Some(InputSrc::Failover(v)) => failover_source_of(v, key, files, file_root),
                    None => None,
                };
                match from_url {
                    Some(from_url) => Some(
                        RestreamerKind::Copy(
                            CopyRestreamer {
                                id: endpoint.id,
                                from_url,
                                to_url: endpoint_rtmp_url(endpoint.kind, key, input.key.as_str()),
                            },
                        ),
                    ),
                    None => None,
                }
            },
            InputEndpointKind::Hls => {
                if !is_ready_to_serve(input) {
                    return None;
                }
                Some(
                    RestreamerKind::Transcoding(
                        TranscodingRestreamer {
                            id: endpoint.id,
                            from_url: endpoint_rtmp_url(InputEndpointKind::Rtmp, key, input.key.as_str()),
                            to_url: endpoint_rtmp_url(endpoint.kind, key, input.key.as_str()),
                            options: TranscodingOptions {
                                vcodec: some("libx264"),
                                vprofile: some("baseline"),
                                vpreset: some("superfast"),
                                acodec: some("libfdk_aac"),
                                maxrate: None,
                                bufsize: None,
                                ar: None,
                                fps: None,
                                tune: None,
                            },
                        },
                    ),
                )
            },
            InputEndpointKind::File => None,
        }
    }

    /// The process that streams the file a playlist plays to the input
    /// `input_key` of the restream `key`: none if nothing plays, if the file
    /// path under `file_root` is not absolute, or if the target URL does not
    /// parse.
    pub fn from_playlist(playlist: &Playlist, key: &str, input_key: &str, file_root: &str) -> (r: Option<
        RestreamerKind,
    >)
        ensures
            opt_kind(r) == match playlist.currently_playing_file {
                Some(f) => {
                    let p = joined_path(file_root@, f.file_id@);
                    let to = parsed_url("rtmp://127.0.0.1:1935/"@ + key@ + "/"@ + input_key@);
                    if is_absolute(p) && to is Some {
                        Some(KindView::File(playlist.id, path_url(p), to->0))
                    } else {
                        None
                    }
                },
                None => None,
            },
    {
        let from_url = match &playlist.currently_playing_file {
            Some(f) => {
                let p = join_path(file_root, f.file_id.0.as_str());
                file_path_url(p.as_str())
            },
            None => None,
        };
        let target = join4("rtmp://127.0.0.1:1935/", key, "/", input_key);
        let to_url = parse_url(target.as_str());
        match (from_url, to_url) {
            (Some(from_url), Ok(to_url)) => Some(
                RestreamerKind::File(FileRestreamer { id: playlist.id, from_url, to_url }),
            ),
            _ => None,
        }
    }

    /// The process an output needs: none if it is disabled; a copy to its
    /// destination if it has no mixins, a mixing otherwise. A destination with
    /// the `file` scheme is recorded at `dvr_url`.
    pub fn from_output(output: &Output, from_url: &str, dvr_url: &str) -> (r: Option<RestreamerKind>)
        ensures
            opt_kind(r) == if !output.enabled {
                None
            } else {
                let to = if scheme(output.dst@) == "file"@ {
                    dvr_url@
                } else {
                    output.dst@
                };
                if output.mixins@.len() == 0 {
                    Some(KindView::Copy(output.id, from_url@, to))
                } else {
                    Some(KindView::Mixing(output.id, from_url@, to))
                }
            },
    {
        if !output.enabled {
            return None;
        }
        let to_url = if has_scheme(output.dst.as_str(), "file") {
            String::from_str(dvr_url)
        } else {
            output.dst.clone()
        };
        if output.mixins.len() == 0 {
            Some(RestreamerKind::Copy(CopyRestreamer { id: output.id, from_url: String::from_str(from_url), to_url }))
        } else {
            Some(
                RestreamerKind::Mixing(
                    MixingRestreamer { id: output.id, from_url: String::from_str(from_url), to_url },
                ),
            )
        }
    }
}

/// Status to record when a process changes its status to `new_status`,
/// given the seconds since its last failure, if it failed: a process that
/// failed less than 15 seconds ago is unstable.
pub open spec fn status_after(seconds_since_failure: Option<i64>, new_status: Status) -> Status {
    match seconds_since_failure {
        Some(s) => if s < 15 {
            Status::Unstable
        } else {
            new_status
        },
        None => new_status,
    }
}

/// Status to record when a process changes its status (see
/// [`status_after`]).
pub fn change_status(seconds_since_failure: Option<i64>, new_status: Status) -> (s: Status)
    ensures
        s == status_after(seconds_since_failure, new_status),
{
    match seconds_since_failure {
        Some(s) => if s < 15 {
            Status::Unstable
        } else {
            new_status
        },
        None => new_status,
    }
}

/// Whether an FFmpeg process stopped properly: it exited with success, with
/// code 255, or by signal 15 (SIGTERM).
pub fn ffmpeg_stopped_properly(success: bool, code: Option<i32>, signal: Option<i32>) -> (r: bool)
    ensures
        r == (success || code == Some(255i32) || signal == Some(15i32)),
{
    success || match code {
        Some(c) => c == 255,
        None => false,
    } || match signal {
        Some(s) => s == 15,
        None => false,
    }
}

/// Whether an FFmpeg mixing process stopped properly: it exited with code
/// 255 or with success.
pub fn mixing_stopped_properly(success: bool, code: Option<i32>) -> (r: bool)
    ensures
        r == (code == Some(255i32) || success),
{
    let by_code = match code {
        Some(c) => c == 255,
        None => false,
    };
    by_code || success
}

/// Message of an FFmpeg process that stopped improperly; `status` is the
/// rendered exit status and `stderr` the process's error output.
pub fn ffmpeg_failure_message(status: &str, stderr: &str) -> (m: String)
    ensures
        m@ == "FFmpeg re-streamer unsuccessfully stopped with exit code: "@ + status@ + "\n"@ + stderr@,
{
    join4("FFmpeg re-streamer unsuccessfully stopped with exit code: ", status, "\n", stderr)
}

/// Message of an FFmpeg mixing process that stopped improperly.
pub fn mixing_failure_message(status: &str, stderr: &str) -> (m: String)
    ensures
        m@ == "FFmpeg mixing re-streamer stopped with exit code: "@ + status@ + "\n"@ + stderr@,
{
    join4("FFmpeg mixing re-streamer stopped with exit code: ", status, "\n", stderr)
}


// ---------------------------------------------------------------------------
// Statuses
// ---------------------------------------------------------------------------

/// Whether the output `o` has the identity `id`.
pub open spec fn is_output(id: u128) -> spec_fn(Output) -> bool {
    |o: Output| o.id == id
}

/// Whether the endpoint `e` has the identity `id`.
pub open spec fn is_endpoint(id: u128) -> spec_fn(InputEndpoint) -> bool {
    |e: InputEndpoint| e.id == id
}

/// Whether some endpoint of the failover input `i` has the identity `id`.
pub open spec fn has_endpoint(id: u128) -> spec_fn(FailoverInput) -> bool {
    |i: FailoverInput| first_index(i.endpoints@, is_endpoint(id)) is Some
}

/// Element of a restream whose status a process renews.
pub enum Target {
    /// The output at the given position.
    Output(usize),
    /// The endpoint of the main input at the given position.
    MainEndpoint(usize),
    /// The endpoint (second position) of the failover input (first position).
    FailoverEndpoint(usize, usize),
}

/// The element of a restream whose status the process `id` renews with
/// `status`: its first output with that identity; failing that, unless the
/// status is `Online` (which inputs learn from the media server), the first
/// endpoint of its main input with that identity, then the first one of its
/// failover inputs, in order.
pub open spec fn status_target(r: Restream, id: u128, status: Status) -> Option<Target> {
    match first_index(r.outputs@, is_output(id)) {
        Some(o) => Some(Target::Output(o as usize)),
        None => if status == Status::Online {
            None
        } else {
            match first_index(r.input.endpoints@, is_endpoint(id)) {
                Some(e) => Some(Target::MainEndpoint(e as usize)),
                None => match r.input.src {
                    Some(InputSrc::Failover(v)) => match first_index(v@, has_endpoint(id)) {
                        Some(k) => Some(
                            Target::FailoverEndpoint(
                                k as usize,
                                first_index(v@[k].endpoints@, is_endpoint(id))->0 as usize,
                            ),
                        ),
                        None => None,
                    },
                    _ => None,
                },
            }
        },
    }
}

/// Whether `new_r` is `old_r` with the status of the element `t` set to
/// `status`.
pub open spec fn status_set(old_r: Restream, new_r: Restream, t: Target, status: Status) -> bool {
    &&& new_r.id == old_r.id
    &&& new_r.key == old_r.key
    &&& new_r.label == old_r.label
    &&& new_r.playlist == old_r.playlist
    &&& new_r.input.id == old_r.input.id
    &&& new_r.input.key == old_r.input.key
    &&& new_r.input.enabled == old_r.input.enabled
    &&& match t {
        Target::Output(o) => {
            &&& new_r.outputs@ == old_r.outputs@.update(o as int, Output { status, ..old_r.outputs@[o as int] })
            &&& new_r.input.endpoints == old_r.input.endpoints
            &&& new_r.input.src == old_r.input.src
        },
        Target::MainEndpoint(e) => {
            &&& new_r.outputs == old_r.outputs
            &&& new_r.input.endpoints@ == old_r.input.endpoints@.update(
                e as int,
                InputEndpoint { status, ..old_r.input.endpoints@[e as int] },
            )
            &&& new_r.input.src == old_r.input.src
        },
        Target::FailoverEndpoint(k, e) => {
            &&& new_r.outputs == old_r.outputs
            &&& new_r.input.endpoints == old_r.input.endpoints
            &&& old_r.input.src matches Some(InputSrc::Failover(v))
            &&& new_r.input.src matches Some(InputSrc::Failover(w))
            &&& w@.len() == v@.len()
            &&& forall|j: int| 0 <= j < v@.len() && j != k ==> #[trigger] w@[j] == v@[j]
            &&& w@[k as int].id == v@[k as int].id
            &&& w@[k as int].key == v@[k as int].key
            &&& w@[k as int].src == v@[k as int].src
            &&& w@[k as int].enabled == v@[k as int].enabled
            &&& w@[k as int].endpoints@ == v@[k as int].endpoints@.update(
                e as int,
                InputEndpoint { status, ..v@[k as int].endpoints@[e as int] },
            )
        },
    }
}

/// Whether a restream holds an element whose status the process `id`
/// renews with `status`.
pub open spec fn has_target(id: u128, status: Status) -> spec_fn(Restream) -> bool {
    |r: Restream| status_target(r, id, status) is Some
}

/// Position of the first element of `s` whose identity is `id`.
pub fn find_output(s: &Vec<Output>, id: u128) -> (r: Option<usize>)
    ensures
        r matches Some(i) ==> i < s.len(),
        match r {
            Some(i) => first_index(s@, is_output(id)) == Some(i as int),
            None => first_index(s@, is_output(id)) is None,
        },
{
    let mut i: usize = 0;
    while i < s.len()
        invariant
            i <= s.len(),
            forall|j: int| 0 <= j < i ==> !is_output(id)(#[trigger] s@[j]),
        decreases s.len() - i,
    {
        if s[i].id == id {
            proof {
                lemma_first_index(s@, is_output(id), i as int);
            }
            return Some(i);
        }
        i = i + 1;
    }
    proof {
        lemma_first_index(s@, is_output(id), i as int);
    }
    None
}

/// Position of the first endpoint whose identity is `id`.
pub(crate) fn find_endpoint(s: &Vec<InputEndpoint>, id: u128) -> (r: Option<usize>)
    ensures
        r matches Some(i) ==> i < s.len(),
        match r {
            Some(i) => first_index(s@, is_endpoint(id)) == Some(i as int),
            None => first_index(s@, is_endpoint(id)) is None,
        },
{
    let mut i: usize = 0;
    while i < s.len()
        invariant
            i <= s.len(),
            forall|j: int| 0 <= j < i ==> !is_endpoint(id)(#[trigger] s@[j]),
        decreases s.len() - i,
    {
        if s[i].id == id {
            proof {
                lemma_first_index(s@, is_endpoint(id), i as int);
            }
            return Some(i);
        }
        i = i + 1;
    }
    proof {
        lemma_first_index(s@, is_endpoint(id), i as int);
    }
    None
}

/// Position of the first failover input with an endpoint `id`, and of that
/// endpoint.
fn find_failover_endpoint(v: &Vec<FailoverInput>, id: u128) -> (r: Option<(usize, usize)>)
    ensures
        match r {
            Some((k, e)) => k < v.len() && e < v@[k as int].endpoints@.len() && first_index(v@, has_endpoint(id))
                == Some(k as int) && first_index(v@[k as int].endpoints@, is_endpoint(id)) == Some(e as int),
            None => first_index(v@, has_endpoint(id)) is None,
        },
{
    let mut k: usize = 0;
    while k < v.len()
        invariant
            k <= v.len(),
            forall|j: int| 0 <= j < k ==> !has_endpoint(id)(#[trigger] v@[j]),
        decreases v.len() - k,
    {
        match find_endpoint(&v[k].endpoints, id) {
            Some(e) => {
                proof {
                    lemma_first_index(v@, has_endpoint(id), k as int);
                }
                return Some((k, e));
            },
            None => {},
        }
        k = k + 1;
    }
    proof {
        lemma_first_index(v@, has_endpoint(id), k as int);
    }
    None
}

/// The element of a restream whose status the process `id` renews.
fn find_target(r: &Restream, id: u128, status: Status) -> (t: Option<Target>)
    ensures
        t == status_target(*r, id, status),
        t matches Some(Target::Output(o)) ==> o < r.outputs@.len(),
        t matches Some(Target::MainEndpoint(e)) ==> e < r.input.endpoints@.len(),
        t matches Some(Target::FailoverEndpoint(k, e)) ==> r.input.src matches Some(InputSrc::Failover(v)) && k
            < v@.len() && e < v@[k as int].endpoints@.len(),
{
    match find_output(&r.outputs, id) {
        Some(o) => Some(Target::Output(o)),
        None => {
            if status == Status::Online {
                None
            } else {
                match find_endpoint(&r.input.endpoints, id) {
                    Some(e) => Some(Target::MainEndpoint(e)),
                    None => match &r.input.src {
                        Some(InputSrc::Failover(v)) => match find_failover_endpoint(v, id) {
                            Some((k, e)) => Some(Target::FailoverEndpoint(k, e)),
                            None => None,
                        },
                        _ => None,
                    },
                }
            }
        },
    }
}

/// Sets the status of the element `t` of a restream.
fn set_status(r: &mut Restream, t: Target, status: Status)
    requires
        t matches Target::Output(o) ==> o < old(r).outputs@.len(),
        t matches Target::MainEndpoint(e) ==> e < old(r).input.endpoints@.len(),
        t matches Target::FailoverEndpoint(k, e) ==> old(r).input.src matches Some(InputSrc::Failover(v)) && k
            < v@.len() && e < v@[k as int].endpoints@.len(),
    ensures
        status_set(*old(r), *final(r), t, status),
{
    match t {
        Target::Output(o) => {
            let mut out = r.outputs.remove(o);
            out.status = status;
            r.outputs.insert(o, out);
            assert(r.outputs@ =~= old(r).outputs@.update(o as int, Output { status, ..old(r).outputs@[o as int] }));
        },
        Target::MainEndpoint(e) => {
            let mut ep = r.input.endpoints.remove(e);
            ep.status = status;
            r.input.endpoints.insert(e, ep);
            assert(r.input.endpoints@ =~= old(r).input.endpoints@.update(
                e as int,
                InputEndpoint { status, ..old(r).input.endpoints@[e as int] },
            ));
        },
        Target::FailoverEndpoint(k, e) => {
            let src = r.input.src.take();
            match src {
                Some(InputSrc::Failover(mut v)) => {
                    let ghost v0 = v@;
                    let mut input = v.remove(k);
                    let ghost i0 = input;
                    let mut ep = input.endpoints.remove(e);
                    ep.status = status;
                    input.endpoints.insert(e, ep);
                    assert(input.endpoints@ =~= i0.endpoints@.update(
                        e as int,
                        InputEndpoint { status, ..i0.endpoints@[e as int] },
                    ));
                    v.insert(k, input);
                    assert forall|j: int| 0 <= j < v0.len() && j != k implies #[trigger] v@[j] == v0[j] by {}
                    r.input.src = Some(InputSrc::Failover(v));
                },
                other => {
                    r.input.src = other;
                },
            }
        },
    }
}

/// Renews, in the first restream that holds one, the status of the element
/// the process `id` serves (see [`status_target`]); nothing changes if no
/// restream holds one.
pub fn renew_status(restreams: &mut Vec<Restream>, id: u128, status: Status)
    ensures
        match first_index(old(restreams)@, has_target(id, status)) {
            Some(i) => {
                &&& final(restreams)@.len() == old(restreams)@.len()
                &&& forall|j: int| 0 <= j < old(restreams)@.len() && j != i ==> #[trigger] final(restreams)@[j]
                    == old(restreams)@[j]
                &&& status_set(
                    old(restreams)@[i],
                    final(restreams)@[i],
                    status_target(old(restreams)@[i], id, status)->0,
                    status,
                )
            },
            None => final(restreams)@ == old(restreams)@,
        },
{
    let mut i: usize = 0;
    while i < restreams.len()
        invariant
            i <= restreams.len(),
            restreams@ == old(restreams)@,
            forall|j: int| 0 <= j < i ==> !has_target(id, status)(#[trigger] restreams@[j]),
        decreases restreams.len() - i,
    {
        match find_target(&restreams[i], id, status) {
            Some(t) => {
                proof {
                    lemma_first_index(restreams@, has_target(id, status), i as int);
                }
                let mut r = restreams.remove(i);
                set_status(&mut r, t, status);
                restreams.insert(i, r);
                return;
            },
            None => {},
        }
        i = i + 1;
    }
    proof {
        lemma_first_index(restreams@, has_target(id, status), i as int);
    }
}

// ---------------------------------------------------------------------------
// Pool of processes
// ---------------------------------------------------------------------------

/// Abstract value of a list of processes identified by the elements of the
/// state they serve.
pub open spec fn pool_view(v: Seq<(u128, RestreamerKind)>) -> Seq<(u128, KindView)> {
    v.map_values(|e: (u128, RestreamerKind)| (e.0, e.1@))
}

/// Whether a pool entry serves the element `id`.
pub open spec fn serves(id: u128) -> spec_fn((u128, KindView)) -> bool {
    |e: (u128, KindView)| e.0 == id
}

/// Kind of the first process of `s` serving `id`.
pub open spec fn lookup(s: Seq<(u128, KindView)>, id: u128) -> Option<KindView> {
    match first_index(s, serves(id)) {
        Some(i) => Some(s[i].1),
        None => None,
    }
}

/// `s` without its first process serving `id`.
pub open spec fn without(s: Seq<(u128, KindView)>, id: u128) -> Seq<(u128, KindView)> {
    match first_index(s, serves(id)) {
        Some(i) => s.remove(i),
        None => s,
    }
}

/// `s` with the first process serving `id` replaced by `k`, or with `k`
/// added if none serves it.
pub open spec fn put(s: Seq<(u128, KindView)>, id: u128, k: KindView) -> Seq<(u128, KindView)> {
    match first_index(s, serves(id)) {
        Some(i) => s.update(i, (id, k)),
        None => s.push((id, k)),
    }
}

/// One step of adjusting a pool: the process serving `id` is taken out of
/// the old processes; it is kept if it exists and needs no restart to
/// become `k`, otherwise a process of kind `k` starts. The result goes into
/// the new processes, replacing one that serves `id` already.
pub open spec fn pool_step(
    old: Seq<(u128, KindView)>,
    new: Seq<(u128, KindView)>,
    id: u128,
    k: KindView,
) -> (Seq<(u128, KindView)>, Seq<(u128, KindView)>, JobDecision) {
    match lookup(old, id) {
        Some(running) => if !kind_needs_restart(running, k) {
            (without(old, id), put(new, id, running), JobDecision::Keep)
        } else {
            (without(old, id), put(new, id, k), JobDecision::Start)
        },
        None => (old, put(new, id, k), JobDecision::Start),
    }
}

/// Adjusting a pool of processes `old` to the desired processes `d`, in
/// order: the old processes left over, the new processes, and the decision
/// for each desired process.
pub open spec fn pool_apply(old: Seq<(u128, KindView)>, d: Seq<(u128, KindView)>) -> (
    Seq<(u128, KindView)>,
    Seq<(u128, KindView)>,
    Seq<JobDecision>,
)
    decreases d.len(),
{
    if d.len() == 0 {
        (old, seq![], seq![])
    } else {
        let (rem, new, ds) = pool_apply(old, d.drop_last());
        let (rem2, new2, dec) = pool_step(rem, new, d.last().0, d.last().1);
        (rem2, new2, ds.push(dec))
    }
}

/// Pool of FFmpeg processes, each identified by the element of the state it
/// serves.
#[derive(Debug)]
pub struct RestreamersPool {
    /// Kinds of the running processes, by the element they serve.
    pool: Vec<(u128, RestreamerKind)>,
}

/// Position of the first process serving `id`.
fn find_entry(v: &Vec<(u128, RestreamerKind)>, id: u128) -> (r: Option<usize>)
    ensures
        r matches Some(i) ==> i < v.len(),
        match r {
            Some(i) => first_index(pool_view(v@), serves(id)) == Some(i as int),
            None => first_index(pool_view(v@), serves(id)) is None,
        },
{
    let ghost pv = pool_view(v@);
    let mut i: usize = 0;
    while i < v.len()
        invariant
            i <= v.len(),
            pv == pool_view(v@),
            forall|j: int| 0 <= j < i ==> !serves(id)(#[trigger] pv[j]),
        decreases v.len() - i,
    {
        if v[i].0 == id {
            proof {
                lemma_first_index(pv, serves(id), i as int);
            }
            return Some(i);
        }
        i = i + 1;
    }
    proof {
        lemma_first_index(pv, serves(id), i as int);
    }
    None
}

/// Takes the first process serving `id` out of `v`.
fn take_entry(v: &mut Vec<(u128, RestreamerKind)>, id: u128) -> (r: Option<RestreamerKind>)
    ensures
        opt_kind(r) == lookup(pool_view(old(v)@), id),
        pool_view(final(v)@) == without(pool_view(old(v)@), id),
{
    match find_entry(v, id) {
        Some(i) => {
            let (_, k) = v.remove(i);
            assert(pool_view(v@) =~= pool_view(old(v)@).remove(i as int));
            Some(k)
        },
        None => None,
    }
}

/// Puts a process of kind `k` serving `id` into `v`, replacing the first
/// one that serves `id` already.
fn put_entry(v: &mut Vec<(u128, RestreamerKind)>, id: u128, k: RestreamerKind)
    ensures
        pool_view(final(v)@) == put(pool_view(old(v)@), id, k@),
{
    match find_entry(v, id) {
        Some(i) => {
            v.set(i, (id, k));
            assert(pool_view(v@) =~= pool_view(old(v)@).update(i as int, (id, k@)));
        },
        None => {
            v.push((id, k));
            assert(pool_view(v@) =~= pool_view(old(v)@).push((id, k@)));
        },
    }
}

impl RestreamersPool {
    /// The running processes.
    pub closed spec fn running(&self) -> Seq<(u128, KindView)> {
        pool_view(self.pool@)
    }

    /// Creates an empty pool.
    pub fn new() -> (p: RestreamersPool)
        ensures
            p.running() == Seq::<(u128, KindView)>::empty(),
    {
        let p = RestreamersPool { pool: Vec::new() };
        assert(p.running() =~= Seq::<(u128, KindView)>::empty());
        p
    }

    /// Adjusts the pool to the desired processes (see [`pool_apply`]): a
    /// running process is kept as much as possible, and restarted only when
    /// it cannot become the desired one without interruption. Processes not
    /// desired any more stop. Returns the decision for each desired process.
    pub fn apply(&mut self, desired: Vec<(u128, RestreamerKind)>) -> (d: Vec<JobDecision>)
        ensures
            ({
                let (_, new, ds) = pool_apply(old(self).running(), pool_view(desired@));
                &&& final(self).running() == new
                &&& d@ == ds
            }),
    {
        let ghost dv = pool_view(desired@);
        let ghost old_running = self.running();
        let mut rest = desired;
        let n = rest.len();
        let mut old_pool: Vec<(u128, RestreamerKind)> = Vec::new();
        std::mem::swap(&mut old_pool, &mut self.pool);
        let mut new_pool: Vec<(u128, RestreamerKind)> = Vec::new();
        let mut decisions: Vec<JobDecision> = Vec::new();
        let mut k: usize = 0;
        while rest.len() > 0
            invariant
                k + rest.len() == n,
                n == dv.len(),
                pool_view(rest@) == dv.skip(k as int),
                ({
                    let (rem, new, ds) = pool_apply(old_running, dv.take(k as int));
                    &&& pool_view(old_pool@) == rem
                    &&& pool_view(new_pool@) == new
                    &&& decisions@ == ds
                }),
            decreases rest.len(),
        {
            let (id, kind) = rest.remove(0);
            assert(pool_view(rest@) =~= dv.skip(k + 1));
            assert(dv[k as int] == (id, kind@)) by {
                assert(dv.skip(k as int)[0] == dv[k as int]);
            }
            assert(dv.take(k + 1).drop_last() =~= dv.take(k as int));
            let running = take_entry(&mut old_pool, id);
            match running {
                Some(r) => {
                    if !r.needs_restart(&kind) {
                        put_entry(&mut new_pool, id, r);
                        decisions.push(JobDecision::Keep);
                    } else {
                        put_entry(&mut new_pool, id, kind);
                        decisions.push(JobDecision::Start);
                    }
                },
                None => {
                    put_entry(&mut new_pool, id, kind);
                    decisions.push(JobDecision::Start);
                },
            }
            k = k + 1;
        }
        assert(dv.take(n as int) =~= dv);
        self.pool = new_pool;
        decisions
    }
}
/// Whether no two processes of `d` serve the same element.
pub open spec fn distinct_ids(d: Seq<(u128, KindView)>) -> bool {
    forall|i: int, j: int| 0 <= i < j < d.len() ==> (#[trigger] d[i]).0 != (#[trigger] d[j]).0
}

/// A process never needs a restart to become what it is.
pub proof fn lemma_no_restart_for_same_kind(k: KindView)
    ensures
        !kind_needs_restart(k, k),
{
}

/// After adjusting a pool to distinct desired processes, the new processes
/// are the desired ones in their order, each of a kind that needs no
/// restart to become the desired kind.
proof fn lemma_apply_matches(old: Seq<(u128, KindView)>, d: Seq<(u128, KindView)>)
    requires
        distinct_ids(d),
    ensures
        ({
            let new = pool_apply(old, d).1;
            &&& new.len() == d.len()
            &&& forall|i: int|
                0 <= i < d.len() ==> (#[trigger] new[i]).0 == d[i].0 && !kind_needs_restart(new[i].1, d[i].1)
        }),
    decreases d.len(),
{
    if d.len() > 0 {
        let p = d.drop_last();
        assert(distinct_ids(p)) by {
            assert forall|i: int, j: int| 0 <= i < j < p.len() implies (#[trigger] p[i]).0 != (#[trigger] p[j]).0 by {
                assert(p[i] == d[i] && p[j] == d[j]);
            }
        }
        lemma_apply_matches(old, p);
        let (rem, new0, ds) = pool_apply(old, p);
        let id = d.last().0;
        assert forall|j: int| 0 <= j < new0.len() implies !serves(id)(#[trigger] new0[j]) by {
            assert(new0[j].0 == d[j].0);
            assert(d[j].0 != d[d.len() - 1].0);
        }
        lemma_first_index(new0, serves(id), new0.len() as int);
        lemma_no_restart_for_same_kind(d.last().1);
    }
}

/// Adjusting the processes `new` again to `d`, when they are `d`'s in order
/// and need no restart: the first `j` steps keep every process and leave
/// the processes from `j` on.
proof fn lemma_apply_again_prefix(new: Seq<(u128, KindView)>, d: Seq<(u128, KindView)>, j: int)
    requires
        0 <= j <= d.len(),
        new.len() == d.len(),
        forall|i: int| 0 <= i < d.len() ==> (#[trigger] new[i]).0 == d[i].0 && !kind_needs_restart(new[i].1, d[i].1),
    ensures
        ({
            let (rem, _, ds) = pool_apply(new, d.take(j));
            &&& rem == new.skip(j)
            &&& ds == Seq::new(j as nat, |i: int| JobDecision::Keep)
        }),
    decreases j,
{
    if j > 0 {
        lemma_apply_again_prefix(new, d, j - 1);
        assert(d.take(j).drop_last() =~= d.take(j - 1));
        let rem = new.skip(j - 1);
        let id = d[j - 1].0;
        assert(rem[0] == new[j - 1]);
        lemma_first_index(rem, serves(id), 0);
        assert(rem.remove(0) =~= new.skip(j));
        let (_, _, ds) = pool_apply(new, d.take(j - 1));
        assert(ds.push(JobDecision::Keep) =~= Seq::new(j as nat, |i: int| JobDecision::Keep));
    } else {
        assert(new.skip(0) =~= new);
        assert(Seq::new(0, |i: int| JobDecision::Keep) =~= Seq::<JobDecision>::empty());
    }
}

/// A pool adjusted to the desired processes keeps every process when it is
/// adjusted to them again, where no two of them serve the same element.
pub proof fn lemma_apply_again_keeps_all(old: Seq<(u128, KindView)>, d: Seq<(u128, KindView)>)
    requires
        distinct_ids(d),
    ensures
        pool_apply(pool_apply(old, d).1, d).2 == Seq::new(d.len(), |i: int| JobDecision::Keep),
{
    lemma_apply_matches(old, d);
    let new = pool_apply(old, d).1;
    lemma_apply_again_prefix(new, d, d.len() as int);
    assert(d.take(d.len() as int) =~= d);
}

/// URL a process pulls its stream from.
pub open spec fn kind_src(k: KindView) -> Seq<char> {
    match k {
        KindView::Copy(_, f, _) => f,
        KindView::Transcoding(_, f, _, _) => f,
        KindView::Mixing(_, f, _) => f,
        KindView::File(_, f, _) => f,
    }
}

/// URL a process publishes its stream onto.
pub open spec fn kind_dst(k: KindView) -> Seq<char> {
    match k {
        KindView::Copy(_, _, t) => t,
        KindView::Transcoding(_, _, t, _) => t,
        KindView::Mixing(_, _, t) => t,
        KindView::File(_, _, t) => t,
    }
}

/// Whether the running process `r` already does what `k` asks for: it is
/// a process of the same kind, pulling from the same source and publishing
/// onto the same destination; a transcoding with the same options too.
pub open spec fn already_serving(r: KindView, k: KindView) -> bool {
    &&& (r is Copy) == (k is Copy)
    &&& (r is Transcoding) == (k is Transcoding)
    &&& (r is Mixing) == (k is Mixing)
    &&& (r is File) == (k is File)
    &&& kind_src(r) == kind_src(k)
    &&& kind_dst(r) == kind_dst(k)
    &&& (k is Transcoding ==> r == k)
}

/// Whether among the processes `s` one serving `id` already does what `k`
/// asks for.
pub open spec fn runs_already(s: Seq<(u128, KindView)>, id: u128, k: KindView) -> bool {
    exists|j: int| 0 <= j < s.len() && s[j].0 == id && already_serving(#[trigger] s[j].1, k)
}

/// The processes left over from adjusting a pool were all running before.
proof fn lemma_leftovers_ran(old: Seq<(u128, KindView)>, d: Seq<(u128, KindView)>)
    ensures
        forall|j: int|
            0 <= j < pool_apply(old, d).0.len() ==> old.contains(#[trigger] pool_apply(old, d).0[j]),
    decreases d.len(),
{
    if d.len() > 0 {
        lemma_leftovers_ran(old, d.drop_last());
        let rem = pool_apply(old, d.drop_last()).0;
        let id = d.last().0;
        match first_index(rem, serves(id)) {
            Some(i) => {
                lemma_first_index_some(rem, serves(id));
                let rem2 = rem.remove(i);
                assert forall|j: int| 0 <= j < rem2.len() implies old.contains(#[trigger] rem2[j]) by {
                    if j < i {
                        assert(rem2[j] == rem[j]);
                    } else {
                        assert(rem2[j] == rem[j + 1]);
                    }
                }
            },
            None => {},
        }
    }
}

/// Adjusting a pool keeps a running process only where it already does
/// what is desired: a decision to keep the process serving an element is
/// taken only if a process that was running for that element is of the
/// same kind, pulls from the same source and publishes onto the same
/// destination (and, for a transcoding, is the same). A process whose
/// source or destination changed is restarted.
pub proof fn lemma_apply_keeps_only_same(old: Seq<(u128, KindView)>, d: Seq<(u128, KindView)>)
    ensures
        pool_apply(old, d).2.len() == d.len(),
        forall|i: int|
            0 <= i < d.len() && #[trigger] pool_apply(old, d).2[i] == JobDecision::Keep ==> runs_already(
                old,
                d[i].0,
                d[i].1,
            ),
    decreases d.len(),
{
    if d.len() > 0 {
        let p = d.drop_last();
        lemma_apply_keeps_only_same(old, p);
        lemma_leftovers_ran(old, p);
        let (rem, _, ds) = pool_apply(old, p);
        let id = d.last().0;
        let k = d.last().1;
        assert forall|i: int|
            0 <= i < d.len() && #[trigger] pool_apply(old, d).2[i] == JobDecision::Keep implies runs_already(
            old,
            d[i].0,
            d[i].1,
        ) by {
            if i < d.len() - 1 {
                assert(pool_apply(old, d).2[i] == ds[i]);
                assert(p[i] == d[i]);
            } else {
                lemma_first_index_some(rem, serves(id));
                let x = first_index(rem, serves(id))->0;
                let e = rem[x];
                assert(old.contains(e));
                let j = choose|j: int| 0 <= j < old.len() && old[j] == e;
                assert(old[j].0 == id);
                assert(already_serving(old[j].1, k));
            }
        }
    }
}

/// Whether the endpoint `e` of the backup input `i` of the re-stream `key`
/// serves the live stream at `u`: an online RTMP endpoint serves it at the
/// local RTMP URL of the input; a file endpoint of an enabled input whose
/// file is downloaded serves it at the `file` URL of the file under
/// `file_root`.
pub open spec fn serves_at(
    i: FailoverInput,
    e: InputEndpoint,
    key: Seq<char>,
    files: Seq<LocalFileView>,
    file_root: Seq<char>,
    u: Seq<char>,
) -> bool {
    ||| e.kind == InputEndpointKind::Rtmp && e.status == Status::Online && u == "rtmp://127.0.0.1:1935/"@ + key
        + "/"@ + i.key@
    ||| i.enabled && e.kind == InputEndpointKind::File && e.file_id is Some && is_local(files, e.file_id->0@)
        && u == path_url(joined_path(file_root, e.file_id->0@))
}

/// Whether `e` is an RTMP endpoint receiving a live stream.
pub open spec fn live_rtmp(e: InputEndpoint) -> bool {
    e.kind == InputEndpointKind::Rtmp && e.status == Status::Online
}

/// What one endpoint offers is what it serves, and a live RTMP endpoint
/// offers something.
proof fn lemma_endpoint_source(
    i: FailoverInput,
    e: InputEndpoint,
    key: Seq<char>,
    files: Seq<LocalFileView>,
    file_root: Seq<char>,
)
    ensures
        endpoint_source(i, e, key, files, file_root) matches Some(u) ==> serves_at(i, e, key, files, file_root, u),
        live_rtmp(e) ==> endpoint_source(i, e, key, files, file_root) is Some,
{
    reveal_strlit("");
    assert("rtmp://127.0.0.1:1935/"@ + key + ""@ + "/"@ + i.key@ =~= "rtmp://127.0.0.1:1935/"@ + key + "/"@
        + i.key@);
}

/// What the endpoints `es` offer first is served by one of them, and they
/// offer something where one is a live RTMP endpoint.
proof fn lemma_endpoints_source(
    i: FailoverInput,
    es: Seq<InputEndpoint>,
    key: Seq<char>,
    files: Seq<LocalFileView>,
    file_root: Seq<char>,
)
    ensures
        endpoints_source(i, es, key, files, file_root) matches Some(u) ==> exists|j: int|
            0 <= j < es.len() && serves_at(i, #[trigger] es[j], key, files, file_root, u),
        (exists|j: int| 0 <= j < es.len() && live_rtmp(#[trigger] es[j])) ==> endpoints_source(
            i,
            es,
            key,
            files,
            file_root,
        ) is Some,
    decreases es.len(),
{
    if es.len() > 0 {
        lemma_endpoint_source(i, es[0], key, files, file_root);
        lemma_endpoints_source(i, es.drop_first(), key, files, file_root);
        if endpoint_source(i, es[0], key, files, file_root) is None {
            match endpoints_source(i, es.drop_first(), key, files, file_root) {
                Some(u) => {
                    let j = choose|j: int|
                        0 <= j < es.drop_first().len() && serves_at(
                            i,
                            #[trigger] es.drop_first()[j],
                            key,
                            files,
                            file_root,
                            u,
                        );
                    assert(es[j + 1] == es.drop_first()[j]);
                },
                None => {
                    if exists|j: int| 0 <= j < es.len() && live_rtmp(#[trigger] es[j]) {
                        let j = choose|j: int| 0 <= j < es.len() && live_rtmp(#[trigger] es[j]);
                        assert(j != 0);
                        assert(es.drop_first()[j - 1] == es[j]);
                    }
                },
            }
        }
    }
}

/// The source the backup inputs `v` offer is served by an endpoint of one
/// of them, and no earlier backup input has a live RTMP endpoint; there is
/// a source wherever one of them has a live RTMP endpoint.
proof fn lemma_failover_source(
    v: Seq<FailoverInput>,
    key: Seq<char>,
    files: Seq<LocalFileView>,
    file_root: Seq<char>,
)
    ensures
        failover_source(v, key, files, file_root) matches Some(u) ==> exists|k: int, j: int|
            #![trigger v[k].endpoints@[j]]
            0 <= k < v.len() && 0 <= j < v[k].endpoints@.len() && serves_at(
                v[k],
                v[k].endpoints@[j],
                key,
                files,
                file_root,
                u,
            ) && forall|m: int, n: int|
                0 <= m < k && 0 <= n < v[m].endpoints@.len() ==> !live_rtmp(#[trigger] v[m].endpoints@[n]),
        (exists|k: int, j: int|
            0 <= k < v.len() && 0 <= j < v[k].endpoints@.len() && live_rtmp(#[trigger] v[k].endpoints@[j]))
            ==> failover_source(v, key, files, file_root) is Some,
    decreases v.len(),
{
    if v.len() > 0 {
        let t = v.drop_first();
        lemma_endpoints_source(v[0], v[0].endpoints@, key, files, file_root);
        lemma_failover_source(t, key, files, file_root);
        match endpoints_source(v[0], v[0].endpoints@, key, files, file_root) {
            Some(u) => {
                let j = choose|j: int|
                    0 <= j < v[0].endpoints@.len() && serves_at(
                        v[0],
                        #[trigger] v[0].endpoints@[j],
                        key,
                        files,
                        file_root,
                        u,
                    );
                assert(serves_at(v[0], v[0].endpoints@[j], key, files, file_root, u));
            },
            None => {
                assert(forall|n: int| 0 <= n < v[0].endpoints@.len() ==> !live_rtmp(#[trigger] v[0].endpoints@[n]));
                match failover_source(t, key, files, file_root) {
                    Some(u) => {
                        let (k, j) = choose|k: int, j: int|
                            #![trigger t[k].endpoints@[j]]
                            0 <= k < t.len() && 0 <= j < t[k].endpoints@.len() && serves_at(
                                t[k],
                                t[k].endpoints@[j],
                                key,
                                files,
                                file_root,
                                u,
                            ) && forall|m: int, n: int|
                                0 <= m < k && 0 <= n < t[m].endpoints@.len() ==> !live_rtmp(
                                    #[trigger] t[m].endpoints@[n],
                                );
                        assert(v[k + 1] == t[k]);
                        assert forall|m: int, n: int|
                            0 <= m < k + 1 && 0 <= n < v[m].endpoints@.len() implies !live_rtmp(
                            #[trigger] v[m].endpoints@[n],
                        ) by {
                            if m > 0 {
                                assert(v[m] == t[m - 1]);
                            }
                        }
                        assert(serves_at(v[k + 1], v[k + 1].endpoints@[j], key, files, file_root, u));
                    },
                    None => {
                        if exists|k: int, j: int|
                            0 <= k < v.len() && 0 <= j < v[k].endpoints@.len() && live_rtmp(
                                #[trigger] v[k].endpoints@[j],
                            ) {
                            let (k, j) = choose|k: int, j: int|
                                0 <= k < v.len() && 0 <= j < v[k].endpoints@.len() && live_rtmp(
                                    #[trigger] v[k].endpoints@[j],
                                );
                            assert(k != 0);
                            assert(t[k - 1] == v[k]);
                            assert(live_rtmp(t[k - 1].endpoints@[j]));
                        }
                    },
                }
            },
        }
    }
}

/// The process an RTMP endpoint of an enabled main input with a failover
/// source needs, while no playlist plays (see
/// [`RestreamerKind::from_input`]): a copy onto the endpoint's own local
/// RTMP URL, from the first backup input that serves a live stream: an
/// online RTMP endpoint of it, at that input's local RTMP URL, or a
/// downloaded file of it. No backup input before the one chosen has an
/// online RTMP endpoint, so a backup that goes live takes over from an
/// offline one; and there is a copy wherever a backup input is live.
pub proof fn lemma_failover_copies_from_live_input(
    input: Input,
    endpoint: InputEndpoint,
    key: Seq<char>,
    files: Seq<LocalFileView>,
    file_root: Seq<char>,
)
    requires
        input.enabled,
        endpoint.kind == InputEndpointKind::Rtmp,
        input.src matches Some(InputSrc::Failover(_)),
    ensures
        ({
            let v = input.src->Some_0->Failover_0@;
            &&& input_kind(input, endpoint, key, false, files, file_root) matches Some(kind) ==> {
                &&& kind matches KindView::Copy(id, _, to)
                &&& id == endpoint.id
                &&& to == "rtmp://127.0.0.1:1935/"@ + key + "/"@ + input.key@
                &&& exists|k: int, j: int|
                    #![trigger v[k].endpoints@[j]]
                    0 <= k < v.len() && 0 <= j < v[k].endpoints@.len() && serves_at(
                        v[k],
                        v[k].endpoints@[j],
                        key,
                        files,
                        file_root,
                        kind_src(kind),
                    ) && forall|m: int, n: int|
                        0 <= m < k && 0 <= n < v[m].endpoints@.len() ==> !live_rtmp(#[trigger] v[m].endpoints@[n])
            }
            &&& (exists|k: int, j: int|
                0 <= k < v.len() && 0 <= j < v[k].endpoints@.len() && live_rtmp(#[trigger] v[k].endpoints@[j]))
                ==> input_kind(input, endpoint, key, false, files, file_root) is Some
        }),
{
    let v = input.src->Some_0->Failover_0@;
    lemma_failover_source(v, key, files, file_root);
    reveal_strlit("");
    assert("rtmp://127.0.0.1:1935/"@ + key + ""@ + "/"@ + input.key@ =~= "rtmp://127.0.0.1:1935/"@ + key + "/"@
        + input.key@);
}

/// The process an endpoint of a main input needs (see
/// [`RestreamerKind::from_input`]), by the kind of the endpoint: none for a
/// disabled input or a file endpoint; for an RTMP endpoint, none while a
/// playlist plays, a copy from the remote URL of the input where it pulls
/// from one, none where it has no source; for an HLS endpoint, a
/// transcoding of the input's local RTMP stream into H.264 and AAC onto the
/// `hls` virtual host where one of its RTMP endpoints is online, none
/// otherwise.
pub proof fn lemma_input_kind_cases(
    input: Input,
    endpoint: InputEndpoint,
    key: Seq<char>,
    is_playing_playlist: bool,
    files: Seq<LocalFileView>,
    file_root: Seq<char>,
)
    ensures
        ({
            let r = input_kind(input, endpoint, key, is_playing_playlist, files, file_root);
            let own = "rtmp://127.0.0.1:1935/"@ + key + "/"@ + input.key@;
            &&& !input.enabled ==> r is None
            &&& endpoint.kind == InputEndpointKind::File ==> r is None
            &&& endpoint.kind == InputEndpointKind::Rtmp && is_playing_playlist ==> r is None
            &&& input.enabled && endpoint.kind == InputEndpointKind::Rtmp && !is_playing_playlist && input.src is None
                ==> r is None
            &&& input.enabled && endpoint.kind == InputEndpointKind::Rtmp && !is_playing_playlist ==> (
            input.src matches Some(InputSrc::Remote(url)) ==> r == Some(KindView::Copy(endpoint.id, url@, own)))
            &&& input.enabled && endpoint.kind == InputEndpointKind::Hls ==> {
                if exists|e: int| 0 <= e < input.endpoints@.len() && live_rtmp(#[trigger] input.endpoints@[e]) {
                    r matches Some(KindView::Transcoding(id, from, to, o)) && id == endpoint.id && from == own && to
                        == "rtmp://127.0.0.1:1935/"@ + key + "?vhost=hls"@ + "/"@ + input.key@ && o.vcodec == Some(
                        "libx264"@,
                    ) && o.acodec == Some("libfdk_aac"@)
                } else {
                    r is None
                }
            }
        }),
{
    reveal_strlit("");
    assert("rtmp://127.0.0.1:1935/"@ + key + ""@ + "/"@ + input.key@ =~= "rtmp://127.0.0.1:1935/"@ + key + "/"@
        + input.key@);
    if exists|e: int| 0 <= e < input.endpoints@.len() && live_rtmp(#[trigger] input.endpoints@[e]) {
        let e = choose|e: int| 0 <= e < input.endpoints@.len() && live_rtmp(#[trigger] input.endpoints@[e]);
        assert(input.endpoints@[e].kind == InputEndpointKind::Rtmp && input.endpoints@[e].status == Status::Online);
    }
}

/// A running process is restarted to become another exactly when it does
/// not already do what the other asks for (see [`already_serving`]): a
/// copy, mixing or file process when its source or destination changes, a
/// transcoding when anything changes, any process when its kind changes.
pub proof fn lemma_restart_when_changed(old: KindView, new: KindView)
    ensures
        kind_needs_restart(old, new) == !already_serving(old, new),
{
}

} // verus!
