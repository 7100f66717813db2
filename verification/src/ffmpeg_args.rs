//! Command-line arguments of the FFmpeg processes that copy, transcode or
//! play a live stream.

use vstd::prelude::*;

use crate::ffmpeg::{opt_view, CopyRestreamer, FileRestreamer, OptionsView, TranscodingOptions, TranscodingRestreamer};
use crate::url_util::{extension, has_scheme, path_extension, path_of_url, scheme, url_path};

verus! {

/// Texts of the arguments `v`.
pub open spec fn texts(v: Seq<String>) -> Seq<Seq<char>> {
    v.map_values(|s: String| s@)
}

/// Whether the path of the URL `url` has the extension `ext`.
pub open spec fn url_has_extension(url: Seq<char>, ext: Seq<char>) -> bool {
    match url_path(url) {
        Some(p) => extension(p) == Some(ext),
        None => false,
    }
}

/// Whether the path of the URL `url` has the extension `ext`.
fn has_extension(url: &str, ext: &str) -> (r: bool)
    ensures
        r == url_has_extension(url@, ext@),
{
    match path_of_url(url) {
        Some(p) => match path_extension(p.as_str()) {
            Some(e) => e == String::from_str(ext),
            None => false,
        },
        None => false,
    }
}

/// Whether a process that copies a live stream can pull it from `from`:
/// over HTTP(S), RTMP(S), or from a file.
pub open spec fn copy_source(from: Seq<char>) -> bool {
    let s = scheme(from);
    s == "http"@ || s == "https"@ || s == "rtmp"@ || s == "rtmps"@ || s == "file"@
}

/// Whether a process can publish a live stream onto `to`: an FLV file, an
/// Icecast server, an RTMP(S) or SRT endpoint.
pub open spec fn copy_destination(to: Seq<char>) -> bool {
    let s = scheme(to);
    (s == "file"@ && url_has_extension(to, "flv"@)) || s == "icecast"@ || s == "rtmp"@ || s == "rtmps"@ || s
        == "srt"@
}

/// Whether a process that copies a live stream can pull it from `from`
/// (see [`copy_source`]).
pub fn is_copy_source(from: &str) -> (r: bool)
    ensures
        r == copy_source(from@),
{
    has_scheme(from, "http") || has_scheme(from, "https") || has_scheme(from, "rtmp") || has_scheme(from, "rtmps")
        || has_scheme(from, "file")
}

/// Whether a process can publish a live stream onto `to` (see
/// [`copy_destination`]).
pub fn is_copy_destination(to: &str) -> (r: bool)
    ensures
        r == copy_destination(to@),
{
    (has_scheme(to, "file") && has_extension(to, "flv")) || has_scheme(to, "icecast") || has_scheme(to, "rtmp")
        || has_scheme(to, "rtmps") || has_scheme(to, "srt")
}

/// Whether publishing onto `to` writes a recorded FLV file (see
/// [`records`]).
pub fn is_recording(to: &str) -> (r: bool)
    ensures
        r == records(to@),
{
    has_scheme(to, "file") && has_extension(to, "flv")
}

/// Arguments that read a copied live stream from `from`: a live stream read
/// over HTTP(S) is read at its native rate unless it is an HLS playlist; a
/// file is read at its native rate, looping.
pub open spec fn copy_input_args(from: Seq<char>) -> Seq<Seq<char>> {
    let s = scheme(from);
    if s == "http"@ || s == "https"@ {
        if url_has_extension(from, "m3u8"@) {
            seq![]
        } else {
            seq!["-re"@]
        }
    } else if s == "rtmp"@ || s == "rtmps"@ {
        seq![]
    } else {
        seq!["-re"@, "-stream_loop"@, "-1"@]
    }
}

/// Arguments that publish a live stream onto `to`, as is where it can be;
/// an FLV file is written to `dvr_file`.
pub open spec fn output_args(to: Seq<char>, dvr_file: Seq<char>) -> Seq<Seq<char>> {
    let s = scheme(to);
    if s == "file"@ && url_has_extension(to, "flv"@) {
        seq!["-c"@, "copy"@, dvr_file]
    } else if s == "icecast"@ {
        seq![
            "-c:a"@,
            "libmp3lame"@,
            "-b:a"@,
            "64k"@,
            "-f"@,
            "mp3"@,
            "-content_type"@,
            "audio/mpeg"@,
            to,
        ]
    } else if s == "rtmp"@ || s == "rtmps"@ {
        seq!["-c"@, "copy"@, "-f"@, "flv"@, to]
    } else {
        seq!["-c"@, "copy"@, "-strict"@, "-2"@, "-y"@, "-f"@, "mpegts"@, to]
    }
}

/// What a copying process publishes with, by the scheme of its
/// destination: RTMP and RTMPS endpoints get the stream copied as is into
/// FLV; SRT endpoints get it copied into MPEG-TS; Icecast servers get its
/// audio as MP3; an FLV file URL gets the stream copied into the recording
/// file `dvr_file`.
pub proof fn lemma_output_args(to: Seq<char>, dvr_file: Seq<char>)
    ensures
        scheme(to) == "rtmp"@ || scheme(to) == "rtmps"@ ==> output_args(to, dvr_file) == seq![
            "-c"@,
            "copy"@,
            "-f"@,
            "flv"@,
            to,
        ],
        scheme(to) == "srt"@ ==> output_args(to, dvr_file) == seq![
            "-c"@,
            "copy"@,
            "-strict"@,
            "-2"@,
            "-y"@,
            "-f"@,
            "mpegts"@,
            to,
        ],
        scheme(to) == "icecast"@ ==> output_args(to, dvr_file) == seq![
            "-c:a"@,
            "libmp3lame"@,
            "-b:a"@,
            "64k"@,
            "-f"@,
            "mp3"@,
            "-content_type"@,
            "audio/mpeg"@,
            to,
        ],
        scheme(to) == "file"@ && url_has_extension(to, "flv"@) ==> output_args(to, dvr_file) == seq![
            "-c"@,
            "copy"@,
            dvr_file,
        ],
{
    reveal_strlit("rtmp");
    reveal_strlit("rtmps");
    reveal_strlit("srt");
    reveal_strlit("icecast");
    reveal_strlit("file");
    assert("rtmp"@ != "file"@) by {
        assert("rtmp"@[0] != "file"@[0]);
    }
    assert("rtmps"@.len() != "file"@.len());
    assert("srt"@.len() != "file"@.len());
    assert("icecast"@.len() != "file"@.len());
    assert("icecast"@.len() != "rtmp"@.len() && "icecast"@.len() != "rtmps"@.len());
    assert("srt"@.len() != "rtmp"@.len() && "srt"@.len() != "rtmps"@.len() && "srt"@.len() != "icecast"@.len());
}

/// How a copying process reads its source, by its scheme: an RTMP or RTMPS
/// stream as it comes; a file at its native rate, looping forever; an
/// HTTP(S) stream at its native rate, unless it is an HLS playlist, which
/// is read as it comes.
pub proof fn lemma_copy_input_args(from: Seq<char>)
    ensures
        scheme(from) == "rtmp"@ || scheme(from) == "rtmps"@ ==> copy_input_args(from) == Seq::<Seq<char>>::empty(),
        scheme(from) == "file"@ ==> copy_input_args(from) == seq!["-re"@, "-stream_loop"@, "-1"@],
        (scheme(from) == "http"@ || scheme(from) == "https"@) && !url_has_extension(from, "m3u8"@)
            ==> copy_input_args(from) == seq!["-re"@],
        (scheme(from) == "http"@ || scheme(from) == "https"@) && url_has_extension(from, "m3u8"@)
            ==> copy_input_args(from) == Seq::<Seq<char>>::empty(),
{
    reveal_strlit("rtmp");
    reveal_strlit("rtmps");
    reveal_strlit("http");
    reveal_strlit("https");
    reveal_strlit("file");
    assert("rtmp"@ != "http"@) by {
        assert("rtmp"@[0] != "http"@[0]);
    }
    assert("file"@ != "http"@) by {
        assert("file"@[0] != "http"@[0]);
    }
    assert("rtmps"@ != "https"@) by {
        assert("rtmps"@[0] != "https"@[0]);
    }
    assert("rtmp"@ != "file"@) by {
        assert("rtmp"@[0] != "file"@[0]);
    }
    assert("rtmps"@.len() != "file"@.len() && "rtmps"@.len() != "http"@.len());
    assert("https"@.len() != "file"@.len() && "https"@.len() != "rtmp"@.len());
}

/// Whether publishing onto `to` writes a recorded FLV file.
pub open spec fn records(to: Seq<char>) -> bool {
    scheme(to) == "file"@ && url_has_extension(to, "flv"@)
}

/// Appends the texts `items` to `v`.
fn push_all(v: &mut Vec<String>, items: &[&str])
    ensures
        texts(final(v)@) == texts(old(v)@) + items@.map_values(|s: &str| s@),
{
    let mut k: usize = 0;
    while k < items.len()
        invariant
            k <= items@.len(),
            texts(v@) == texts(old(v)@) + items@.take(k as int).map_values(|s: &str| s@),
        decreases items.len() - k,
    {
        let ghost before = v@;
        v.push(String::from_str(items[k]));
        assert(items@.take(k as int + 1).map_values(|s: &str| s@) =~= items@.take(k as int).map_values(
            |s: &str| s@,
        ).push(items@[k as int]@));
        assert(texts(v@) =~= texts(before).push(items@[k as int]@));
        k = k + 1;
    }
    assert(items@.take(items@.len() as int) =~= items@);
}

/// Appends the arguments that publish onto `to` (see [`output_args`]).
fn push_output(v: &mut Vec<String>, to: &str, dvr_file: Option<&str>)
    requires
        copy_destination(to@),
        records(to@) ==> dvr_file is Some,
    ensures
        texts(final(v)@) == texts(old(v)@) + output_args(
            to@,
            match dvr_file {
                Some(f) => f@,
                None => Seq::empty(),
            },
        ),
{
    let ghost d = match dvr_file {
        Some(f) => f@,
        None => Seq::<char>::empty(),
    };
    if has_scheme(to, "file") && has_extension(to, "flv") {
        push_all(v, &["-c", "copy"]);
        match dvr_file {
            Some(f) => {
                push_all(v, &[f]);
            },
            None => {},
        }
        assert(texts(v@) =~= texts(old(v)@) + output_args(to@, d));
    } else if has_scheme(to, "icecast") {
        push_all(v, &["-c:a", "libmp3lame", "-b:a", "64k", "-f", "mp3", "-content_type", "audio/mpeg", to]);
        assert(texts(v@) =~= texts(old(v)@) + output_args(to@, d));
    } else if has_scheme(to, "rtmp") || has_scheme(to, "rtmps") {
        push_all(v, &["-c", "copy", "-f", "flv", to]);
        assert(texts(v@) =~= texts(old(v)@) + output_args(to@, d));
    } else {
        push_all(v, &["-c", "copy", "-strict", "-2", "-y", "-f", "mpegts", to]);
        assert(texts(v@) =~= texts(old(v)@) + output_args(to@, d));
    }
}

impl CopyRestreamer {
    /// FFmpeg arguments of this process: how it reads its source (see
    /// [`copy_input_args`]), the source, and how it publishes it (see
    /// [`output_args`]); `dvr_file` is the file a recording is written to.
    pub fn setup_ffmpeg(&self, dvr_file: Option<&str>) -> (args: Vec<String>)
        requires
            copy_source(self.from_url@),
            copy_destination(self.to_url@),
            records(self.to_url@) ==> dvr_file is Some,
        ensures
            texts(args@) == copy_input_args(self.from_url@) + seq!["-i"@, self.from_url@] + output_args(
                self.to_url@,
                match dvr_file {
                    Some(f) => f@,
                    None => Seq::empty(),
                },
            ),
    {
        let from = self.from_url.as_str();
        let mut args: Vec<String> = Vec::new();
        if has_scheme(from, "http") || has_scheme(from, "https") {
            if !has_extension(from, "m3u8") {
                push_all(&mut args, &["-re"]);
            }
        } else if has_scheme(from, "rtmp") || has_scheme(from, "rtmps") {
        } else {
            push_all(&mut args, &["-re", "-stream_loop", "-1"]);
        }
        assert(texts(args@) =~= copy_input_args(self.from_url@));
        push_all(&mut args, &["-i", from]);
        push_output(&mut args, self.to_url.as_str(), dvr_file);
        args
    }
}

impl CopyRestreamer {
    /// FFmpeg arguments of this process where it can run (see
    /// [`CopyRestreamer::setup_ffmpeg`]): its source and destination are
    /// served, and a file to record to is given where it records; none
    /// otherwise.
    pub fn try_setup_ffmpeg(&self, dvr_file: Option<&str>) -> (r: Option<Vec<String>>)
        ensures
            (r is Some) == (copy_source(self.from_url@) && copy_destination(self.to_url@) && (records(self.to_url@)
                ==> dvr_file is Some)),
            r matches Some(args) ==> texts(args@) == copy_input_args(self.from_url@) + seq!["-i"@, self.from_url@]
                + output_args(
                self.to_url@,
                match dvr_file {
                    Some(f) => f@,
                    None => Seq::empty(),
                },
            ),
    {
        if is_copy_source(self.from_url.as_str()) && is_copy_destination(self.to_url.as_str()) && (!is_recording(
            self.to_url.as_str(),
        ) || dvr_file.is_some()) {
            Some(self.setup_ffmpeg(dvr_file))
        } else {
            None
        }
    }
}

/// Arguments that read the file `from`, once or looping.
pub open spec fn file_input_args(repeat: bool) -> Seq<Seq<char>> {
    if repeat {
        seq!["-loglevel"@, "debug"@, "-re"@, "-stream_loop"@, "-1"@]
    } else {
        seq!["-loglevel"@, "debug"@, "-re"@]
    }
}

impl FileRestreamer {
    /// FFmpeg arguments of this process: debug logs, the file read at its
    /// native rate, looping if `repeat`, and how it is published (see
    /// [`output_args`]); `dvr_file` is the file a recording is written to.
    pub fn setup_ffmpeg(&self, repeat: bool, dvr_file: Option<&str>) -> (args: Vec<String>)
        requires
            scheme(self.from_url@) == "file"@,
            copy_destination(self.to_url@),
            records(self.to_url@) ==> dvr_file is Some,
        ensures
            texts(args@) == file_input_args(repeat) + seq!["-i"@, self.from_url@] + output_args(
                self.to_url@,
                match dvr_file {
                    Some(f) => f@,
                    None => Seq::empty(),
                },
            ),
    {
        let mut args: Vec<String> = Vec::new();
        push_all(&mut args, &["-loglevel", "debug", "-re"]);
        if repeat {
            push_all(&mut args, &["-stream_loop", "-1"]);
        }
        assert(texts(args@) =~= file_input_args(repeat));
        push_all(&mut args, &["-i", self.from_url.as_str()]);
        push_output(&mut args, self.to_url.as_str(), dvr_file);
        args
    }
}

impl FileRestreamer {
    /// FFmpeg arguments of this process where it can run (see
    /// [`FileRestreamer::setup_ffmpeg`]): it reads a file, its destination
    /// is served, and a file to record to is given where it records; none
    /// otherwise.
    pub fn try_setup_ffmpeg(&self, repeat: bool, dvr_file: Option<&str>) -> (r: Option<Vec<String>>)
        ensures
            (r is Some) == (scheme(self.from_url@) == "file"@ && copy_destination(self.to_url@) && (records(
                self.to_url@,
            ) ==> dvr_file is Some)),
            r matches Some(args) ==> texts(args@) == file_input_args(repeat) + seq!["-i"@, self.from_url@]
                + output_args(
                self.to_url@,
                match dvr_file {
                    Some(f) => f@,
                    None => Seq::empty(),
                },
            ),
    {
        if has_scheme(self.from_url.as_str(), "file") && is_copy_destination(self.to_url.as_str()) && (!is_recording(
            self.to_url.as_str(),
        ) || dvr_file.is_some()) {
            Some(self.setup_ffmpeg(repeat, dvr_file))
        } else {
            None
        }
    }
}

/// The flag `flag` with the value `v`, where there is one.
pub open spec fn opt_arg(flag: Seq<char>, v: Option<Seq<char>>) -> Seq<Seq<char>> {
    match v {
        Some(x) => seq![flag, x],
        None => seq![],
    }
}

/// Arguments of the transcoding options `o`: the video encoder, its preset,
/// tune and profile, the audio encoder and sampling rate, the maximum
/// bitrate, the buffer size and the frame rate, each where it is given.
pub open spec fn options_args(o: OptionsView) -> Seq<Seq<char>> {
    opt_arg("-c:v"@, o.vcodec) + opt_arg("-preset"@, o.vpreset) + opt_arg("-tune"@, o.tune) + opt_arg(
        "-profile:v"@,
        o.vprofile,
    ) + opt_arg("-c:a"@, o.acodec) + opt_arg("-ar"@, o.ar) + opt_arg("-maxrate"@, o.maxrate) + opt_arg(
        "-bufsize"@,
        o.bufsize,
    ) + opt_arg("-r"@, o.fps)
}

/// Whether the arguments `args` pass the flag `flag` with the value `v`:
/// the flag, immediately followed by the value.
pub open spec fn passes(args: Seq<Seq<char>>, flag: Seq<char>, v: Seq<char>) -> bool {
    exists|i: int| 0 <= i && i + 1 < args.len() && #[trigger] args[i] == flag && args[i + 1] == v
}

/// A flag with its value after other arguments is passed.
proof fn lemma_pair_end(pre: Seq<Seq<char>>, flag: Seq<char>, v: Seq<char>)
    ensures
        passes(pre + opt_arg(flag, Some(v)), flag, v),
{
    let args = pre + opt_arg(flag, Some(v));
    assert(args[pre.len() as int] == flag);
    assert(args[pre.len() as int + 1] == v);
}

/// A flag passed stays passed when more arguments follow.
proof fn lemma_passes_extend(s: Seq<Seq<char>>, t: Seq<Seq<char>>, flag: Seq<char>, v: Seq<char>)
    requires
        passes(s, flag, v),
    ensures
        passes(s + t, flag, v),
{
    let i = choose|i: int| 0 <= i && i + 1 < s.len() && #[trigger] s[i] == flag && s[i + 1] == v;
    assert((s + t)[i] == s[i]);
    assert((s + t)[i + 1] == s[i + 1]);
}

/// Every transcoding option given is passed to FFmpeg with its own flag:
/// the video encoder with `-c:v`, its preset with `-preset`, its tune with
/// `-tune`, its profile with `-profile:v`, the audio encoder with `-c:a`,
/// the sampling rate with `-ar`, the maximum bitrate with `-maxrate`, the
/// buffer size with `-bufsize` and the frame rate with `-r`; no option
/// given means no arguments.
pub proof fn lemma_options_passed(o: OptionsView)
    ensures
        o.vcodec matches Some(v) ==> passes(options_args(o), "-c:v"@, v),
        o.vpreset matches Some(v) ==> passes(options_args(o), "-preset"@, v),
        o.tune matches Some(v) ==> passes(options_args(o), "-tune"@, v),
        o.vprofile matches Some(v) ==> passes(options_args(o), "-profile:v"@, v),
        o.acodec matches Some(v) ==> passes(options_args(o), "-c:a"@, v),
        o.ar matches Some(v) ==> passes(options_args(o), "-ar"@, v),
        o.maxrate matches Some(v) ==> passes(options_args(o), "-maxrate"@, v),
        o.bufsize matches Some(v) ==> passes(options_args(o), "-bufsize"@, v),
        o.fps matches Some(v) ==> passes(options_args(o), "-r"@, v),
        o.vcodec is None && o.vpreset is None && o.tune is None && o.vprofile is None && o.acodec is None && o.ar
            is None && o.maxrate is None && o.bufsize is None && o.fps is None ==> options_args(o).len() == 0,
{
    let a0 = opt_arg("-c:v"@, o.vcodec);
    let a1 = opt_arg("-preset"@, o.vpreset);
    let a2 = opt_arg("-tune"@, o.tune);
    let a3 = opt_arg("-profile:v"@, o.vprofile);
    let a4 = opt_arg("-c:a"@, o.acodec);
    let a5 = opt_arg("-ar"@, o.ar);
    let a6 = opt_arg("-maxrate"@, o.maxrate);
    let a7 = opt_arg("-bufsize"@, o.bufsize);
    let a8 = opt_arg("-r"@, o.fps);
    assert(o.vcodec is Some ==> passes(options_args(o), "-c:v"@, o.vcodec->0)) by {
        if o.vcodec is Some {
            lemma_pair_end(Seq::<Seq<char>>::empty(), "-c:v"@, o.vcodec->0);
            assert(Seq::<Seq<char>>::empty() + a0 =~= a0);
            lemma_passes_extend(a0, a1, "-c:v"@, o.vcodec->0);
            lemma_passes_extend(a0 + a1, a2, "-c:v"@, o.vcodec->0);
            lemma_passes_extend(a0 + a1 + a2, a3, "-c:v"@, o.vcodec->0);
            lemma_passes_extend(a0 + a1 + a2 + a3, a4, "-c:v"@, o.vcodec->0);
            lemma_passes_extend(a0 + a1 + a2 + a3 + a4, a5, "-c:v"@, o.vcodec->0);
            lemma_passes_extend(a0 + a1 + a2 + a3 + a4 + a5, a6, "-c:v"@, o.vcodec->0);
            lemma_passes_extend(a0 + a1 + a2 + a3 + a4 + a5 + a6, a7, "-c:v"@, o.vcodec->0);
            lemma_passes_extend(a0 + a1 + a2 + a3 + a4 + a5 + a6 + a7, a8, "-c:v"@, o.vcodec->0);
        }
    }
    assert(o.vpreset is Some ==> passes(options_args(o), "-preset"@, o.vpreset->0)) by {
        if o.vpreset is Some {
            lemma_pair_end(a0, "-preset"@, o.vpreset->0);
            lemma_passes_extend(a0 + a1, a2, "-preset"@, o.vpreset->0);
            lemma_passes_extend(a0 + a1 + a2, a3, "-preset"@, o.vpreset->0);
            lemma_passes_extend(a0 + a1 + a2 + a3, a4, "-preset"@, o.vpreset->0);
            lemma_passes_extend(a0 + a1 + a2 + a3 + a4, a5, "-preset"@, o.vpreset->0);
            lemma_passes_extend(a0 + a1 + a2 + a3 + a4 + a5, a6, "-preset"@, o.vpreset->0);
            lemma_passes_extend(a0 + a1 + a2 + a3 + a4 + a5 + a6, a7, "-preset"@, o.vpreset->0);
            lemma_passes_extend(a0 + a1 + a2 + a3 + a4 + a5 + a6 + a7, a8, "-preset"@, o.vpreset->0);
        }
    }
    assert(o.tune is Some ==> passes(options_args(o), "-tune"@, o.tune->0)) by {
        if o.tune is Some {
            lemma_pair_end(a0 + a1, "-tune"@, o.tune->0);
            lemma_passes_extend(a0 + a1 + a2, a3, "-tune"@, o.tune->0);
            lemma_passes_extend(a0 + a1 + a2 + a3, a4, "-tune"@, o.tune->0);
            lemma_passes_extend(a0 + a1 + a2 + a3 + a4, a5, "-tune"@, o.tune->0);
            lemma_passes_extend(a0 + a1 + a2 + a3 + a4 + a5, a6, "-tune"@, o.tune->0);
            lemma_passes_extend(a0 + a1 + a2 + a3 + a4 + a5 + a6, a7, "-tune"@, o.tune->0);
            lemma_passes_extend(a0 + a1 + a2 + a3 + a4 + a5 + a6 + a7, a8, "-tune"@, o.tune->0);
        }
    }
    assert(o.vprofile is Some ==> passes(options_args(o), "-profile:v"@, o.vprofile->0)) by {
        if o.vprofile is Some {
            lemma_pair_end(a0 + a1 + a2, "-profile:v"@, o.vprofile->0);
            lemma_passes_extend(a0 + a1 + a2 + a3, a4, "-profile:v"@, o.vprofile->0);
            lemma_passes_extend(a0 + a1 + a2 + a3 + a4, a5, "-profile:v"@, o.vprofile->0);
            lemma_passes_extend(a0 + a1 + a2 + a3 + a4 + a5, a6, "-profile:v"@, o.vprofile->0);
            lemma_passes_extend(a0 + a1 + a2 + a3 + a4 + a5 + a6, a7, "-profile:v"@, o.vprofile->0);
            lemma_passes_extend(a0 + a1 + a2 + a3 + a4 + a5 + a6 + a7, a8, "-profile:v"@, o.vprofile->0);
        }
    }
    assert(o.acodec is Some ==> passes(options_args(o), "-c:a"@, o.acodec->0)) by {
        if o.acodec is Some {
            lemma_pair_end(a0 + a1 + a2 + a3, "-c:a"@, o.acodec->0);
            lemma_passes_extend(a0 + a1 + a2 + a3 + a4, a5, "-c:a"@, o.acodec->0);
            lemma_passes_extend(a0 + a1 + a2 + a3 + a4 + a5, a6, "-c:a"@, o.acodec->0);
            lemma_passes_extend(a0 + a1 + a2 + a3 + a4 + a5 + a6, a7, "-c:a"@, o.acodec->0);
            lemma_passes_extend(a0 + a1 + a2 + a3 + a4 + a5 + a6 + a7, a8, "-c:a"@, o.acodec->0);
        }
    }
    assert(o.ar is Some ==> passes(options_args(o), "-ar"@, o.ar->0)) by {
        if o.ar is Some {
            lemma_pair_end(a0 + a1 + a2 + a3 + a4, "-ar"@, o.ar->0);
            lemma_passes_extend(a0 + a1 + a2 + a3 + a4 + a5, a6, "-ar"@, o.ar->0);
            lemma_passes_extend(a0 + a1 + a2 + a3 + a4 + a5 + a6, a7, "-ar"@, o.ar->0);
            lemma_passes_extend(a0 + a1 + a2 + a3 + a4 + a5 + a6 + a7, a8, "-ar"@, o.ar->0);
        }
    }
    assert(o.maxrate is Some ==> passes(options_args(o), "-maxrate"@, o.maxrate->0)) by {
        if o.maxrate is Some {
            lemma_pair_end(a0 + a1 + a2 + a3 + a4 + a5, "-maxrate"@, o.maxrate->0);
            lemma_passes_extend(a0 + a1 + a2 + a3 + a4 + a5 + a6, a7, "-maxrate"@, o.maxrate->0);
            lemma_passes_extend(a0 + a1 + a2 + a3 + a4 + a5 + a6 + a7, a8, "-maxrate"@, o.maxrate->0);
        }
    }
    assert(o.bufsize is Some ==> passes(options_args(o), "-bufsize"@, o.bufsize->0)) by {
        if o.bufsize is Some {
            lemma_pair_end(a0 + a1 + a2 + a3 + a4 + a5 + a6, "-bufsize"@, o.bufsize->0);
            lemma_passes_extend(a0 + a1 + a2 + a3 + a4 + a5 + a6 + a7, a8, "-bufsize"@, o.bufsize->0);
        }
    }
    assert(o.fps is Some ==> passes(options_args(o), "-r"@, o.fps->0)) by {
        if o.fps is Some {
            lemma_pair_end(a0 + a1 + a2 + a3 + a4 + a5 + a6 + a7, "-r"@, o.fps->0);

        }
    }
}

/// How a file is read for streaming: with debug logs, at its native rate,
/// and looping forever where it repeats.
pub proof fn lemma_file_input_args(repeat: bool)
    ensures
        repeat ==> file_input_args(repeat) == seq!["-loglevel"@, "debug"@, "-re"@, "-stream_loop"@, "-1"@],
        !repeat ==> file_input_args(repeat) == seq!["-loglevel"@, "debug"@, "-re"@],
{
}

/// Appends the flag `flag` with the value `v`, where there is one.
fn push_opt(args: &mut Vec<String>, flag: &str, v: &Option<String>)
    ensures
        texts(final(args)@) == texts(old(args)@) + opt_arg(flag@, opt_view(*v)),
{
    match v {
        Some(x) => {
            push_all(args, &[flag, x.as_str()]);
        },
        None => {
            assert(texts(args@) =~= texts(old(args)@) + seq![]);
        },
    }
}

/// Appends the arguments of the transcoding options `o` (see
/// [`options_args`]).
#[verifier::rlimit(60)]
fn push_options(args: &mut Vec<String>, o: &TranscodingOptions)
    ensures
        texts(final(args)@) == texts(old(args)@) + options_args(o@),
{
    let ghost a0 = texts(args@);
    let ghost v = o@;
    push_opt(args, "-c:v", &o.vcodec);
    let ghost p = opt_arg("-c:v"@, v.vcodec);
    push_opt(args, "-preset", &o.vpreset);
    assert(texts(args@) =~= a0 + (p + opt_arg("-preset"@, v.vpreset)));
    let ghost p = p + opt_arg("-preset"@, v.vpreset);
    push_opt(args, "-tune", &o.tune);
    assert(texts(args@) =~= a0 + (p + opt_arg("-tune"@, v.tune)));
    let ghost p = p + opt_arg("-tune"@, v.tune);
    push_opt(args, "-profile:v", &o.vprofile);
    assert(texts(args@) =~= a0 + (p + opt_arg("-profile:v"@, v.vprofile)));
    let ghost p = p + opt_arg("-profile:v"@, v.vprofile);
    push_opt(args, "-c:a", &o.acodec);
    assert(texts(args@) =~= a0 + (p + opt_arg("-c:a"@, v.acodec)));
    let ghost p = p + opt_arg("-c:a"@, v.acodec);
    push_opt(args, "-ar", &o.ar);
    assert(texts(args@) =~= a0 + (p + opt_arg("-ar"@, v.ar)));
    let ghost p = p + opt_arg("-ar"@, v.ar);
    push_opt(args, "-maxrate", &o.maxrate);
    assert(texts(args@) =~= a0 + (p + opt_arg("-maxrate"@, v.maxrate)));
    let ghost p = p + opt_arg("-maxrate"@, v.maxrate);
    push_opt(args, "-bufsize", &o.bufsize);
    assert(texts(args@) =~= a0 + (p + opt_arg("-bufsize"@, v.bufsize)));
    let ghost p = p + opt_arg("-bufsize"@, v.bufsize);
    push_opt(args, "-r", &o.fps);
    assert(texts(args@) =~= a0 + (p + opt_arg("-r"@, v.fps)));
}

/// Whether a transcoding process can pull a live stream from `from`.
pub open spec fn transcoding_source(from: Seq<char>) -> bool {
    let s = scheme(from);
    s == "http"@ || s == "https"@ || s == "rtmp"@ || s == "rtmps"@ || s == "file"@
}

/// Whether a transcoding process can publish onto `to`: an RTMP(S)
/// endpoint.
pub open spec fn transcoding_destination(to: Seq<char>) -> bool {
    scheme(to) == "rtmp"@ || scheme(to) == "rtmps"@
}

/// Whether a transcoding process can pull from `from` and publish onto
/// `to` (see [`transcoding_source`] and [`transcoding_destination`]).
pub fn is_transcodable(from: &str, to: &str) -> (r: bool)
    ensures
        r == (transcoding_source(from@) && transcoding_destination(to@)),
{
    (has_scheme(from, "http") || has_scheme(from, "https") || has_scheme(from, "rtmp") || has_scheme(from, "rtmps")
        || has_scheme(from, "file")) && (has_scheme(to, "rtmp") || has_scheme(to, "rtmps"))
}

impl TranscodingRestreamer {
    /// FFmpeg arguments of this process: a file source is read at its
    /// native rate, looping; then the source, the options (see
    /// [`options_args`]), and the destination as FLV.
    pub fn setup_ffmpeg(&self) -> (args: Vec<String>)
        requires
            transcoding_source(self.from_url@),
            transcoding_destination(self.to_url@),
        ensures
            texts(args@) == (if scheme(self.from_url@) == "file"@ {
                seq!["-re"@, "-stream_loop"@, "-1"@]
            } else {
                seq![]
            }) + seq!["-i"@, self.from_url@] + options_args(self.options@) + seq!["-f"@, "flv"@, self.to_url@],
    {
        let from = self.from_url.as_str();
        let mut args: Vec<String> = Vec::new();
        if has_scheme(from, "file") {
            push_all(&mut args, &["-re", "-stream_loop", "-1"]);
        }
        push_all(&mut args, &["-i", from]);
        push_options(&mut args, &self.options);
        push_all(&mut args, &["-f", "flv", self.to_url.as_str()]);
        args
    }
}

} // verus!
