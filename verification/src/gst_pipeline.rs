//! Descriptions of the GStreamer Daemon pipelines that copy a live stream.

use vstd::prelude::*;

use crate::ffmpeg::CopyRestreamer;
use crate::ffmpeg_args::url_has_extension;
use crate::text::{decimal, join2, u64_to_decimal};
use crate::url_util::{
    has_scheme, host_of_url, password_of_url, path_of_url, port_of_url, scheme, url_host, url_password, url_path,
    url_port, url_username, username_of_url,
};

verus! {

/// Whether a pipeline can pull a live stream from `from`: an HLS playlist
/// over HTTP(S), or an RTMP(S) endpoint.
pub open spec fn pipeline_source(from: Seq<char>) -> bool {
    let s = scheme(from);
    ((s == "http"@ || s == "https"@) && url_has_extension(from, "m3u8"@)) || s == "rtmp"@ || s == "rtmps"@
}

/// Whether a pipeline can publish onto `to`: an FLV file, an Icecast server
/// (whose URL has a username, a password, a host and a port), an RTMP(S) or
/// SRT endpoint.
pub open spec fn pipeline_destination(to: Seq<char>) -> bool {
    let s = scheme(to);
    ||| s == "file"@ && url_has_extension(to, "flv"@)
    ||| s == "icecast"@ && url_path(to) is Some && url_username(to) is Some && url_password(to) is Some
        && url_host(to) is Some && url_port(to) is Some
    ||| s == "rtmp"@ || s == "rtmps"@ || s == "srt"@
}

/// Element that pulls a live stream from `from`.
pub open spec fn source_element(from: Seq<char>) -> Seq<char> {
    let s = scheme(from);
    if (s == "http"@ || s == "https"@) && url_has_extension(from, "m3u8"@) {
        "souphttpsrc location="@ + from + " ! hlsdemux"@
    } else {
        "rtmp2src location="@ + from
    }
}

/// Element that publishes a live stream onto `to`; a recording is written
/// to `dvr_file`.
pub open spec fn sink_element(to: Seq<char>, dvr_file: Seq<char>) -> Seq<char> {
    let s = scheme(to);
    if s == "file"@ && url_has_extension(to, "flv"@) {
        "filesink location="@ + dvr_file
    } else if s == "icecast"@ {
        "audioconvert ! lamemp2enc ! shout2send mount="@ + url_path(to)->0 + " port="@ + decimal(
            url_port(to)->0 as nat,
        ) + " username="@ + url_username(to)->0 + " password="@ + url_password(to)->0 + " ip="@ + url_host(
            to,
        )->0
    } else if s == "rtmp"@ || s == "rtmps"@ {
        "rtmp2sink location="@ + to
    } else {
        "srtsink uri="@ + to
    }
}

/// Whether the destination `to` of a pipeline records to a file.
pub open spec fn pipeline_records(to: Seq<char>) -> bool {
    scheme(to) == "file"@ && url_has_extension(to, "flv"@)
}

/// Whether the path of the URL `url` has the extension `ext`.
fn url_extension_is(url: &str, ext: &str) -> (r: bool)
    ensures
        r == url_has_extension(url@, ext@),
{
    match path_of_url(url) {
        Some(p) => match crate::url_util::path_extension(p.as_str()) {
            Some(e) => e == String::from_str(ext),
            None => false,
        },
        None => false,
    }
}

impl CopyRestreamer {
    /// Description of the GStreamer Daemon pipeline of this process: its
    /// source element and its sink element, joined by `!`; `dvr_file` is the
    /// file a recording is written to.
    pub fn setup_pipeline(&self, dvr_file: Option<&str>) -> (cmd: String)
        requires
            pipeline_source(self.from_url@),
            pipeline_destination(self.to_url@),
            pipeline_records(self.to_url@) ==> dvr_file is Some,
        ensures
            cmd@ == source_element(self.from_url@) + "!"@ + sink_element(
                self.to_url@,
                match dvr_file {
                    Some(f) => f@,
                    None => Seq::empty(),
                },
            ),
    {
        proof {
            reveal_strlit("file");
            reveal_strlit("icecast");
            reveal_strlit("rtmp");
            reveal_strlit("rtmps");
            reveal_strlit("srt");
        }
        let from = self.from_url.as_str();
        let to = self.to_url.as_str();
        let src = if (has_scheme(from, "http") || has_scheme(from, "https")) && url_extension_is(from, "m3u8") {
            let mut e = join2("souphttpsrc location=", from);
            e.append(" ! hlsdemux");
            e
        } else {
            join2("rtmp2src location=", from)
        };
        let sink = if has_scheme(to, "file") && url_extension_is(to, "flv") {
            match dvr_file {
                Some(f) => join2("filesink location=", f),
                None => join2("filesink location=", ""),
            }
        } else if has_scheme(to, "icecast") {
            assert("icecast"@.len() == 7 && "rtmp"@.len() == 4 && "rtmps"@.len() == 5 && "srt"@.len() == 3);
            let path = path_of_url(to).unwrap();
            let username = username_of_url(to).unwrap();
            let password = password_of_url(to).unwrap();
            let address = host_of_url(to).unwrap();
            let port = port_of_url(to).unwrap();
            let mut e = join2("audioconvert ! lamemp2enc ! shout2send mount=", path.as_str());
            e.append(" port=");
            e.append(u64_to_decimal(port as u64).as_str());
            e.append(" username=");
            e.append(username.as_str());
            e.append(" password=");
            e.append(password.as_str());
            e.append(" ip=");
            e.append(address.as_str());
            e
        } else if has_scheme(to, "rtmp") || has_scheme(to, "rtmps") {
            join2("rtmp2sink location=", to)
        } else {
            join2("srtsink uri=", to)
        };
        let mut cmd = src;
        cmd.append("!");
        cmd.append(sink.as_str());
        cmd
    }

    /// The pipeline of this process (see [`CopyRestreamer::setup_pipeline`])
    /// where its URLs can be served so; nothing otherwise.
    pub fn try_setup_pipeline(&self, dvr_file: Option<&str>) -> (cmd: Option<String>)
        ensures
            match cmd {
                Some(c) => {
                    &&& pipeline_source(self.from_url@)
                    &&& pipeline_destination(self.to_url@)
                    &&& c@ == source_element(self.from_url@) + "!"@ + sink_element(
                        self.to_url@,
                        match dvr_file {
                            Some(f) => f@,
                            None => Seq::empty(),
                        },
                    )
                },
                None => !pipeline_source(self.from_url@) || !pipeline_destination(self.to_url@) || (
                pipeline_records(self.to_url@) && dvr_file is None),
            },
    {
        let from = self.from_url.as_str();
        let to = self.to_url.as_str();
        let source_ok = ((has_scheme(from, "http") || has_scheme(from, "https")) && url_extension_is(from, "m3u8"))
            || has_scheme(from, "rtmp") || has_scheme(from, "rtmps");
        let records = has_scheme(to, "file") && url_extension_is(to, "flv");
        let icecast_ok = has_scheme(to, "icecast") && path_of_url(to).is_some() && username_of_url(to).is_some()
            && password_of_url(to).is_some() && host_of_url(to).is_some() && port_of_url(to).is_some();
        let sink_ok = records || icecast_ok || has_scheme(to, "rtmp") || has_scheme(to, "rtmps") || has_scheme(
            to,
            "srt",
        );
        if !source_ok || !sink_ok || (records && dvr_file.is_none()) {
            return None;
        }
        Some(self.setup_pipeline(dvr_file))
    }
}

} // verus!
