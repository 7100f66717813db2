//! What `ffprobe` reports of a media stream.

use vstd::prelude::*;

verus! {
/// Streams and format of a probed media.
#[derive(Clone, Debug, Default)]
pub struct StreamInfo {
    /// `streams` as reported.
    pub streams: Vec<Stream>,
    /// `format` as reported.
    pub format: Format,
}

/// One stream of a probed media.
#[derive(Clone, Debug, Default)]
pub struct Stream {
    /// `index` as reported.
    pub index: i64,
    /// `codec_name` as reported.
    pub codec_name: Option<String>,
    /// `sample_aspect_ratio` as reported.
    pub sample_aspect_ratio: Option<String>,
    /// `display_aspect_ratio` as reported.
    pub display_aspect_ratio: Option<String>,
    /// `color_range` as reported.
    pub color_range: Option<String>,
    /// `color_space` as reported.
    pub color_space: Option<String>,
    /// `bits_per_raw_sample` as reported.
    pub bits_per_raw_sample: Option<String>,
    /// `channel_layout` as reported.
    pub channel_layout: Option<String>,
    /// `max_bit_rate` as reported.
    pub max_bit_rate: Option<String>,
    /// `nb_frames` as reported.
    pub nb_frames: Option<String>,
    /// `nb_read_frames` as reported.
    pub nb_read_frames: Option<String>,
    /// `codec_long_name` as reported.
    pub codec_long_name: Option<String>,
    /// `codec_type` as reported.
    pub codec_type: Option<String>,
    /// `codec_time_base` as reported.
    pub codec_time_base: Option<String>,
    /// `codec_tag_string` as reported.
    pub codec_tag_string: String,
    /// `codec_tag` as reported.
    pub codec_tag: String,
    /// `sample_fmt` as reported.
    pub sample_fmt: Option<String>,
    /// `sample_rate` as reported.
    pub sample_rate: Option<String>,
    /// `channels` as reported.
    pub channels: Option<i64>,
    /// `bits_per_sample` as reported.
    pub bits_per_sample: Option<i64>,
    /// `r_frame_rate` as reported.
    pub r_frame_rate: String,
    /// `avg_frame_rate` as reported.
    pub avg_frame_rate: String,
    /// `time_base` as reported.
    pub time_base: String,
    /// `start_pts` as reported.
    pub start_pts: Option<i64>,
    /// `start_time` as reported.
    pub start_time: Option<String>,
    /// `duration_ts` as reported.
    pub duration_ts: Option<i64>,
    /// `duration` as reported.
    pub duration: Option<String>,
    /// `bit_rate` as reported.
    pub bit_rate: Option<String>,
    /// `disposition` as reported.
    pub disposition: Disposition,
    /// `tags` as reported.
    pub tags: Option<StreamTags>,
    /// `profile` as reported.
    pub profile: Option<String>,
    /// `width` as reported.
    pub width: Option<i64>,
    /// `height` as reported.
    pub height: Option<i64>,
    /// `coded_width` as reported.
    pub coded_width: Option<i64>,
    /// `coded_height` as reported.
    pub coded_height: Option<i64>,
    /// `closed_captions` as reported.
    pub closed_captions: Option<i64>,
    /// `has_b_frames` as reported.
    pub has_b_frames: Option<i64>,
    /// `pix_fmt` as reported.
    pub pix_fmt: Option<String>,
    /// `level` as reported.
    pub level: Option<i64>,
    /// `chroma_location` as reported.
    pub chroma_location: Option<String>,
    /// `refs` as reported.
    pub refs: Option<i64>,
    /// `is_avc` as reported.
    pub is_avc: Option<String>,
    /// `nal_length` as reported.
    pub nal_length: Option<String>,
    /// `nal_length_size` as reported.
    pub nal_length_size: Option<String>,
    /// `field_order` as reported.
    pub field_order: Option<String>,
    /// `id` as reported.
    pub id: Option<String>,
    /// `side_data_list` as reported.
    pub side_data_list: Vec<SideData>,
}

/// Side data of a stream.
#[derive(Clone, Debug, Default)]
pub struct SideData {
    /// `side_data_type` as reported.
    pub side_data_type: String,
}

/// Disposition flags of a stream.
#[derive(Clone, Debug, Default)]
pub struct Disposition {
    /// `default` as reported.
    pub default: i64,
    /// `dub` as reported.
    pub dub: i64,
    /// `original` as reported.
    pub original: i64,
    /// `comment` as reported.
    pub comment: i64,
    /// `lyrics` as reported.
    pub lyrics: i64,
    /// `karaoke` as reported.
    pub karaoke: i64,
    /// `forced` as reported.
    pub forced: i64,
    /// `hearing_impaired` as reported.
    pub hearing_impaired: i64,
    /// `visual_impaired` as reported.
    pub visual_impaired: i64,
    /// `clean_effects` as reported.
    pub clean_effects: i64,
    /// `attached_pic` as reported.
    pub attached_pic: i64,
    /// `timed_thumbnails` as reported.
    pub timed_thumbnails: i64,
}

/// Tags of a stream.
#[derive(Clone, Debug, Default)]
pub struct StreamTags {
    /// `language` as reported.
    pub language: Option<String>,
    /// `creation_time` as reported.
    pub creation_time: Option<String>,
    /// `handler_name` as reported.
    pub handler_name: Option<String>,
    /// `encoder` as reported.
    pub encoder: Option<String>,
}

/// Container format of a probed media.
#[derive(Clone, Debug, Default)]
pub struct Format {
    /// `filename` as reported.
    pub filename: String,
    /// `nb_streams` as reported.
    pub nb_streams: i64,
    /// `nb_programs` as reported.
    pub nb_programs: i64,
    /// `format_name` as reported.
    pub format_name: String,
    /// `format_long_name` as reported.
    pub format_long_name: String,
    /// `start_time` as reported.
    pub start_time: Option<String>,
    /// `duration` as reported.
    pub duration: Option<String>,
    /// `size` as reported.
    pub size: String,
    /// `bit_rate` as reported.
    pub bit_rate: Option<String>,
    /// `probe_score` as reported.
    pub probe_score: i64,
    /// `tags` as reported.
    pub tags: Option<FormatTags>,
}

/// Tags of a container format.
#[derive(Clone, Debug, Default)]
pub struct FormatTags {
    /// `wmfsdkneeded` as reported.
    pub wmfsdkneeded: Option<String>,
    /// `device_conformance_template` as reported.
    pub device_conformance_template: Option<String>,
    /// `wmfsdkversion` as reported.
    pub wmfsdkversion: Option<String>,
    /// `is_vbr` as reported.
    pub is_vbr: Option<String>,
    /// `major_brand` as reported.
    pub major_brand: Option<String>,
    /// `minor_version` as reported.
    pub minor_version: Option<String>,
    /// `compatible_brands` as reported.
    pub compatible_brands: Option<String>,
    /// `creation_time` as reported.
    pub creation_time: Option<String>,
    /// `encoder` as reported.
    pub encoder: Option<String>,
}

/// Entries of the media `ffprobe` is asked to report.
pub open spec fn probe_entries() -> Seq<char> {
    "format=bit_rate:stream=codec_type,codec_name,channel_layout,sample_rate,channels,bit_rate,r_frame_rate,width,height"@
}

/// Arguments of an `ffprobe` run reporting, quietly and as JSON, the
/// entries of the media at `path`.
pub fn ffprobe_args(path: &str) -> (v: Vec<String>)
    ensures
        v@.map_values(|s: String| s@) == seq![
            "-v"@,
            "quiet"@,
            "-show_entries"@,
            probe_entries(),
            "-of"@,
            "json"@,
            path@,
        ],
{
    let mut v: Vec<String> = Vec::new();
    v.push(String::from_str("-v"));
    v.push(String::from_str("quiet"));
    v.push(String::from_str("-show_entries"));
    v.push(
        String::from_str(
            "format=bit_rate:stream=codec_type,codec_name,channel_layout,sample_rate,channels,bit_rate,r_frame_rate,width,height",
        ),
    );
    v.push(String::from_str("-of"));
    v.push(String::from_str("json"));
    v.push(String::from_str(path));
    proof {
        assert(v@.map_values(|s: String| s@) =~= seq![
            "-v"@,
            "quiet"@,
            "-show_entries"@,
            probe_entries(),
            "-of"@,
            "json"@,
            path@,
        ]);
    }
    v
}

} // verus!
