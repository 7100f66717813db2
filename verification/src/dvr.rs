//! Where recordings of outputs are written.

use vstd::prelude::*;

use crate::ffmpeg_args::{is_recording, records};
use crate::state::Id;
use crate::text::{decimal, join2, u128_to_decimal};
use crate::url_util::{file_path_of_url, file_path_url, is_absolute, joined_path, join_path, path_url, url_file_path};

verus! {

/// Path of the recording of the output `id` under the directory `root`.
pub open spec fn recording_path(root: Seq<char>, id: Id) -> Seq<char> {
    joined_path(root, decimal(id as nat) + ".flv"@)
}

/// The `file` URL the output `id` records to, under the directory `root`:
/// the URL of the FLV file named after the output; none where that path is
/// not absolute.
pub fn recording_url(root: &str, id: Id) -> (r: Option<String>)
    ensures
        match r {
            Some(u) => is_absolute(recording_path(root@, id)) && u@ == path_url(recording_path(root@, id)),
            None => !is_absolute(recording_path(root@, id)),
        },
{
    let name = join2(u128_to_decimal(id).as_str(), ".flv");
    proof {
        reveal_strlit(".flv");
    }
    let p = join_path(root, name.as_str());
    file_path_url(p.as_str())
}

/// The file a recording published onto `to` is written to: the path of its
/// `file` URL; none where publishing onto `to` records nothing (see
/// [`records`]) or the URL gives no path.
pub fn recording_file(to: &str) -> (r: Option<String>)
    ensures
        match r {
            Some(f) => records(to@) && url_file_path(to@) == Some(f@),
            None => !records(to@) || url_file_path(to@) is None,
        },
{
    if is_recording(to) {
        file_path_of_url(to)
    } else {
        None
    }
}

} // verus!
