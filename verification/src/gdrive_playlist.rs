//! Playlists taken from a Google Drive folder: how the files found are
//! ordered by name and added to a re-stream's playlist.

use vstd::prelude::*;

use crate::api_error::{is_error, ApiError, BAD_REQUEST};
use crate::client_api::{find_restream, is_restream, queue_view, MutationsRoot};
use crate::file_manager::{FileCommand, PlaylistFileInfo, PlaylistFileView};
use crate::seq_util::{first_index, lemma_first_index, lemma_first_index_some};
use crate::state::{only_restreams_and_commands_changed, Playlist, Restream, State};

verus! {

/// HTTP status of a request refused for want of credentials.
pub const UNAUTHORIZED: u16 = 401;

/// HTTP status of a request the server could not serve.
pub const INTERNAL_SERVER_ERROR: u16 = 500;

/// Whether the name `a` comes before the name `b`: compared character by
/// character by their code points, a proper prefix first.
pub open spec fn name_lt(a: Seq<char>, b: Seq<char>) -> bool
    decreases a.len(),
{
    if b.len() == 0 {
        false
    } else if a.len() == 0 {
        true
    } else if (a[0] as u32) < (b[0] as u32) {
        true
    } else if (a[0] as u32) > (b[0] as u32) {
        false
    } else {
        name_lt(a.drop_first(), b.drop_first())
    }
}

/// Whether the name `a` comes before the name `b` (see [`name_lt`]).
pub fn names_lt(a: &str, b: &str) -> (r: bool)
    ensures
        r == name_lt(a@, b@),
{
    let n = a.unicode_len();
    let m = b.unicode_len();
    let mut i: usize = 0;
    assert(a@.skip(0) =~= a@ && b@.skip(0) =~= b@);
    while i < n && i < m && a.get_char(i) == b.get_char(i)
        invariant
            i <= n,
            i <= m,
            n == a@.len(),
            m == b@.len(),
            name_lt(a@, b@) == name_lt(a@.skip(i as int), b@.skip(i as int)),
        decreases n - i,
    {
        assert(a@.skip(i as int).drop_first() =~= a@.skip(i as int + 1));
        assert(b@.skip(i as int).drop_first() =~= b@.skip(i as int + 1));
        i = i + 1;
    }
    if i == m {
        false
    } else if i == n {
        true
    } else {
        let x = a.get_char(i);
        let y = b.get_char(i);
        (x as u32) < (y as u32)
    }
}

/// Whether the entry `x` goes before the entry `v`: its name comes first.
pub open spec fn goes_before(x: PlaylistFileView) -> spec_fn(PlaylistFileView) -> bool {
    |v: PlaylistFileView| name_lt(x.name, v.name)
}

/// Where `x` is inserted in `s`: before the first entry whose name comes
/// after its name, after all the others.
pub open spec fn insert_pos(s: Seq<PlaylistFileView>, x: PlaylistFileView) -> int {
    match first_index(s, goes_before(x)) {
        Some(j) => j,
        None => s.len() as int,
    }
}

/// The entries of `s` ordered by name, stably: each entry is inserted, in
/// turn, after all those ordered before it whose name does not come after
/// its name.
pub open spec fn sorted_by_name(s: Seq<PlaylistFileView>) -> Seq<PlaylistFileView>
    decreases s.len(),
{
    if s.len() == 0 {
        s
    } else {
        let t = sorted_by_name(s.drop_last());
        t.insert(insert_pos(t, s.last()), s.last())
    }
}

/// Orders the entries of `files` by name, stably (see [`sorted_by_name`]).
pub fn sort_by_name(files: Vec<PlaylistFileInfo>) -> (r: Vec<PlaylistFileInfo>)
    ensures
        queue_view(r@) == sorted_by_name(queue_view(files@)),
{
    let ghost f0 = queue_view(files@);
    let ghost all = files@;
    let mut files = files;
    let n0 = files.len();
    let mut r: Vec<PlaylistFileInfo> = Vec::new();
    let mut k: usize = 0;
    assert(files@ =~= all.skip(0));
    while files.len() > 0
        invariant
            k <= all.len(),
            all.len() <= usize::MAX,
            f0 == queue_view(all),
            files@ == all.skip(k as int),
            queue_view(r@) == sorted_by_name(f0.take(k as int)),
        decreases files.len(),
    {
        let x = files.remove(0);
        assert(x == all[k as int]);
        let ghost t = queue_view(r@);
        let mut j: usize = 0;
        while j < r.len() && !names_lt(x.name.as_str(), r[j].name.as_str())
            invariant
                j <= r@.len(),
                t == queue_view(r@),
                forall|q: int| 0 <= q < j ==> !goes_before(x@)(#[trigger] t[q]),
            decreases r.len() - j,
        {
            j = j + 1;
        }
        proof {
            lemma_first_index(t, goes_before(x@), j as int);
            assert(f0.take(k as int + 1).drop_last() =~= f0.take(k as int));
            assert(f0.take(k as int + 1).last() == x@);
        }
        let ghost before = r@;
        r.insert(j, x);
        assert(queue_view(r@) =~= t.insert(j as int, x@));
        k = k + 1;
        assert(files@ =~= all.skip(k as int));
    }
    assert(f0.take(k as int) =~= f0);
    r
}

/// The API key the server reads Google Drive with, or the error of a
/// server that has none.
pub fn gdrive_api_key(state: &State) -> (r: Result<String, ApiError>)
    ensures
        match state.settings.google_api_key {
            Some(k) => r matches Ok(s) && s@ == k@,
            None => r matches Err(e) && is_error(e, "NO_API_KEY"@, 401, "No API key"@),
        },
{
    match &state.settings.google_api_key {
        Some(k) => Ok(k.clone()),
        None => Err(ApiError::new("NO_API_KEY", UNAUTHORIZED, String::from_str("No API key"))),
    }
}

/// Message of a folder in which nothing was found.
pub open spec fn empty_folder_message() -> Seq<char> {
    "No files in playlist. Probably there is no public access to the playlist"@
}

impl MutationsRoot {
    /// Adds the files found in a Google Drive folder (`listing`, or the
    /// error of the listing) to the playlist of the first re-stream
    /// `restream_id`, ordered by name (see [`sorted_by_name`]), and tells the
    /// file manager that the files may have changed. A failed listing, an
    /// empty one and an unknown re-stream are errors, and change nothing.
    pub fn get_playlist_from_gdrive(
        restream_id: u128,
        listing: Result<Vec<PlaylistFileInfo>, String>,
        state: &mut State,
    ) -> (r: Result<Option<bool>, ApiError>)
        ensures
            only_restreams_and_commands_changed(*old(state), *final(state)),
            final(state).files == old(state).files,
            match listing {
                Err(m) => r matches Err(e) && is_error(e, "GDRIVE_API_ERROR"@, 400, m@) && *final(state) == *old(
                    state,
                ),
                Ok(found) => if found@.len() == 0 {
                    r matches Err(e) && is_error(e, "GDRIVE_API_ERROR"@, 400, empty_folder_message())
                        && *final(state) == *old(state)
                } else {
                    match first_index(old(state).restreams@, is_restream(restream_id)) {
                        None => r matches Err(e) && is_error(
                            e,
                            "UNKNOWN_RESTREAM"@,
                            500,
                            "Could not find restream with provided ID"@,
                        ) && *final(state) == *old(state),
                        Some(i) => {
                            let o = old(state).restreams@[i];
                            let n = final(state).restreams@[i];
                            &&& r == Ok::<Option<bool>, ApiError>(Some(true))
                            &&& final(state).restreams@ == old(state).restreams@.update(
                                i,
                                Restream { playlist: Playlist { queue: n.playlist.queue, ..o.playlist }, ..o },
                            )
                            &&& queue_view(n.playlist.queue@) == queue_view(o.playlist.queue@) + sorted_by_name(
                                queue_view(found@),
                            )
                            &&& final(state).file_commands@ == old(state).file_commands@.push(
                                FileCommand::ListOfFilesChanged,
                            )
                        },
                    }
                },
            },
    {
        let found = match listing {
            Err(m) => {
                return Err(ApiError::new("GDRIVE_API_ERROR", BAD_REQUEST, m));
            },
            Ok(found) => found,
        };
        if found.len() == 0 {
            return Err(
                ApiError::new(
                    "GDRIVE_API_ERROR",
                    BAD_REQUEST,
                    String::from_str("No files in playlist. Probably there is no public access to the playlist"),
                ),
            );
        }
        let i = match find_restream(&state.restreams, restream_id) {
            Some(i) => i,
            None => {
                return Err(
                    ApiError::new(
                        "UNKNOWN_RESTREAM",
                        INTERNAL_SERVER_ERROR,
                        String::from_str("Could not find restream with provided ID"),
                    ),
                );
            },
        };
        let mut sorted = sort_by_name(found);
        let ghost before = state.restreams@;
        let mut r = state.restreams.remove(i);
        let ghost q0 = r.playlist.queue@;
        let ghost s0 = sorted@;
        r.playlist.queue.append(&mut sorted);
        assert(queue_view(r.playlist.queue@) =~= queue_view(q0) + queue_view(s0));
        state.restreams.insert(i, r);
        assert(state.restreams@ =~= before.update(i as int, r));
        state.file_commands.push(FileCommand::ListOfFilesChanged);
        Ok(Some(true))
    }
}

/// One name never comes both before and after another.
pub proof fn lemma_name_lt_asymmetric(a: Seq<char>, b: Seq<char>)
    ensures
        name_lt(a, b) ==> !name_lt(b, a),
    decreases a.len(),
{
    if a.len() > 0 && b.len() > 0 && (a[0] as u32) == (b[0] as u32) {
        lemma_name_lt_asymmetric(a.drop_first(), b.drop_first());
    }
}

/// Coming before is transitive among names.
pub proof fn lemma_name_lt_transitive(a: Seq<char>, b: Seq<char>, c: Seq<char>)
    ensures
        name_lt(a, b) && name_lt(b, c) ==> name_lt(a, c),
    decreases a.len(),
{
    if a.len() > 0 && b.len() > 0 && c.len() > 0 && (a[0] as u32) == (b[0] as u32) && (b[0] as u32) == (
    c[0] as u32) {
        lemma_name_lt_transitive(a.drop_first(), b.drop_first(), c.drop_first());
    }
}

/// Whether no entry of `s` has a name that comes before the name of an
/// entry before it.
pub open spec fn name_sorted(s: Seq<PlaylistFileView>) -> bool {
    forall|i: int, j: int| 0 <= i < j < s.len() ==> !name_lt((#[trigger] s[j]).name, (#[trigger] s[i]).name)
}

/// The files of a playlist taken from a folder are ordered by name, and
/// are those found, each as many times as it was found.
pub proof fn lemma_sorted_by_name(s: Seq<PlaylistFileView>)
    ensures
        name_sorted(sorted_by_name(s)),
        sorted_by_name(s).to_multiset() == s.to_multiset(),
    decreases s.len(),
{
    broadcast use vstd::seq_lib::to_multiset_insert, vstd::seq_lib::group_to_multiset_ensures;

    if s.len() > 0 {
        let p = s.drop_last();
        lemma_sorted_by_name(p);
        let t = sorted_by_name(p);
        let x = s.last();
        let j = insert_pos(t, x);
        lemma_first_index_some(t, goes_before(x));
        let r = t.insert(j, x);
        assert(0 <= j <= t.len());
        assert forall|a: int, b: int| 0 <= a < b < r.len() implies !name_lt(
            (#[trigger] r[b]).name,
            (#[trigger] r[a]).name,
        ) by {
            if b < j {
                assert(r[a] == t[a] && r[b] == t[b]);
            } else if a > j {
                assert(r[a] == t[a - 1] && r[b] == t[b - 1]);
            } else if b == j {
                assert(r[b] == x && r[a] == t[a]);
                assert(!goes_before(x)(t[a]));
            } else if a == j {
                assert(r[a] == x && r[b] == t[b - 1]);
                assert(goes_before(x)(t[j]));
                lemma_name_lt_asymmetric(x.name, t[j].name);
                if b - 1 > j {
                    lemma_name_lt_transitive(t[b - 1].name, x.name, t[j].name);
                }
            } else {
                assert(a < j && j < b);
                assert(r[a] == t[a] && r[b] == t[b - 1]);
            }
        }
        assert(s.to_multiset() =~= p.to_multiset().insert(x)) by {
            assert(s =~= p.push(x));
        }
    }
}

} // verus!
