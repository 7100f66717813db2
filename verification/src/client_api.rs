//! Operations of the client API on the restreams, their playlists and the
//! downloaded files.

use vstd::prelude::*;

use crate::file_manager::{
    files_view, find_file, first_match, FileCommand, FileId, FileState, LocalFileInfo, LocalFileView,
    PlaylistFileInfo, PlaylistFileView,
};
use crate::seq_util::{first_index, lemma_first_index, lemma_first_index_some};
use crate::state::{
    only_commands_changed, only_files_changed, only_restreams_and_commands_changed, only_restreams_changed, Playlist,
    Restream, State,
};

verus! {

broadcast use vstd::seq_lib::group_seq_properties;

/// Whether the restream `r` has the identity `id`.
pub open spec fn is_restream(id: u128) -> spec_fn(Restream) -> bool {
    |r: Restream| r.id == id
}

/// Finds the first restream with the identity `id`.
pub fn find_restream(restreams: &Vec<Restream>, id: u128) -> (r: Option<usize>)
    ensures
        r matches Some(i) ==> i < restreams.len(),
        match r {
            Some(i) => first_index(restreams@, is_restream(id)) == Some(i as int),
            None => first_index(restreams@, is_restream(id)) is None,
        },
{
    let mut i: usize = 0;
    while i < restreams.len()
        invariant
            i <= restreams.len(),
            forall|j: int| 0 <= j < i ==> !is_restream(id)(#[trigger] restreams@[j]),
        decreases restreams.len() - i,
    {
        if restreams[i].id == id {
            proof {
                lemma_first_index(restreams@, is_restream(id), i as int);
            }
            return Some(i);
        }
        i = i + 1;
    }
    proof {
        lemma_first_index(restreams@, is_restream(id), i as int);
    }
    None
}

/// Abstract value of an optional playlist entry.
pub open spec fn playing_view(p: Option<PlaylistFileInfo>) -> Option<PlaylistFileView> {
    match p {
        Some(f) => Some(f@),
        None => None,
    }
}

/// Whether a playlist queue holds the file `id`.
pub open spec fn queue_has(q: Seq<PlaylistFileInfo>, id: Seq<char>) -> bool {
    exists|k: int| 0 <= k < q.len() && q[k].file_id@ == id
}

/// Whether the queue entry `f` is the file `id`.
pub open spec fn is_entry(id: Seq<char>) -> spec_fn(PlaylistFileInfo) -> bool {
    |f: PlaylistFileInfo| f.file_id@ == id
}

/// The first entry of a queue that is the file `id`, if any.
pub open spec fn queue_entry(q: Seq<PlaylistFileInfo>, id: Seq<char>) -> Option<PlaylistFileView> {
    match first_index(q, is_entry(id)) {
        Some(k) => Some(q[k]@),
        None => None,
    }
}

/// Finds the first entry of a queue that is the file `id`.
pub fn find_entry(q: &Vec<PlaylistFileInfo>, id: &FileId) -> (r: Option<usize>)
    ensures
        r matches Some(k) ==> k < q.len(),
        match r {
            Some(k) => first_index(q@, is_entry(id@)) == Some(k as int),
            None => first_index(q@, is_entry(id@)) is None && !queue_has(q@, id@),
        },
{
    let mut k: usize = 0;
    while k < q.len()
        invariant
            k <= q.len(),
            forall|j: int| 0 <= j < k ==> !is_entry(id@)(#[trigger] q@[j]),
        decreases q.len() - k,
    {
        if q[k].file_id.same(id) {
            proof {
                lemma_first_index(q@, is_entry(id@), k as int);
            }
            return Some(k);
        }
        k = k + 1;
    }
    proof {
        lemma_first_index(q@, is_entry(id@), k as int);
        if queue_has(q@, id@) {
            let j = choose|j: int| 0 <= j < q@.len() && q@[j].file_id@ == id@;
            assert(!is_entry(id@)(q@[j]));
        }
    }
    None
}

/// Copies the first entry of a queue that is the file `id`, if any.
pub fn copy_entry(q: &Vec<PlaylistFileInfo>, id: &FileId) -> (r: Option<PlaylistFileInfo>)
    ensures
        playing_view(r) == queue_entry(q@, id@),
        (r is Some) == queue_has(q@, id@),
{
    proof {
        lemma_first_index_some(q@, is_entry(id@));
    }
    match find_entry(q, id) {
        Some(k) => Some(q[k].duplicate()),
        None => None,
    }
}

/// Whether `new_r` is `old_r` with the given file played.
pub open spec fn plays(old_r: Restream, new_r: Restream, playing: Option<PlaylistFileView>) -> bool {
    &&& new_r.id == old_r.id
    &&& new_r.key == old_r.key
    &&& new_r.label == old_r.label
    &&& new_r.input == old_r.input
    &&& new_r.outputs == old_r.outputs
    &&& new_r.playlist.id == old_r.playlist.id
    &&& new_r.playlist.queue == old_r.playlist.queue
    &&& new_r.max_files_in_playlist == old_r.max_files_in_playlist
    &&& playing_view(new_r.playlist.currently_playing_file) == playing
}

/// Sets the file played by the restream at position `i`.
fn set_playing(restreams: &mut Vec<Restream>, i: usize, playing: Option<PlaylistFileInfo>)
    requires
        i < old(restreams).len(),
    ensures
        final(restreams)@.len() == old(restreams)@.len(),
        forall|j: int| 0 <= j < old(restreams)@.len() && j != i ==> #[trigger] final(restreams)@[j]
            == old(restreams)@[j],
        plays(old(restreams)@[i as int], final(restreams)@[i as int], playing_view(playing)),
{
    let mut r = restreams.remove(i);
    r.playlist.currently_playing_file = playing;
    restreams.insert(i, r);
}

/// Error of a download canceled by the user.
pub open spec fn canceled_message() -> Seq<char> {
    "Download was canceled"@
}

/// A file after the downloads of a playlist queue were canceled.
pub open spec fn canceled_file(f: LocalFileView, q: Seq<PlaylistFileInfo>) -> LocalFileView {
    if queue_has(q, f.file_id) && f.state != FileState::Local {
        LocalFileView { state: FileState::DownloadError, error: Some(canceled_message()), ..f }
    } else {
        f
    }
}

/// A file after the downloads of a playlist queue were restarted.
pub open spec fn restarted_file(f: LocalFileView, q: Seq<PlaylistFileInfo>) -> LocalFileView {
    if queue_has(q, f.file_id) && f.state != FileState::Local {
        LocalFileView { state: FileState::Waiting, error: None, ..f }
    } else {
        f
    }
}

/// Whether some file of a playlist queue is not downloaded yet.
pub open spec fn queue_pending(fs: Seq<LocalFileView>, q: Seq<PlaylistFileInfo>) -> bool {
    exists|i: int| 0 <= i < fs.len() && queue_has(q, fs[i].file_id) && fs[i].state != FileState::Local
}

/// Whether the queue entries `q` hold the file `id`.
fn queue_holds(q: &Vec<PlaylistFileInfo>, id: &FileId) -> (r: bool)
    ensures
        r == queue_has(q@, id@),
{
    proof {
        lemma_first_index_some(q@, is_entry(id@));
    }
    find_entry(q, id).is_some()
}

/// Cancels or restarts the downloads of the files of a playlist queue that
/// are not downloaded yet; returns whether there was any.
fn redo_queue_downloads(files: &mut Vec<LocalFileInfo>, q: &Vec<PlaylistFileInfo>, cancel: bool) -> (found: bool)
    ensures
        found == queue_pending(files_view(old(files)@), q@),
        files_view(final(files)@) == files_view(old(files)@).map_values(
            |f: LocalFileView|
                if cancel {
                    canceled_file(f, q@)
                } else {
                    restarted_file(f, q@)
                },
        ),
{
    let ghost orig = files_view(files@);
    let mut found = false;
    let mut i: usize = 0;
    while i < files.len()
        invariant
            i <= files.len(),
            files.len() == orig.len(),
            found == exists|j: int| 0 <= j < i && queue_has(q@, orig[j].file_id) && orig[j].state != FileState::Local,
            forall|m: int| 0 <= m < i ==> #[trigger] files_view(files@)[m] == if cancel {
                canceled_file(orig[m], q@)
            } else {
                restarted_file(orig[m], q@)
            },
            forall|m: int| i <= m < files.len() ==> #[trigger] files_view(files@)[m] == orig[m],
        decreases files.len() - i,
    {
        let ghost before = files@;
        assert(files_view(files@)[i as int] == orig[i as int]);
        if queue_holds(q, &files[i].file_id) && files[i].state != FileState::Local {
            let mut f = files.remove(i);
            if cancel {
                f.state = FileState::DownloadError;
                f.error = Some(String::from_str("Download was canceled"));
            } else {
                f.state = FileState::Waiting;
                f.error = None;
            }
            files.insert(i, f);
            assert(files@ =~= before.update(i as int, f));
            found = true;
        }
        assert forall|m: int| 0 <= m < files.len() && m != i implies #[trigger] files_view(files@)[m]
            == files_view(before)[m] by {}
        i = i + 1;
    }
    assert(files_view(files@) =~= orig.map_values(
        |f: LocalFileView|
            if cancel {
                canceled_file(f, q@)
            } else {
                restarted_file(f, q@)
            },
    ));
    found
}

/// Views of the entries of a queue.
pub open spec fn queue_view(q: Seq<PlaylistFileInfo>) -> Seq<PlaylistFileView> {
    q.map_values(|f: PlaylistFileInfo| f@)
}

/// The entries of the queue `q` in the order `order` gives: for each file
/// of `order`, the first entry of `q` that is that file; files that `q` does
/// not hold are passed over.
pub open spec fn ordered_queue(q: Seq<PlaylistFileInfo>, order: Seq<FileId>) -> Seq<PlaylistFileView>
    decreases order.len(),
{
    if order.len() == 0 {
        Seq::empty()
    } else {
        let rest = ordered_queue(q, order.drop_last());
        match queue_entry(q, order.last()@) {
            Some(v) => rest.push(v),
            None => rest,
        }
    }
}

/// The entries of `q` in the order `order` gives (see [`ordered_queue`]).
fn order_queue(q: &Vec<PlaylistFileInfo>, order: &Vec<FileId>) -> (r: Vec<PlaylistFileInfo>)
    ensures
        queue_view(r@) == ordered_queue(q@, order@),
{
    let mut r: Vec<PlaylistFileInfo> = Vec::new();
    let mut k: usize = 0;
    while k < order.len()
        invariant
            k <= order@.len(),
            queue_view(r@) == ordered_queue(q@, order@.take(k as int)),
        decreases order.len() - k,
    {
        assert(order@.take(k as int + 1).drop_last() =~= order@.take(k as int));
        let e = copy_entry(q, &order[k]);
        let ghost before = r@;
        match e {
            Some(f) => {
                r.push(f);
                assert(queue_view(r@) =~= queue_view(before).push(f@));
            },
            None => {},
        }
        k = k + 1;
    }
    assert(order@.take(order@.len() as int) =~= order@);
    r
}

/// Root of the client mutations.
#[derive(Clone, Copy, Debug)]
pub struct MutationsRoot;

impl MutationsRoot {
    /// Orders the playlist of the first re-stream `restream_id` as
    /// `playlist` gives (see [`ordered_queue`]) and tells the file manager
    /// that the files may have changed: `true`, or no result, and nothing,
    /// where there is no such re-stream.
    pub fn set_playlist(restream_id: u128, playlist: Vec<FileId>, state: &mut State) -> (r: Option<bool>)
        ensures
            only_restreams_and_commands_changed(*old(state), *final(state)),
            final(state).files == old(state).files,
            match first_index(old(state).restreams@, is_restream(restream_id)) {
                Some(i) => {
                    let o = old(state).restreams@[i];
                    let n = final(state).restreams@[i];
                    &&& r == Some(true)
                    &&& final(state).restreams@ == old(state).restreams@.update(
                        i,
                        Restream { playlist: Playlist { queue: n.playlist.queue, ..o.playlist }, ..o },
                    )
                    &&& queue_view(n.playlist.queue@) == ordered_queue(o.playlist.queue@, playlist@)
                    &&& final(state).file_commands@ == old(state).file_commands@.push(FileCommand::ListOfFilesChanged)
                },
                None => r is None && final(state).restreams == old(state).restreams && final(state).file_commands
                    == old(state).file_commands,
            },
    {
        let i = match find_restream(&state.restreams, restream_id) {
            Some(i) => i,
            None => return None,
        };
        let ghost before = state.restreams@;
        let q = order_queue(&state.restreams[i].playlist.queue, &playlist);
        let mut r = state.restreams.remove(i);
        r.playlist.queue = q;
        state.restreams.insert(i, r);
        assert(state.restreams@ =~= before.update(i as int, r));
        state.file_commands.push(FileCommand::ListOfFilesChanged);
        Some(true)
    }

    /// Asks for the file `file_id` to be downloaded anew.
    pub fn download_file(file_id: FileId, state: &mut State) -> (r: Option<bool>)
        ensures
            only_commands_changed(*old(state), *final(state)),
            r == Some(true),
            final(state).file_commands@.len() == old(state).file_commands@.len() + 1,
            final(state).file_commands@.drop_last() == old(state).file_commands@,
            final(state).file_commands@.last() matches FileCommand::NeedDownloadFiles(ids) && ids@.len() == 1
                && ids@[0] == file_id,
            final(state).restreams == old(state).restreams,
            final(state).files == old(state).files,
    {
        let mut ids: Vec<FileId> = Vec::new();
        ids.push(file_id);
        state.file_commands.push(FileCommand::NeedDownloadFiles(ids));
        assert(state.file_commands@.drop_last() =~= old(state).file_commands@);
        Some(true)
    }

    /// Cancels the downloads of the files of the playlist of the first
    /// restream `restream_id` that are not downloaded yet. Returns whether
    /// there was any.
    pub fn cancel_playlist_download(restream_id: u128, state: &mut State) -> (r: Option<bool>)
        ensures
            only_files_changed(*old(state), *final(state)),
            final(state).restreams == old(state).restreams,
            match first_index(old(state).restreams@, is_restream(restream_id)) {
                Some(i) => {
                    let q = old(state).restreams@[i].playlist.queue@;
                    &&& r == Some(queue_pending(files_view(old(state).files@), q))
                    &&& files_view(final(state).files@) == files_view(old(state).files@).map_values(
                        |f: LocalFileView| canceled_file(f, q),
                    )
                },
                None => r == Some(false) && final(state).files == old(state).files,
            },
    {
        match find_restream(&state.restreams, restream_id) {
            Some(i) => {
                let found = redo_queue_downloads(&mut state.files, &state.restreams[i].playlist.queue, true);
                Some(found)
            },
            None => Some(false),
        }
    }

    /// Restarts the downloads of the files of the playlist of the first
    /// restream `restream_id` that are not downloaded yet. Returns whether
    /// there was any.
    pub fn restart_playlist_download(restream_id: u128, state: &mut State) -> (r: Option<bool>)
        ensures
            only_files_changed(*old(state), *final(state)),
            final(state).restreams == old(state).restreams,
            match first_index(old(state).restreams@, is_restream(restream_id)) {
                Some(i) => {
                    let q = old(state).restreams@[i].playlist.queue@;
                    &&& r == Some(queue_pending(files_view(old(state).files@), q))
                    &&& files_view(final(state).files@) == files_view(old(state).files@).map_values(
                        |f: LocalFileView| restarted_file(f, q),
                    )
                },
                None => r == Some(false) && final(state).files == old(state).files,
            },
    {
        match find_restream(&state.restreams, restream_id) {
            Some(i) => {
                let found = redo_queue_downloads(&mut state.files, &state.restreams[i].playlist.queue, false);
                Some(found)
            },
            None => Some(false),
        }
    }

    /// Cancels the download of the first file `file_id`: `Some(true)` if it
    /// was not downloaded yet, `Some(false)` if it was, `None` if there is no
    /// such file.
    pub fn cancel_file_download(file_id: FileId, state: &mut State) -> (r: Option<bool>)
        ensures
            only_files_changed(*old(state), *final(state)),
            final(state).restreams == old(state).restreams,
            match first_match(files_view(old(state).files@), file_id@, false) {
                Some(i) => if files_view(old(state).files@)[i].state != FileState::Local {
                    &&& r == Some(true)
                    &&& files_view(final(state).files@) == files_view(old(state).files@).update(
                        i,
                        LocalFileView {
                            state: FileState::DownloadError,
                            error: Some(canceled_message()),
                            ..files_view(old(state).files@)[i]
                        },
                    )
                } else {
                    r == Some(false) && final(state).files == old(state).files
                },
                None => r is None && final(state).files == old(state).files,
            },
    {
        match find_file(&state.files, &file_id, false) {
            Some(i) => {
                if state.files[i].state != FileState::Local {
                    let ghost before = state.files@;
                    let mut f = state.files.remove(i);
                    f.state = FileState::DownloadError;
                    f.error = Some(String::from_str("Download was canceled"));
                    state.files.insert(i, f);
                    assert(state.files@ =~= before.update(i as int, f));
                    assert(files_view(state.files@) =~= files_view(before).update(i as int, f@));
                    Some(true)
                } else {
                    Some(false)
                }
            },
            None => None,
        }
    }

    /// Stops playing a file in the first restream `restream_id`. Returns
    /// `None` if there is no such restream.
    pub fn stop_playing_file_from_playlist(restream_id: u128, state: &mut State) -> (r: Option<bool>)
        ensures
            only_restreams_changed(*old(state), *final(state)),
            final(state).files == old(state).files,
            match first_index(old(state).restreams@, is_restream(restream_id)) {
                Some(i) => {
                    &&& r == Some(true)
                    &&& final(state).restreams@.len() == old(state).restreams@.len()
                    &&& forall|j: int| 0 <= j < old(state).restreams@.len() && j != i ==> #[trigger] final(state).restreams@[j]
                        == old(state).restreams@[j]
                    &&& plays(old(state).restreams@[i], final(state).restreams@[i], None)
                },
                None => r is None && final(state).restreams == old(state).restreams,
            },
    {
        match find_restream(&state.restreams, restream_id) {
            Some(i) => {
                set_playing(&mut state.restreams, i, None);
                Some(true)
            },
            None => None,
        }
    }

    /// Plays, in the first restream `restream_id`, the first entry of its
    /// queue that is the file `file_id`; nothing is played if the queue does
    /// not hold it. Returns `None` if there is no such restream.
    pub fn play_file_from_playlist(restream_id: u128, file_id: FileId, state: &mut State) -> (r: Option<bool>)
        ensures
            only_restreams_changed(*old(state), *final(state)),
            final(state).files == old(state).files,
            match first_index(old(state).restreams@, is_restream(restream_id)) {
                Some(i) => {
                    &&& r == Some(true)
                    &&& final(state).restreams@.len() == old(state).restreams@.len()
                    &&& forall|j: int| 0 <= j < old(state).restreams@.len() && j != i ==> #[trigger] final(state).restreams@[j]
                        == old(state).restreams@[j]
                    &&& plays(
                        old(state).restreams@[i],
                        final(state).restreams@[i],
                        queue_entry(old(state).restreams@[i].playlist.queue@, file_id@),
                    )
                },
                None => r is None && final(state).restreams == old(state).restreams,
            },
    {
        match find_restream(&state.restreams, restream_id) {
            Some(i) => {
                let entry = copy_entry(&state.restreams[i].playlist.queue, &file_id);
                set_playing(&mut state.restreams, i, entry);
                Some(true)
            },
            None => None,
        }
    }

    /// Plays the file `file_id` in every restream whose queue holds it.
    /// Returns whether any does.
    pub fn broadcast_play_file(file_id: FileId, state: &mut State) -> (r: Option<bool>)
        ensures
            only_restreams_changed(*old(state), *final(state)),
            final(state).files == old(state).files,
            r == Some(exists|i: int| 0 <= i < old(state).restreams@.len() && queue_has(
                old(state).restreams@[i].playlist.queue@,
                file_id@,
            )),
            final(state).restreams@.len() == old(state).restreams@.len(),
            forall|i: int| 0 <= i < old(state).restreams@.len() ==> if queue_has(
                (#[trigger] old(state).restreams@[i]).playlist.queue@,
                file_id@,
            ) {
                plays(
                    old(state).restreams@[i],
                    final(state).restreams@[i],
                    queue_entry(old(state).restreams@[i].playlist.queue@, file_id@),
                )
            } else {
                final(state).restreams@[i] == old(state).restreams@[i]
            },
    {
        let ghost orig = state.restreams@;
        let mut has_found = false;
        let mut i: usize = 0;
        while i < state.restreams.len()
            invariant
                i <= state.restreams.len(),
                state.restreams@.len() == orig.len(),
                only_restreams_changed(*old(state), *state),
                orig == old(state).restreams@,
                has_found == exists|j: int| 0 <= j < i && queue_has(orig[j].playlist.queue@, file_id@),
                forall|m: int| 0 <= m < i ==> if queue_has((#[trigger] orig[m]).playlist.queue@, file_id@) {
                    plays(orig[m], state.restreams@[m], queue_entry(orig[m].playlist.queue@, file_id@))
                } else {
                    state.restreams@[m] == orig[m]
                },
                forall|m: int| i <= m < orig.len() ==> #[trigger] state.restreams@[m] == orig[m],
            decreases state.restreams.len() - i,
        {
            let entry = copy_entry(&state.restreams[i].playlist.queue, &file_id);
            if entry.is_some() {
                set_playing(&mut state.restreams, i, entry);
                has_found = true;
            }
            i = i + 1;
        }
        Some(has_found)
    }

    /// Stops playing in every restream whose queue holds the file `file_id`.
    /// Returns whether any does.
    pub fn broadcast_stop_playing_file(file_id: FileId, state: &mut State) -> (r: Option<bool>)
        ensures
            only_restreams_changed(*old(state), *final(state)),
            final(state).files == old(state).files,
            r == Some(exists|i: int| 0 <= i < old(state).restreams@.len() && queue_has(
                old(state).restreams@[i].playlist.queue@,
                file_id@,
            )),
            final(state).restreams@.len() == old(state).restreams@.len(),
            forall|i: int| 0 <= i < old(state).restreams@.len() ==> if queue_has(
                (#[trigger] old(state).restreams@[i]).playlist.queue@,
                file_id@,
            ) {
                plays(old(state).restreams@[i], final(state).restreams@[i], None)
            } else {
                final(state).restreams@[i] == old(state).restreams@[i]
            },
    {
        let ghost orig = state.restreams@;
        let mut has_found = false;
        let mut i: usize = 0;
        while i < state.restreams.len()
            invariant
                i <= state.restreams.len(),
                state.restreams@.len() == orig.len(),
                only_restreams_changed(*old(state), *state),
                orig == old(state).restreams@,
                has_found == exists|j: int| 0 <= j < i && queue_has(orig[j].playlist.queue@, file_id@),
                forall|m: int| 0 <= m < i ==> if queue_has((#[trigger] orig[m]).playlist.queue@, file_id@) {
                    plays(orig[m], state.restreams@[m], None)
                } else {
                    state.restreams@[m] == orig[m]
                },
                forall|m: int| i <= m < orig.len() ==> #[trigger] state.restreams@[m] == orig[m],
            decreases state.restreams.len() - i,
        {
            if queue_holds(&state.restreams[i].playlist.queue, &file_id) {
                set_playing(&mut state.restreams, i, None);
                has_found = true;
            }
            i = i + 1;
        }
        Some(has_found)
    }
}

/// Restarting the downloads of a playlist undoes a cancel of them, and
/// canceling them undoes a restart: the files end as if only the last of
/// the two was done. A cancel leaves every file of the queue that was not
/// downloaded pending still, for a restart to find.
pub proof fn lemma_cancel_then_restart(fs: Seq<LocalFileView>, q: Seq<PlaylistFileInfo>)
    ensures
        fs.map_values(|f: LocalFileView| canceled_file(f, q)).map_values(|f: LocalFileView| restarted_file(f, q))
            == fs.map_values(|f: LocalFileView| restarted_file(f, q)),
        fs.map_values(|f: LocalFileView| restarted_file(f, q)).map_values(|f: LocalFileView| canceled_file(f, q))
            == fs.map_values(|f: LocalFileView| canceled_file(f, q)),
        queue_pending(fs.map_values(|f: LocalFileView| canceled_file(f, q)), q) == queue_pending(fs, q),
{
    let c = fs.map_values(|f: LocalFileView| canceled_file(f, q));
    let r = fs.map_values(|f: LocalFileView| restarted_file(f, q));
    assert(c.map_values(|f: LocalFileView| restarted_file(f, q)) =~= r);
    assert(r.map_values(|f: LocalFileView| canceled_file(f, q)) =~= c);
    if queue_pending(fs, q) {
        let i = choose|i: int| 0 <= i < fs.len() && queue_has(q, fs[i].file_id) && fs[i].state != FileState::Local;
        assert(c[i].file_id == fs[i].file_id);
    }
    if queue_pending(c, q) {
        let i = choose|i: int| 0 <= i < c.len() && queue_has(q, c[i].file_id) && c[i].state != FileState::Local;
        assert(c[i].file_id == fs[i].file_id);
    }
}

/// Root of the client subscriptions: each method gives what an update of
/// its subscription carries, as the state stands.
#[derive(Clone, Copy, Debug)]
pub struct SubscriptionsRoot;

impl SubscriptionsRoot {
    /// All the files known.
    pub fn files(state: &State) -> (r: &Vec<LocalFileInfo>)
        ensures
            *r == state.files,
    {
        &state.files
    }

    /// The first file with the identity `id`, if any.
    pub fn file<'a>(id: &FileId, state: &'a State) -> (r: Option<&'a LocalFileInfo>)
        ensures
            match first_match(files_view(state.files@), id@, false) {
                Some(i) => r matches Some(f) && *f == state.files@[i],
                None => r is None,
            },
    {
        match find_file(&state.files, id, false) {
            Some(i) => Some(&state.files[i]),
            None => None,
        }
    }

    /// The re-stream `id`, if any.
    pub fn restream(id: u128, state: &State) -> (r: Option<&Restream>)
        ensures
            match first_index(state.restreams@, is_restream(id)) {
                Some(i) => r matches Some(x) && *x == state.restreams@[i],
                None => r is None,
            },
    {
        match find_restream(&state.restreams, id) {
            Some(i) => Some(&state.restreams[i]),
            None => None,
        }
    }

    /// The file the playlist of the re-stream `id` plays, if the re-stream
    /// exists, plays a file, and that file is known.
    pub fn currently_playing_file(id: u128, state: &State) -> (r: Option<&LocalFileInfo>)
        ensures
            match first_index(state.restreams@, is_restream(id)) {
                Some(i) => match state.restreams@[i].playlist.currently_playing_file {
                    Some(p) => match first_match(files_view(state.files@), p.file_id@, false) {
                        Some(k) => r matches Some(f) && *f == state.files@[k],
                        None => r is None,
                    },
                    None => r is None,
                },
                None => r is None,
            },
    {
        match find_restream(&state.restreams, id) {
            Some(i) => match &state.restreams[i].playlist.currently_playing_file {
                Some(p) => match find_file(&state.files, &p.file_id, false) {
                    Some(k) => Some(&state.files[k]),
                    None => None,
                },
                None => None,
            },
            None => None,
        }
    }
}

} // verus!
