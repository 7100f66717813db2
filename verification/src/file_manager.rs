//! File manager: which Google Drive files the server needs, their download
//! states, and the files on disk.

use vstd::prelude::*;

use crate::state::{
    only_commands_changed, only_files_and_commands_changed, only_files_and_restreams_changed, only_files_changed,
    FailoverInput, InputEndpoint, InputEndpointKind, InputSrc, Restream, State, Status,
};
use crate::text::{decimal, join2, join4, u64_to_decimal};

verus! {

broadcast use vstd::seq_lib::group_seq_properties;

/// Identity of a file on Google Drive.
#[derive(Debug)]
pub struct FileId(pub String);

impl View for FileId {
    type V = Seq<char>;

    open spec fn view(&self) -> Seq<char> {
        self.0@
    }
}

impl FileId {
    /// Copies this identity.
    pub fn duplicate(&self) -> (r: FileId)
        ensures
            r@ == self@,
    {
        FileId(self.0.clone())
    }

    /// Compares two identities by their text.
    pub fn same(&self, other: &FileId) -> (r: bool)
        ensures
            r == (self@ == other@),
    {
        self.0 == other.0
    }
}

/// State of a file known to the file manager.
#[derive(Clone, Copy, Debug, PartialEq, Eq, Structural)]
pub enum FileState {
    /// Waits for its download to start.
    Waiting,
    /// The download waits for the first server response.
    Pending,
    /// The file is being downloaded.
    Downloading,
    /// The file is downloaded and stored on disk.
    Local,
    /// The download failed.
    DownloadError,
}

/// Progress of a download, in bytes.
#[derive(Clone, Copy, Debug, PartialEq, Eq, Structural)]
pub struct DownloadState {
    /// Expected size of the whole file.
    pub max_progress: u64,
    /// Number of bytes downloaded so far.
    pub current_progress: u64,
}

/// A file known to the file manager.
#[derive(Debug)]
pub struct LocalFileInfo {
    /// ID of the file.
    pub file_id: FileId,
    /// Name of the file, once known.
    pub name: Option<String>,
    /// State of the file.
    pub state: FileState,
    /// Download error message.
    pub error: Option<String>,
    /// Progress of the download, while downloading.
    pub download_state: Option<DownloadState>,
}

/// Abstract value of a [`LocalFileInfo`].
pub struct LocalFileView {
    /// ID of the file.
    pub file_id: Seq<char>,
    /// Name of the file, once known.
    pub name: Option<Seq<char>>,
    /// State of the file.
    pub state: FileState,
    /// Download error message.
    pub error: Option<Seq<char>>,
    /// Progress of the download.
    pub download_state: Option<DownloadState>,
}

impl View for LocalFileInfo {
    type V = LocalFileView;

    open spec fn view(&self) -> LocalFileView {
        LocalFileView {
            file_id: self.file_id@,
            name: self.name.deep_view(),
            state: self.state,
            error: self.error.deep_view(),
            download_state: self.download_state,
        }
    }
}

/// Abstract value of a list of files.
pub open spec fn files_view(fs: Seq<LocalFileInfo>) -> Seq<LocalFileView> {
    fs.map_values(|f: LocalFileInfo| f@)
}

/// A file of a playlist.
#[derive(Debug)]
pub struct PlaylistFileInfo {
    /// Google Drive ID of the file.
    pub file_id: FileId,
    /// Name of the file.
    pub name: String,
    /// Whether the file was played already.
    pub was_played: bool,
}

/// Abstract value of a [`PlaylistFileInfo`].
pub struct PlaylistFileView {
    /// Google Drive ID of the file.
    pub file_id: Seq<char>,
    /// Name of the file.
    pub name: Seq<char>,
    /// Whether the file was played already.
    pub was_played: bool,
}

impl View for PlaylistFileInfo {
    type V = PlaylistFileView;

    open spec fn view(&self) -> PlaylistFileView {
        PlaylistFileView { file_id: self.file_id@, name: self.name@, was_played: self.was_played }
    }
}

impl PlaylistFileInfo {
    /// Copies this entry.
    pub fn duplicate(&self) -> (r: PlaylistFileInfo)
        ensures
            r@ == self@,
    {
        PlaylistFileInfo {
            file_id: self.file_id.duplicate(),
            name: self.name.clone(),
            was_played: self.was_played,
        }
    }
}

/// Commands for the file manager.
#[derive(Debug)]
pub enum FileCommand {
    /// The set of files used by the re-streams changed.
    ListOfFilesChanged,
    /// The given files are to be downloaded anew.
    NeedDownloadFiles(Vec<FileId>),
    /// The download of the given files is to start.
    StartDownloadFile(Vec<FileId>),
}

/// An entry of the directory where downloaded files are stored.
#[derive(Debug)]
pub struct DiskEntry {
    /// Name of the entry.
    pub name: String,
    /// Whether the entry is a regular file.
    pub is_file: bool,
}

/// A file that the re-streams use, with its name when the playlist knows it.
pub open spec fn needed_view(p: (FileId, Option<String>)) -> (Seq<char>, Option<Seq<char>>) {
    (p.0@, p.1.deep_view())
}

/// Abstract value of a list of needed files.
pub open spec fn needed_list_view(v: Seq<(FileId, Option<String>)>) -> Seq<(Seq<char>, Option<Seq<char>>)> {
    v.map_values(|p: (FileId, Option<String>)| needed_view(p))
}

// ---------------------------------------------------------------------------
// Specifications
// ---------------------------------------------------------------------------

/// Whether some file of `fs` has the identity `id`.
pub open spec fn has_file(fs: Seq<LocalFileView>, id: Seq<char>) -> bool {
    exists|i: int| 0 <= i < fs.len() && fs[i].file_id == id
}

/// Whether `f` is the file a lookup for `id` is after; a lookup that skips
/// failed downloads passes over files in the `DownloadError` state.
pub open spec fn is_match(f: LocalFileView, id: Seq<char>, skip_failed: bool) -> bool {
    f.file_id == id && (!skip_failed || f.state != FileState::DownloadError)
}

/// Position of the first file of `fs` that a lookup for `id` finds.
pub open spec fn first_match(fs: Seq<LocalFileView>, id: Seq<char>, skip_failed: bool) -> Option<int>
    decreases fs.len(),
{
    if fs.len() == 0 {
        None
    } else if is_match(fs[0], id, skip_failed) {
        Some(0)
    } else {
        match first_match(fs.drop_first(), id, skip_failed) {
            Some(i) => Some(i + 1),
            None => None,
        }
    }
}

/// A new file waiting for its download.
pub open spec fn waiting_file(id: Seq<char>, name: Option<Seq<char>>) -> LocalFileView {
    LocalFileView { file_id: id, name, state: FileState::Waiting, error: None, download_state: None }
}

/// Files after the file `id` was asked for.
pub open spec fn with_needed(fs: Seq<LocalFileView>, id: Seq<char>, name: Option<Seq<char>>) -> Seq<LocalFileView> {
    if has_file(fs, id) {
        fs
    } else {
        fs.push(waiting_file(id, name))
    }
}

/// Files after each file of `needed` was asked for, in order.
pub open spec fn with_all_needed(fs: Seq<LocalFileView>, needed: Seq<(Seq<char>, Option<Seq<char>>)>) -> Seq<LocalFileView>
    decreases needed.len(),
{
    if needed.len() == 0 {
        fs
    } else {
        let before = with_all_needed(fs, needed.drop_last());
        with_needed(before, needed.last().0, needed.last().1)
    }
}

/// The file that a failover input plays, if its first endpoint is a file.
pub open spec fn failover_file(i: FailoverInput) -> Option<Seq<char>> {
    if i.endpoints@.len() > 0 && i.endpoints@[0].kind == InputEndpointKind::File
        && i.endpoints@[0].file_id is Some {
        Some(i.endpoints@[0].file_id->0@)
    } else {
        None
    }
}

/// Files played by the given failover inputs, in order.
pub open spec fn failover_files(inputs: Seq<FailoverInput>) -> Seq<(Seq<char>, Option<Seq<char>>)>
    decreases inputs.len(),
{
    if inputs.len() == 0 {
        seq![]
    } else {
        failover_files(inputs.drop_last()) + match failover_file(inputs.last()) {
            Some(f) => seq![(f, None::<Seq<char>>)],
            None => seq![],
        }
    }
}

/// Files of a playlist queue, with their names.
pub open spec fn playlist_files(q: Seq<PlaylistFileInfo>) -> Seq<(Seq<char>, Option<Seq<char>>)> {
    q.map_values(|f: PlaylistFileInfo| (f.file_id@, Some(f.name@)))
}

/// Files played by the failover inputs of a restream.
pub open spec fn restream_failover_files(r: Restream) -> Seq<(Seq<char>, Option<Seq<char>>)> {
    match r.input.src {
        Some(InputSrc::Failover(v)) => failover_files(v@),
        _ => seq![],
    }
}

/// Files a restream uses: those of its failover inputs, then those of its
/// playlist.
pub open spec fn restream_files(r: Restream) -> Seq<(Seq<char>, Option<Seq<char>>)> {
    restream_failover_files(r) + playlist_files(r.playlist.queue@)
}

/// Files the given restreams use, in order.
pub open spec fn needed_files(rs: Seq<Restream>) -> Seq<(Seq<char>, Option<Seq<char>>)>
    decreases rs.len(),
{
    if rs.len() == 0 {
        seq![]
    } else {
        needed_files(rs.drop_last()) + restream_files(rs.last())
    }
}

/// Whether `needed` names the file `id`.
pub open spec fn is_needed(needed: Seq<(Seq<char>, Option<Seq<char>>)>, id: Seq<char>) -> bool {
    exists|k: int| 0 <= k < needed.len() && needed[k].0 == id
}

/// Files that `needed` names, in their order.
pub open spec fn only_needed(fs: Seq<LocalFileView>, needed: Seq<(Seq<char>, Option<Seq<char>>)>) -> Seq<LocalFileView> {
    fs.filter(|f: LocalFileView| is_needed(needed, f.file_id))
}

/// Whether the disk holds a regular file named `name`.
pub open spec fn on_disk(ds: Seq<DiskEntry>, name: Seq<char>) -> bool {
    exists|j: int| 0 <= j < ds.len() && ds[j].is_file && ds[j].name@ == name
}

/// Error of a file that was expected on disk and is not there.
pub open spec fn missing_on_disk_message() -> Seq<char> {
    "There is no file on disk."@
}

/// A file after the disk was looked at: a file that is not waiting and is
/// not on disk becomes a failed download.
pub open spec fn synced_file(f: LocalFileView, ds: Seq<DiskEntry>) -> LocalFileView {
    if f.state != FileState::Waiting && !on_disk(ds, f.file_id) {
        LocalFileView {
            state: FileState::DownloadError,
            download_state: None,
            error: Some(missing_on_disk_message()),
            ..f
        }
    } else {
        f
    }
}

/// Files after the disk was looked at.
pub open spec fn synced_files(fs: Seq<LocalFileView>, ds: Seq<DiskEntry>) -> Seq<LocalFileView> {
    fs.map_values(|f: LocalFileView| synced_file(f, ds))
}

/// Looking at the disk changes a file only when it is missing there: a file
/// of which the disk holds a regular file named after its identifier, and a
/// file still waiting, stay as they are; any other file becomes a failed
/// download, with no progress, for lack of its file on disk. No file is
/// added, dropped or moved.
pub proof fn lemma_synced_files(fs: Seq<LocalFileView>, ds: Seq<DiskEntry>)
    ensures
        synced_files(fs, ds).len() == fs.len(),
        forall|k: int, j: int|
            #![trigger synced_files(fs, ds)[k], ds[j]]
            0 <= k < fs.len() && 0 <= j < ds.len() && ds[j].is_file && ds[j].name@ == fs[k].file_id
                ==> synced_files(fs, ds)[k] == fs[k],
        forall|k: int| 0 <= k < fs.len() && fs[k].state == FileState::Waiting ==> #[trigger] synced_files(fs, ds)[k] == fs[k],
        forall|k: int|
            0 <= k < fs.len() && fs[k].state != FileState::Waiting && (forall|j: int|
                0 <= j < ds.len() ==> !(ds[j].is_file && ds[j].name@ == fs[k].file_id)) ==> {
                let f = #[trigger] synced_files(fs, ds)[k];
                &&& f.file_id == fs[k].file_id
                &&& f.name == fs[k].name
                &&& f.state == FileState::DownloadError
                &&& f.download_state is None
                &&& f.error == Some("There is no file on disk."@)
            },
{
}

/// Asking for files keeps the files there are, in their places, and leaves
/// an entry for each file asked for.
proof fn lemma_with_all_needed(fs: Seq<LocalFileView>, needed: Seq<(Seq<char>, Option<Seq<char>>)>)
    ensures
        with_all_needed(fs, needed).len() >= fs.len(),
        forall|k: int| 0 <= k < fs.len() ==> #[trigger] with_all_needed(fs, needed)[k] == fs[k],
        forall|n: int| 0 <= n < needed.len() ==> has_file(with_all_needed(fs, needed), (#[trigger] needed[n]).0),
    decreases needed.len(),
{
    if needed.len() > 0 {
        let p = needed.drop_last();
        lemma_with_all_needed(fs, p);
        let before = with_all_needed(fs, p);
        let id = needed.last().0;
        assert forall|n: int| 0 <= n < needed.len() implies has_file(
            with_all_needed(fs, needed),
            (#[trigger] needed[n]).0,
        ) by {
            let after = with_all_needed(fs, needed);
            if n < p.len() {
                assert(needed[n] == p[n]);
                let i = choose|i: int| 0 <= i < before.len() && before[i].file_id == p[n].0;
                assert(after[i] == before[i]);
            } else if !has_file(before, id) {
                assert(after[before.len() as int].file_id == id);
            }
        }
    }
}

/// Bringing the files in line with the re-streams and the disk (see
/// [`check_files`]) keeps every file a re-stream uses that is on disk (a
/// regular file named after its identifier) as it is; turns every other
/// file a re-stream uses, unless still waiting, into a failed download for
/// lack of its file on disk; and leaves an entry for every file the
/// re-streams use.
pub proof fn lemma_check_files_keeps_files_on_disk(
    fs: Seq<LocalFileView>,
    needed: Seq<(Seq<char>, Option<Seq<char>>)>,
    ds: Seq<DiskEntry>,
)
    ensures
        ({
            let after = with_all_needed(synced_files(only_needed(fs, needed), ds), needed);
            &&& forall|k: int, j: int|
                #![trigger fs[k], ds[j]]
                0 <= k < fs.len() && is_needed(needed, fs[k].file_id) && 0 <= j < ds.len() && ds[j].is_file
                    && ds[j].name@ == fs[k].file_id ==> after.contains(fs[k])
            &&& forall|k: int|
                0 <= k < fs.len() && is_needed(needed, fs[k].file_id) && fs[k].state != FileState::Waiting && (
                forall|j: int| 0 <= j < ds.len() ==> !(ds[j].is_file && ds[j].name@ == fs[k].file_id))
                    ==> after.contains(
                    LocalFileView {
                        state: FileState::DownloadError,
                        download_state: None,
                        error: Some("There is no file on disk."@),
                        ..#[trigger] fs[k]
                    },
                )
            &&& forall|n: int| 0 <= n < needed.len() ==> has_file(after, (#[trigger] needed[n]).0)
        }),
{
    let pred = |f: LocalFileView| is_needed(needed, f.file_id);
    let kept = only_needed(fs, needed);
    let synced = synced_files(kept, ds);
    lemma_synced_files(kept, ds);
    lemma_with_all_needed(synced, needed);
    let after = with_all_needed(synced, needed);
    assert forall|k: int| 0 <= k < fs.len() && is_needed(needed, fs[k].file_id) implies exists|m: int|
        0 <= m < kept.len() && #[trigger] kept[m] == fs[k] && after[m] == synced[m] by {
        fs.lemma_filter_contains(pred, k);
        assert(kept.contains(fs[k]));
        let m = choose|m: int| 0 <= m < kept.len() && kept[m] == fs[k];
        assert(after[m] == synced[m]);
    }
    assert forall|k: int, j: int|
        #![trigger fs[k], ds[j]]
        0 <= k < fs.len() && is_needed(needed, fs[k].file_id) && 0 <= j < ds.len() && ds[j].is_file
            && ds[j].name@ == fs[k].file_id implies after.contains(fs[k]) by {
        let m = choose|m: int| 0 <= m < kept.len() && #[trigger] kept[m] == fs[k] && after[m] == synced[m];
        assert(synced[m] == kept[m]);
    }
    assert forall|k: int|
        0 <= k < fs.len() && is_needed(needed, fs[k].file_id) && fs[k].state != FileState::Waiting && (forall|
            j: int,
        | 0 <= j < ds.len() ==> !(ds[j].is_file && ds[j].name@ == fs[k].file_id)) implies after.contains(
        LocalFileView {
            state: FileState::DownloadError,
            download_state: None,
            error: Some("There is no file on disk."@),
            ..#[trigger] fs[k]
        },
    ) by {
        let m = choose|m: int| 0 <= m < kept.len() && #[trigger] kept[m] == fs[k] && after[m] == synced[m];
        assert(synced[m] == LocalFileView {
            state: FileState::DownloadError,
            download_state: None,
            error: Some("There is no file on disk."@),
            ..fs[k]
        });
    }
}

/// Regular files on disk that no known file stands for, in order.
pub open spec fn stale_disk_files(fs: Seq<LocalFileView>, ds: Seq<DiskEntry>) -> Seq<Seq<char>>
    decreases ds.len(),
{
    if ds.len() == 0 {
        seq![]
    } else {
        stale_disk_files(fs, ds.drop_last()) + if ds.last().is_file && !has_file(fs, ds.last().name@) {
            seq![ds.last().name@]
        } else {
            seq![]
        }
    }
}

// ---------------------------------------------------------------------------
// Lemmas
// ---------------------------------------------------------------------------

/// The first match is characterized by its position: it matches and nothing
/// before it does.
pub proof fn lemma_first_match(fs: Seq<LocalFileView>, id: Seq<char>, skip_failed: bool, i: int)
    requires
        0 <= i <= fs.len(),
        forall|j: int| 0 <= j < i ==> !is_match(#[trigger] fs[j], id, skip_failed),
    ensures
        i < fs.len() && is_match(fs[i], id, skip_failed) ==> first_match(fs, id, skip_failed) == Some(i),
        i == fs.len() ==> first_match(fs, id, skip_failed) is None,
    decreases fs.len(),
{
    if fs.len() > 0 && i > 0 {
        let tail = fs.drop_first();
        assert forall|j: int| 0 <= j < i - 1 implies !is_match(#[trigger] tail[j], id, skip_failed) by {
            assert(tail[j] == fs[j + 1]);
        }
        lemma_first_match(tail, id, skip_failed, i - 1);
    }
}

/// The first match exists exactly when some file matches.
pub proof fn lemma_first_match_some(fs: Seq<LocalFileView>, id: Seq<char>, skip_failed: bool)
    ensures
        match first_match(fs, id, skip_failed) {
            Some(i) => 0 <= i < fs.len() && is_match(fs[i], id, skip_failed),
            None => forall|j: int| 0 <= j < fs.len() ==> !is_match(#[trigger] fs[j], id, skip_failed),
        },
    decreases fs.len(),
{
    if fs.len() > 0 {
        let tail = fs.drop_first();
        lemma_first_match_some(tail, id, skip_failed);
        if !is_match(fs[0], id, skip_failed) {
            if first_match(tail, id, skip_failed) is None {
                assert forall|j: int| 0 <= j < fs.len() implies !is_match(#[trigger] fs[j], id, skip_failed) by {
                    if j > 0 {
                        assert(fs[j] == tail[j - 1]);
                    }
                }
            }
        }
    }
}

// ---------------------------------------------------------------------------
// Operations
// ---------------------------------------------------------------------------

/// Finds the first file that a lookup for `id` finds; a lookup that skips
/// failed downloads passes over files in the `DownloadError` state.
pub fn find_file(files: &Vec<LocalFileInfo>, id: &FileId, skip_failed: bool) -> (r: Option<usize>)
    ensures
        r matches Some(i) ==> i < files.len(),
        match r {
            Some(i) => first_match(files_view(files@), id@, skip_failed) == Some(i as int),
            None => first_match(files_view(files@), id@, skip_failed) is None,
        },
{
    let ghost fv = files_view(files@);
    let mut i: usize = 0;
    while i < files.len()
        invariant
            i <= files.len(),
            fv == files_view(files@),
            forall|j: int| 0 <= j < i ==> !is_match(#[trigger] fv[j], id@, skip_failed),
        decreases files.len() - i,
    {
        if files[i].file_id.same(id) && (!skip_failed || files[i].state != FileState::DownloadError) {
            proof {
                lemma_first_match(fv, id@, skip_failed, i as int);
            }
            return Some(i);
        }
        i = i + 1;
    }
    proof {
        lemma_first_match(fv, id@, skip_failed, i as int);
    }
    None
}

/// Whether some file has the identity `id`.
pub fn contains_file(files: &Vec<LocalFileInfo>, id: &FileId) -> (r: bool)
    ensures
        r == has_file(files_view(files@), id@),
{
    let r = find_file(files, id, false);
    proof {
        lemma_first_match_some(files_view(files@), id@, false);
    }
    r.is_some()
}

/// Asks for the file `file_id`: a file waiting for its download is added,
/// unless a file with the same identity is known already.
pub fn need_file(files: &mut Vec<LocalFileInfo>, file_id: &FileId, file_name: Option<String>)
    ensures
        files_view(final(files)@) == with_needed(files_view(old(files)@), file_id@, file_name.deep_view()),
{
    if !contains_file(files, file_id) {
        let new_file = LocalFileInfo {
            file_id: file_id.duplicate(),
            name: file_name,
            state: FileState::Waiting,
            download_state: None,
            error: None,
        };
        files.push(new_file);
        assert(files_view(files@) =~= files_view(old(files)@).push(waiting_file(file_id@, file_name.deep_view())));
    }
}

/// Lists the files that the given restreams use: for each restream, the
/// files of its failover inputs whose first endpoint is a file, then the
/// files of its playlist, with their names.
pub fn needed_files_of(restreams: &Vec<Restream>) -> (r: Vec<(FileId, Option<String>)>)
    ensures
        needed_list_view(r@) == needed_files(restreams@),
{
    let mut out: Vec<(FileId, Option<String>)> = Vec::new();
    let mut i: usize = 0;
    while i < restreams.len()
        invariant
            i <= restreams.len(),
            needed_list_view(out@) == needed_files(restreams@.take(i as int)),
        decreases restreams.len() - i,
    {
        let r = &restreams[i];
        let ghost before = needed_list_view(out@);
        let ghost failover_part = restream_failover_files(*r);
        match &r.input.src {
            Some(InputSrc::Failover(inputs)) => {
                let mut j: usize = 0;
                while j < inputs.len()
                    invariant
                        j <= inputs.len(),
                        needed_list_view(out@) == before + failover_files(inputs@.take(j as int)),
                    decreases inputs.len() - j,
                {
                    let input = &inputs[j];
                    let ghost prev = needed_list_view(out@);
                    assert(inputs@.take(j + 1).drop_last() =~= inputs@.take(j as int));
                    assert(inputs@.take(j + 1).last() == inputs@[j as int]);
                    let ghost part: Seq<(Seq<char>, Option<Seq<char>>)> = match failover_file(inputs@[j as int]) {
                        Some(f) => seq![(f, None::<Seq<char>>)],
                        None => seq![],
                    };
                    assert(failover_files(inputs@.take(j + 1)) == failover_files(inputs@.take(j as int)) + part);
                    if input.endpoints.len() > 0 && input.endpoints[0].kind == InputEndpointKind::File
                        && input.endpoints[0].file_id.is_some() {
                        let fid = input.endpoints[0].file_id.as_ref().unwrap();
                        out.push((fid.duplicate(), None));
                        assert(needed_list_view(out@) =~= prev.push((fid@, None::<Seq<char>>)));
                        assert(part =~= seq![(fid@, None::<Seq<char>>)]);
                    } else {
                        assert(part =~= Seq::<(Seq<char>, Option<Seq<char>>)>::empty());
                    }
                    assert(needed_list_view(out@) =~= before + failover_files(inputs@.take(j + 1)));
                    j = j + 1;
                }
                assert(inputs@.take(inputs.len() as int) =~= inputs@);
            },
            _ => {
                assert(needed_list_view(out@) =~= before + failover_part);
            },
        }
        let ghost mid = needed_list_view(out@);
        assert(mid == before + failover_part);
        let q = &r.playlist.queue;
        let mut k: usize = 0;
        while k < q.len()
            invariant
                k <= q.len(),
                needed_list_view(out@) == mid + playlist_files(q@.take(k as int)),
            decreases q.len() - k,
        {
            let ghost prev = needed_list_view(out@);
            out.push((q[k].file_id.duplicate(), Some(q[k].name.clone())));
            assert(needed_list_view(out@) =~= prev.push((q@[k as int].file_id@, Some(q@[k as int].name@))));
            assert(playlist_files(q@.take(k + 1)) =~= playlist_files(q@.take(k as int)).push(
                (q@[k as int].file_id@, Some(q@[k as int].name@)),
            ));
            assert(needed_list_view(out@) =~= mid + playlist_files(q@.take(k + 1)));
            k = k + 1;
        }
        assert(q@.take(q.len() as int) =~= q@);
        assert(restreams@.take(i + 1).drop_last() =~= restreams@.take(i as int));
        assert(needed_list_view(out@) =~= needed_files(restreams@.take(i + 1)));
        i = i + 1;
    }
    assert(restreams@.take(restreams.len() as int) =~= restreams@);
    out
}

/// Whether `needed` names the file `id`.
pub fn is_needed_file(needed: &Vec<(FileId, Option<String>)>, id: &FileId) -> (r: bool)
    ensures
        r == is_needed(needed_list_view(needed@), id@),
{
    let mut k: usize = 0;
    while k < needed.len()
        invariant
            k <= needed.len(),
            forall|m: int| 0 <= m < k ==> (#[trigger] needed_list_view(needed@)[m]).0 != id@,
        decreases needed.len() - k,
    {
        if needed[k].0.same(id) {
            assert(needed_list_view(needed@)[k as int].0 == id@);
            return true;
        }
        k = k + 1;
    }
    false
}

/// Keeps only the files that `needed` names, in their order.
pub fn retain_needed(files: &mut Vec<LocalFileInfo>, needed: &Vec<(FileId, Option<String>)>)
    ensures
        files_view(final(files)@) == only_needed(files_view(old(files)@), needed_list_view(needed@)),
{
    let ghost orig = files_view(files@);
    let ghost nv = needed_list_view(needed@);
    let ghost pred = |f: LocalFileView| is_needed(nv, f.file_id);
    let mut rest: Vec<LocalFileInfo> = Vec::new();
    std::mem::swap(files, &mut rest);
    let mut k: usize = 0;
    let n = rest.len();
    while rest.len() > 0
        invariant
            k + rest.len() == n,
            n == orig.len(),
            files_view(rest@) == orig.skip(k as int),
            files_view(files@) == orig.take(k as int).filter(pred),
            nv == needed_list_view(needed@),
            pred == (|f: LocalFileView| is_needed(nv, f.file_id)),
        decreases rest.len(),
    {
        let f = rest.remove(0);
        assert(files_view(rest@) =~= orig.skip(k + 1));
        assert(orig[k as int] == f@) by {
            assert(orig.skip(k as int)[0] == orig[k as int]);
        }
        assert(orig.take(k + 1) =~= orig.take(k as int).push(f@));
        let ghost prev = files_view(files@);
        proof {
            orig.take(k as int).lemma_filter_push(f@, pred);
        }
        if is_needed_file(needed, &f.file_id) {
            files.push(f);
            assert(files_view(files@) =~= prev.push(f@));
        }
        assert(files_view(files@) =~= orig.take(k + 1).filter(pred));
        k = k + 1;
    }
    assert(orig.take(n as int) =~= orig);
}

/// Whether the disk holds a regular file named `name`.
pub fn is_on_disk(disk: &Vec<DiskEntry>, name: &FileId) -> (r: bool)
    ensures
        r == on_disk(disk@, name@),
{
    let mut j: usize = 0;
    while j < disk.len()
        invariant
            j <= disk.len(),
            forall|m: int| 0 <= m < j ==> !(disk@[m].is_file && #[trigger] disk@[m].name@ == name@),
        decreases disk.len() - j,
    {
        if disk[j].is_file && disk[j].name == name.0 {
            return true;
        }
        j = j + 1;
    }
    false
}

/// Compares the files with the disk: returns the regular files on disk that
/// no known file stands for (to be deleted), and turns every file that is
/// not waiting and is not on disk into a failed download.
pub fn sync_with_disk(files: &mut Vec<LocalFileInfo>, disk: &Vec<DiskEntry>) -> (stale: Vec<String>)
    ensures
        stale@.map_values(|s: String| s@) == stale_disk_files(files_view(old(files)@), disk@),
        files_view(final(files)@) == synced_files(files_view(old(files)@), disk@),
{
    let ghost orig = files_view(files@);
    let mut stale: Vec<String> = Vec::new();
    let mut j: usize = 0;
    while j < disk.len()
        invariant
            j <= disk.len(),
            orig == files_view(files@),
            stale@.map_values(|s: String| s@) == stale_disk_files(orig, disk@.take(j as int)),
        decreases disk.len() - j,
    {
        let d = &disk[j];
        assert(disk@.take(j + 1).drop_last() =~= disk@.take(j as int));
        let d_name = FileId(d.name.clone());
        if d.is_file && !contains_file(files, &d_name) {
            stale.push(d.name.clone());
        }
        assert(stale@.map_values(|s: String| s@) =~= stale_disk_files(orig, disk@.take(j + 1)));
        j = j + 1;
    }
    assert(disk@.take(disk.len() as int) =~= disk@);
    let mut i: usize = 0;
    while i < files.len()
        invariant
            i <= files.len(),
            files.len() == orig.len(),
            forall|m: int| 0 <= m < i ==> #[trigger] files_view(files@)[m] == synced_file(orig[m], disk@),
            forall|m: int| i <= m < files.len() ==> #[trigger] files_view(files@)[m] == orig[m],
        decreases files.len() - i,
    {
        let ghost before = files@;
        if files[i].state != FileState::Waiting && !is_on_disk(disk, &files[i].file_id) {
            let mut f = files.remove(i);
            f.state = FileState::DownloadError;
            f.download_state = None;
            f.error = Some(String::from_str("There is no file on disk."));
            files.insert(i, f);
            assert(files@ =~= before.update(i as int, f));
            assert(f@ == synced_file(orig[i as int], disk@));
        } else {
            assert(files_view(files@)[i as int] == synced_file(orig[i as int], disk@));
        }
        assert forall|m: int| 0 <= m < files.len() && m != i implies #[trigger] files_view(files@)[m]
            == files_view(before)[m] by {}
        i = i + 1;
    }
    assert(files_view(files@) =~= synced_files(orig, disk@));
    stale
}

/// Brings the files in line with the restreams and the disk: drops the files
/// no restream uses, compares the rest with the disk, and asks for every file
/// the restreams use. Pending file commands are dropped. Returns the regular
/// files on disk to be deleted.
pub fn check_files(state: &mut State, disk: &Vec<DiskEntry>) -> (stale: Vec<String>)
    ensures
        only_files_and_commands_changed(*old(state), *final(state)),
        final(state).file_commands@ == Seq::<FileCommand>::empty(),
        final(state).restreams == old(state).restreams,
        ({
            let needed = needed_files(old(state).restreams@);
            let kept = only_needed(files_view(old(state).files@), needed);
            &&& stale@.map_values(|s: String| s@) == stale_disk_files(kept, disk@)
            &&& files_view(final(state).files@) == with_all_needed(synced_files(kept, disk@), needed)
        }),
{
    state.file_commands.clear();
    let needed = needed_files_of(&state.restreams);
    retain_needed(&mut state.files, &needed);
    let stale = sync_with_disk(&mut state.files, disk);
    let ghost synced = files_view(state.files@);
    let ghost nv = needed_list_view(needed@);
    let mut needed = needed;
    let mut rest: Vec<(FileId, Option<String>)> = Vec::new();
    std::mem::swap(&mut needed, &mut rest);
    let n = rest.len();
    let mut k: usize = 0;
    while rest.len() > 0
        invariant
            k + rest.len() == n,
            n == nv.len(),
            needed_list_view(rest@) == nv.skip(k as int),
            files_view(state.files@) == with_all_needed(synced, nv.take(k as int)),
            state.file_commands@ == Seq::<FileCommand>::empty(),
            only_files_and_commands_changed(*old(state), *state),
        decreases rest.len(),
    {
        let (fid, name) = rest.remove(0);
        assert(needed_list_view(rest@) =~= nv.skip(k + 1));
        assert(nv[k as int] == needed_view((fid, name))) by {
            assert(nv.skip(k as int)[0] == nv[k as int]);
        }
        assert(nv.take(k + 1).drop_last() =~= nv.take(k as int));
        need_file(&mut state.files, &fid, name);
        k = k + 1;
    }
    assert(nv.take(n as int) =~= nv);
    stale
}


/// Whether `ids` holds the identity `id`.
pub open spec fn in_ids(ids: Seq<FileId>, id: Seq<char>) -> bool {
    exists|k: int| 0 <= k < ids.len() && ids[k]@ == id
}

/// Files whose identity `ids` does not hold, in their order.
pub open spec fn without_ids(fs: Seq<LocalFileView>, ids: Seq<FileId>) -> Seq<LocalFileView> {
    fs.filter(|f: LocalFileView| !in_ids(ids, f.file_id))
}

/// The given identities as needed files without names.
pub open spec fn ids_as_needed(ids: Seq<FileId>) -> Seq<(Seq<char>, Option<Seq<char>>)> {
    ids.map_values(|id: FileId| (id@, None::<Seq<char>>))
}

/// Files whose identity `ids` holds, as downloads to start.
pub open spec fn downloads_of(fs: Seq<LocalFileView>, ids: Seq<FileId>) -> Seq<(Seq<char>, Option<Seq<char>>)>
    decreases fs.len(),
{
    if fs.len() == 0 {
        seq![]
    } else {
        downloads_of(fs.drop_last(), ids) + if in_ids(ids, fs.last().file_id) {
            seq![(fs.last().file_id, fs.last().name)]
        } else {
            seq![]
        }
    }
}

/// What the file manager asks the outside world to do after a command.
#[derive(Debug)]
pub struct FileEffects {
    /// Regular files on disk to delete.
    pub stale: Vec<String>,
    /// Downloads to start, with the names of the files when known.
    pub downloads: Vec<(FileId, Option<String>)>,
}

/// Takes the pending file commands out of the state, in their order.
pub fn take_file_commands(state: &mut State) -> (cmds: Vec<FileCommand>)
    ensures
        only_commands_changed(*old(state), *final(state)),
        cmds@ == old(state).file_commands@,
        final(state).file_commands@ == Seq::<FileCommand>::empty(),
        final(state).files == old(state).files,
        final(state).restreams == old(state).restreams,
{
    let mut cmds: Vec<FileCommand> = Vec::new();
    std::mem::swap(&mut cmds, &mut state.file_commands);
    cmds
}

/// Whether `ids` holds the identity `id`.
pub fn ids_contain(ids: &Vec<FileId>, id: &FileId) -> (r: bool)
    ensures
        r == in_ids(ids@, id@),
{
    let mut k: usize = 0;
    while k < ids.len()
        invariant
            k <= ids.len(),
            forall|m: int| 0 <= m < k ==> (#[trigger] ids@[m])@ != id@,
        decreases ids.len() - k,
    {
        if ids[k].same(id) {
            return true;
        }
        k = k + 1;
    }
    false
}

/// Drops the files whose identity `ids` holds.
pub fn remove_ids(files: &mut Vec<LocalFileInfo>, ids: &Vec<FileId>)
    ensures
        files_view(final(files)@) == without_ids(files_view(old(files)@), ids@),
{
    let ghost orig = files_view(files@);
    let ghost pred = |f: LocalFileView| !in_ids(ids@, f.file_id);
    let mut rest: Vec<LocalFileInfo> = Vec::new();
    std::mem::swap(files, &mut rest);
    let mut k: usize = 0;
    let n = rest.len();
    while rest.len() > 0
        invariant
            k + rest.len() == n,
            n == orig.len(),
            files_view(rest@) == orig.skip(k as int),
            files_view(files@) == orig.take(k as int).filter(pred),
            pred == (|f: LocalFileView| !in_ids(ids@, f.file_id)),
        decreases rest.len(),
    {
        let f = rest.remove(0);
        assert(files_view(rest@) =~= orig.skip(k + 1));
        assert(orig[k as int] == f@) by {
            assert(orig.skip(k as int)[0] == orig[k as int]);
        }
        assert(orig.take(k + 1) =~= orig.take(k as int).push(f@));
        let ghost prev = files_view(files@);
        proof {
            orig.take(k as int).lemma_filter_push(f@, pred);
        }
        if !ids_contain(ids, &f.file_id) {
            files.push(f);
            assert(files_view(files@) =~= prev.push(f@));
        }
        assert(files_view(files@) =~= orig.take(k + 1).filter(pred));
        k = k + 1;
    }
    assert(orig.take(n as int) =~= orig);
}

/// Handles one file command, given the entries of the download directory at
/// this moment:
/// - `ListOfFilesChanged` brings the files in line with the restreams and
///   the disk (see [`check_files`]);
/// - `NeedDownloadFiles` forgets the given files, compares the rest with the
///   disk, and asks for the given files anew;
/// - `StartDownloadFile` starts the downloads of the given known files.
pub fn handle_command(state: &mut State, cmd: FileCommand, disk: &Vec<DiskEntry>) -> (eff: FileEffects)
    ensures
        only_files_and_commands_changed(*old(state), *final(state)),
        final(state).restreams == old(state).restreams,
        match cmd {
            FileCommand::ListOfFilesChanged => {
                let needed = needed_files(old(state).restreams@);
                let kept = only_needed(files_view(old(state).files@), needed);
                &&& eff.stale@.map_values(|s: String| s@) == stale_disk_files(kept, disk@)
                &&& files_view(final(state).files@) == with_all_needed(synced_files(kept, disk@), needed)
                &&& eff.downloads@.len() == 0
                &&& final(state).file_commands@ == Seq::<FileCommand>::empty()
            },
            FileCommand::NeedDownloadFiles(ids) => {
                let kept = without_ids(files_view(old(state).files@), ids@);
                &&& eff.stale@.map_values(|s: String| s@) == stale_disk_files(kept, disk@)
                &&& files_view(final(state).files@) == with_all_needed(synced_files(kept, disk@), ids_as_needed(ids@))
                &&& eff.downloads@.len() == 0
                &&& final(state).file_commands == old(state).file_commands
            },
            FileCommand::StartDownloadFile(ids) => {
                &&& eff.stale@.len() == 0
                &&& needed_list_view(eff.downloads@) == downloads_of(files_view(old(state).files@), ids@)
                &&& final(state).files == old(state).files
                &&& final(state).file_commands == old(state).file_commands
            },
        },
{
    match cmd {
        FileCommand::ListOfFilesChanged => {
            let stale = check_files(state, disk);
            FileEffects { stale, downloads: Vec::new() }
        },
        FileCommand::NeedDownloadFiles(ids) => {
            remove_ids(&mut state.files, &ids);
            let stale = sync_with_disk(&mut state.files, disk);
            let ghost synced = files_view(state.files@);
            let ghost nv = ids_as_needed(ids@);
            let mut k: usize = 0;
            while k < ids.len()
                invariant
                    k <= ids.len(),
                    nv == ids_as_needed(ids@),
                    files_view(state.files@) == with_all_needed(synced, nv.take(k as int)),
                    only_files_changed(*old(state), *state),
                decreases ids.len() - k,
            {
                assert(nv.take(k + 1).drop_last() =~= nv.take(k as int));
                need_file(&mut state.files, &ids[k], None);
                k = k + 1;
            }
            assert(nv.take(ids.len() as int) =~= nv);
            FileEffects { stale, downloads: Vec::new() }
        },
        FileCommand::StartDownloadFile(ids) => {
            let mut downloads: Vec<(FileId, Option<String>)> = Vec::new();
            let ghost fv = files_view(state.files@);
            let mut i: usize = 0;
            while i < state.files.len()
                invariant
                    i <= state.files.len(),
                    fv == files_view(state.files@),
                    needed_list_view(downloads@) == downloads_of(fv.take(i as int), ids@),
                    *state == *old(state),
                    state.file_commands == old(state).file_commands,
                decreases state.files.len() - i,
            {
                let f = &state.files[i];
                assert(fv.take(i + 1).drop_last() =~= fv.take(i as int));
                let ghost prev = needed_list_view(downloads@);
                if ids_contain(&ids, &f.file_id) {
                    downloads.push((f.file_id.duplicate(), f.name.clone()));
                    assert(needed_list_view(downloads@) =~= prev.push((f.file_id@, f.name.deep_view())));
                }
                assert(needed_list_view(downloads@) =~= downloads_of(fv.take(i + 1), ids@));
                i = i + 1;
            }
            assert(fv.take(state.files.len() as int) =~= fv);
            FileEffects { stale: Vec::new(), downloads }
        },
    }
}

// ---------------------------------------------------------------------------
// Downloads
// ---------------------------------------------------------------------------

/// Error of a download that cannot start because no Google API key is set.
pub open spec fn no_api_key_message() -> Seq<char> {
    "No API key provided"@
}

/// Error of a lookup of a file by identity that found nothing.
pub open spec fn unknown_file_message(id: Seq<char>) -> Seq<char> {
    "Could not find file with the provided file ID: "@ + id
}

/// Error of a download start for an unknown file.
pub open spec fn unknown_download_message() -> Seq<char> {
    "Could not find file with the provided file ID"@
}

/// Error of a progress report for a file that is no longer needed.
pub open spec fn progress_gone_message() -> Seq<char> {
    "File is no longer in the required\n                                    files, canceling download."@
}

/// Error of a progress report for a file without a download state.
pub open spec fn no_download_state_message() -> Seq<char> {
    "The file does not have a download state."@
}

/// Error of a finished download for a file that is no longer needed.
pub open spec fn finish_gone_message() -> Seq<char> {
    "File is no longer in the required files, canceling download."@
}

/// Error of a download request that could not be sent.
pub open spec fn request_failed_message() -> Seq<char> {
    "Could not send download request for the file"@
}

/// Error of a download whose bytes could not be written.
pub open spec fn write_failed_message() -> Seq<char> {
    "Could not write received bytes to a file,aborting download."@
}

/// Error of a download whose bytes could not be flushed.
pub open spec fn flush_failed_message() -> Seq<char> {
    "Could not write all downloaded bytes to the file."@
}

/// Error of a file info request that found no file to name.
pub open spec fn unnamed_file_message() -> Seq<char> {
    "Could not find the provided file ID"@
}

/// The message of an error of a download that cannot start for want of a
/// Google API key.
pub fn no_api_key() -> (s: String)
    ensures
        s@ == no_api_key_message(),
{
    String::from_str("No API key provided")
}

/// The message of an error of a download request that could not be sent.
pub fn request_failed() -> (s: String)
    ensures
        s@ == request_failed_message(),
{
    String::from_str("Could not send download request for the file")
}

/// The message of an error of a download whose bytes could not be written.
pub fn write_failed() -> (s: String)
    ensures
        s@ == write_failed_message(),
{
    String::from_str("Could not write received bytes to a file,aborting download.")
}

/// The message of an error of a download whose bytes could not be flushed.
pub fn flush_failed() -> (s: String)
    ensures
        s@ == flush_failed_message(),
{
    String::from_str("Could not write all downloaded bytes to the file.")
}

/// Replaces the file at position `i`.
fn replace_file(files: &mut Vec<LocalFileInfo>, i: usize, f: LocalFileInfo)
    requires
        i < old(files).len(),
    ensures
        files_view(final(files)@) == files_view(old(files)@).update(i as int, f@),
{
    files.set(i, f);
    assert(files_view(files@) =~= files_view(old(files)@).update(i as int, f@));
}

/// Takes the file at position `i` out, leaving a placeholder.
fn take_file(files: &mut Vec<LocalFileInfo>, i: usize) -> (f: LocalFileInfo)
    requires
        i < old(files).len(),
    ensures
        f == old(files)@[i as int],
        final(files)@.len() == old(files)@.len(),
        forall|v: LocalFileView| #[trigger] files_view(final(files)@).update(i as int, v)
            == files_view(old(files)@).update(i as int, v),
{
    let ghost orig = files@;
    let f = files.remove(i);
    files.insert(i, LocalFileInfo {
        file_id: FileId(String::new()),
        name: None,
        state: FileState::Waiting,
        error: None,
        download_state: None,
    });
    assert forall|v: LocalFileView| #[trigger] files_view(files@).update(i as int, v)
        == files_view(orig).update(i as int, v) by {
        assert(files_view(files@).update(i as int, v) =~= files_view(orig).update(i as int, v));
    }
    f
}

/// Sets the name of the first file with the identity `id`.
pub fn set_file_name(files: &mut Vec<LocalFileInfo>, id: &FileId, name: String) -> (r: Result<(), String>)
    ensures
        match first_match(files_view(old(files)@), id@, false) {
            Some(i) => r is Ok && files_view(final(files)@) == files_view(old(files)@).update(
                i,
                LocalFileView { name: Some(name@), ..files_view(old(files)@)[i] },
            ),
            None => r matches Err(e) && e@ == unknown_file_message(id@) && final(files)@ == old(files)@,
        },
{
    match find_file(files, id, false) {
        Some(i) => {
            let mut f = take_file(files, i);
            f.name = Some(name);
            replace_file(files, i, f);
            Ok(())
        },
        None => {
            Err(join2("Could not find file with the provided file ID: ", id.0.as_str()))
        },
    }
}

/// Sets the name of the first file with the identity `id` to the name the
/// API gave for it; the error where no such file is known any more.
pub fn update_file_info(files: &mut Vec<LocalFileInfo>, id: &FileId, name: String) -> (r: Result<(), String>)
    ensures
        match first_match(files_view(old(files)@), id@, false) {
            Some(i) => r is Ok && files_view(final(files)@) == files_view(old(files)@).update(
                i,
                LocalFileView { name: Some(name@), ..files_view(old(files)@)[i] },
            ),
            None => r matches Err(e) && e@ == unnamed_file_message() && final(files)@ == old(files)@,
        },
{
    match find_file(files, id, false) {
        Some(i) => {
            let mut f = take_file(files, i);
            f.name = Some(name);
            replace_file(files, i, f);
            Ok(())
        },
        None => Err(String::from_str("Could not find the provided file ID")),
    }
}

/// Marks the first file with the identity `id` as being downloaded, with
/// `total` bytes expected.
pub fn start_download(files: &mut Vec<LocalFileInfo>, id: &FileId, total: u64) -> (r: Result<(), String>)
    ensures
        match first_match(files_view(old(files)@), id@, false) {
            Some(i) => r is Ok && files_view(final(files)@) == files_view(old(files)@).update(
                i,
                LocalFileView {
                    download_state: Some(DownloadState { max_progress: total, current_progress: 0 }),
                    state: FileState::Downloading,
                    ..files_view(old(files)@)[i]
                },
            ),
            None => r matches Err(e) && e@ == unknown_download_message() && final(files)@ == old(files)@,
        },
{
    match find_file(files, id, false) {
        Some(i) => {
            let mut f = take_file(files, i);
            f.download_state = Some(DownloadState { max_progress: total, current_progress: 0 });
            f.state = FileState::Downloading;
            replace_file(files, i, f);
            Ok(())
        },
        None => Err(String::from_str("Could not find file with the provided file ID")),
    }
}

/// Whether the progress of a download is to be reported, given the
/// milliseconds since the last report: reports come at most every 400 ms.
pub fn progress_is_due(elapsed_ms: i64) -> (r: bool)
    ensures
        r == (elapsed_ms > 400),
{
    elapsed_ms > 400
}

/// Reports `current` downloaded bytes of the first file with the identity
/// `id` that is not a failed download.
pub fn report_progress(files: &mut Vec<LocalFileInfo>, id: &FileId, current: u64) -> (r: Result<(), String>)
    ensures
        match first_match(files_view(old(files)@), id@, true) {
            Some(i) => match files_view(old(files)@)[i].download_state {
                Some(ds) => r is Ok && files_view(final(files)@) == files_view(old(files)@).update(
                    i,
                    LocalFileView {
                        download_state: Some(DownloadState { current_progress: current, ..ds }),
                        ..files_view(old(files)@)[i]
                    },
                ),
                None => r matches Err(e) && e@ == no_download_state_message() && final(files)@ == old(files)@,
            },
            None => r matches Err(e) && e@ == progress_gone_message() && final(files)@ == old(files)@,
        },
{
    match find_file(files, id, true) {
        Some(i) => {
            match files[i].download_state {
                Some(ds) => {
                    let mut f = take_file(files, i);
                    f.download_state = Some(DownloadState { current_progress: current, ..ds });
                    replace_file(files, i, f);
                    Ok(())
                },
                None => Err(String::from_str("The file does not have a download state.")),
            }
        },
        None => Err(String::from_str(
            "File is no longer in the required\n                                    files, canceling download.",
        )),
    }
}

/// Whether a finished download of the file `id` can be recorded: the first
/// file with that identity, if any, has a download state.
pub open spec fn can_finish(fs: Seq<LocalFileView>, id: Seq<char>) -> bool {
    first_match(fs, id, false) matches Some(i) ==> fs[i].download_state is Some
}

/// Whether a finished download of the file `id` can be recorded.
pub fn finish_allowed(files: &Vec<LocalFileInfo>, id: &FileId) -> (r: bool)
    ensures
        r == can_finish(files_view(files@), id@),
{
    match find_file(files, id, false) {
        Some(i) => files[i].download_state.is_some(),
        None => true,
    }
}

/// An input endpoint after the file `id` became available: a file endpoint
/// playing `id` goes online.
pub open spec fn endpoint_after_download(old_e: InputEndpoint, new_e: InputEndpoint, id: Seq<char>) -> bool {
    &&& new_e.id == old_e.id
    &&& new_e.kind == old_e.kind
    &&& new_e.label == old_e.label
    &&& new_e.file_id == old_e.file_id
    &&& new_e.status == if old_e.kind == InputEndpointKind::File && old_e.file_id is Some && old_e.file_id->0@ == id {
        Status::Online
    } else {
        old_e.status
    }
}

/// A failover input after the file `id` became available.
pub open spec fn failover_after_download(old_i: FailoverInput, new_i: FailoverInput, id: Seq<char>) -> bool {
    &&& new_i.id == old_i.id
    &&& new_i.key == old_i.key
    &&& new_i.src == old_i.src
    &&& new_i.enabled == old_i.enabled
    &&& new_i.endpoints@.len() == old_i.endpoints@.len()
    &&& forall|k: int| 0 <= k < old_i.endpoints@.len() ==> endpoint_after_download(
        #[trigger] old_i.endpoints@[k],
        new_i.endpoints@[k],
        id,
    )
}

/// A restream after the file `id` became available: the file endpoints of
/// its failover inputs playing `id` go online, and nothing else changes.
pub open spec fn restream_after_download(old_r: Restream, new_r: Restream, id: Seq<char>) -> bool {
    &&& new_r.id == old_r.id
    &&& new_r.key == old_r.key
    &&& new_r.label == old_r.label
    &&& new_r.outputs == old_r.outputs
    &&& new_r.playlist == old_r.playlist
    &&& new_r.input.id == old_r.input.id
    &&& new_r.input.key == old_r.input.key
    &&& new_r.input.endpoints == old_r.input.endpoints
    &&& new_r.input.enabled == old_r.input.enabled
    &&& match old_r.input.src {
        Some(InputSrc::Failover(v)) => new_r.input.src matches Some(InputSrc::Failover(w)) && w@.len() == v@.len()
            && forall|k: int| 0 <= k < v@.len() ==> failover_after_download(#[trigger] v@[k], w@[k], id),
        _ => new_r.input.src == old_r.input.src,
    }
}

/// Sets online the file endpoints of the failover inputs playing `id`.
fn endpoints_online(inputs: &mut Vec<FailoverInput>, id: &FileId)
    ensures
        final(inputs)@.len() == old(inputs)@.len(),
        forall|k: int| 0 <= k < old(inputs)@.len() ==> failover_after_download(
            #[trigger] old(inputs)@[k],
            final(inputs)@[k],
            id@,
        ),
{
    let ghost orig = inputs@;
    let mut k: usize = 0;
    while k < inputs.len()
        invariant
            k <= inputs.len(),
            inputs@.len() == orig.len(),
            forall|m: int| 0 <= m < k ==> failover_after_download(#[trigger] orig[m], inputs@[m], id@),
            forall|m: int| k <= m < orig.len() ==> #[trigger] inputs@[m] == orig[m],
        decreases inputs.len() - k,
    {
        let mut input = inputs.remove(k);
        let ghost before = input;
        let mut e_idx: usize = 0;
        while e_idx < input.endpoints.len()
            invariant
                e_idx <= input.endpoints.len(),
                input.endpoints@.len() == before.endpoints@.len(),
                input.id == before.id,
                input.key == before.key,
                input.src == before.src,
                input.enabled == before.enabled,
                forall|m: int| 0 <= m < e_idx ==> endpoint_after_download(
                    #[trigger] before.endpoints@[m],
                    input.endpoints@[m],
                    id@,
                ),
                forall|m: int| e_idx <= m < before.endpoints@.len() ==> #[trigger] input.endpoints@[m]
                    == before.endpoints@[m],
            decreases input.endpoints.len() - e_idx,
        {
            let plays = match &input.endpoints[e_idx].file_id {
                Some(fid) => input.endpoints[e_idx].kind == InputEndpointKind::File && fid.same(id),
                None => false,
            };
            if plays {
                let mut e = input.endpoints.remove(e_idx);
                e.status = Status::Online;
                input.endpoints.insert(e_idx, e);
            }
            e_idx = e_idx + 1;
        }
        inputs.insert(k, input);
        k = k + 1;
    }
}

/// Sets online, in every restream, the file endpoints of the failover inputs
/// playing `id`.
pub fn set_file_endpoints_online(restreams: &mut Vec<Restream>, id: &FileId)
    ensures
        final(restreams)@.len() == old(restreams)@.len(),
        forall|i: int| 0 <= i < old(restreams)@.len() ==> restream_after_download(
            #[trigger] old(restreams)@[i],
            final(restreams)@[i],
            id@,
        ),
{
    let ghost orig = restreams@;
    let mut i: usize = 0;
    while i < restreams.len()
        invariant
            i <= restreams.len(),
            restreams@.len() == orig.len(),
            forall|m: int| 0 <= m < i ==> restream_after_download(#[trigger] orig[m], restreams@[m], id@),
            forall|m: int| i <= m < orig.len() ==> #[trigger] restreams@[m] == orig[m],
        decreases restreams.len() - i,
    {
        let mut r = restreams.remove(i);
        let src = r.input.src.take();
        r.input.src = match src {
            Some(InputSrc::Failover(mut inputs)) => {
                endpoints_online(&mut inputs, id);
                Some(InputSrc::Failover(inputs))
            },
            other => other,
        };
        restreams.insert(i, r);
        i = i + 1;
    }
}

/// Records the finished download of the first file with the identity `id`:
/// `current` bytes were downloaded and the file is stored on disk. The file
/// endpoints playing it go online.
pub fn finish_download(state: &mut State, id: &FileId, current: u64) -> (r: Result<(), String>)
    requires
        can_finish(files_view(old(state).files@), id@),
    ensures
        only_files_and_restreams_changed(*old(state), *final(state)),
        match first_match(files_view(old(state).files@), id@, false) {
            Some(i) => {
                &&& r is Ok
                &&& files_view(final(state).files@) == files_view(old(state).files@).update(
                    i,
                    LocalFileView {
                        download_state: Some(DownloadState {
                            current_progress: current,
                            ..files_view(old(state).files@)[i].download_state->0
                        }),
                        state: FileState::Local,
                        ..files_view(old(state).files@)[i]
                    },
                )
                &&& final(state).restreams@.len() == old(state).restreams@.len()
                &&& forall|j: int| 0 <= j < old(state).restreams@.len() ==> restream_after_download(
                    #[trigger] old(state).restreams@[j],
                    final(state).restreams@[j],
                    id@,
                )
            },
            None => {
                &&& r matches Err(e) && e@ == finish_gone_message()
                &&& final(state).files@ == old(state).files@
                &&& final(state).restreams == old(state).restreams
            },
        },
{
    match find_file(&state.files, id, false) {
        Some(i) => {
            let mut f = take_file(&mut state.files, i);
            let ds = f.download_state.unwrap();
            f.download_state = Some(DownloadState { current_progress: current, ..ds });
            f.state = FileState::Local;
            replace_file(&mut state.files, i, f);
            set_file_endpoints_online(&mut state.restreams, id);
            Ok(())
        },
        None => Err(String::from_str("File is no longer in the required files, canceling download.")),
    }
}

/// Records the failed download of the first file with the identity `id`.
/// Nothing changes if no file has that identity.
pub fn fail_download(files: &mut Vec<LocalFileInfo>, id: &FileId, err: String)
    ensures
        match first_match(files_view(old(files)@), id@, false) {
            Some(i) => files_view(final(files)@) == files_view(old(files)@).update(
                i,
                LocalFileView {
                    state: FileState::DownloadError,
                    error: Some(err@),
                    ..files_view(old(files)@)[i]
                },
            ),
            None => final(files)@ == old(files)@,
        },
{
    match find_file(files, id, false) {
        Some(i) => {
            let mut f = take_file(files, i);
            f.state = FileState::DownloadError;
            f.error = Some(err);
            replace_file(files, i, f);
        },
        None => {},
    }
}

/// How a download reply is read on, given its HTTP status.
#[derive(Clone, Copy, Debug, PartialEq, Eq, Structural)]
pub enum DownloadReply {
    /// Status 200: the body is the file.
    Body,
    /// Status 403: the body is a Google API error.
    ApiError,
    /// Any other status: the body is a text.
    Failure,
}

/// How a download reply with the given status is read on.
pub fn download_reply_kind(status: u16) -> (k: DownloadReply)
    ensures
        k == if status == 200 {
            DownloadReply::Body
        } else if status == 403 {
            DownloadReply::ApiError
        } else {
            DownloadReply::Failure
        },
{
    if status == 200 {
        DownloadReply::Body
    } else if status == 403 {
        DownloadReply::ApiError
    } else {
        DownloadReply::Failure
    }
}

/// Error of a failed Google API call that answered with an error body.
pub open spec fn api_error_message(code: u16, message: Seq<char>) -> Seq<char> {
    "Http response: "@ + decimal(code as nat) + " "@ + message
}

/// The message of a Google API error answer.
pub fn api_error(code: u16, message: &str) -> (s: String)
    ensures
        s@ == api_error_message(code, message@),
{
    let c = u64_to_decimal(code as u64);
    join4("Http response: ", c.as_str(), " ", message)
}

/// The message of a 403 download reply whose body could not be read as a
/// Google API error; `status` is the rendered HTTP status.
pub fn undecodable_error(status: &str, err: &str) -> (s: String)
    ensures
        s@ == "Status: "@ + status@ + ". Unknown error "@ + err@,
{
    join4("Status: ", status, ". Unknown error ", err)
}

/// The message of a failed download reply; `status` is the rendered HTTP
/// status and `body` the text of the reply, empty if it could not be read.
pub fn download_failure(status: &str, body: &str) -> (s: String)
    ensures
        s@ == "Can't download file. Http response: "@ + status@ + " "@ + body@,
{
    join4("Can't download file. Http response: ", status, " ", body)
}
/// Asking for a file makes it known, and asking for it again changes
/// nothing.
pub proof fn lemma_need_file_idempotent(
    fs: Seq<LocalFileView>,
    id: Seq<char>,
    name: Option<Seq<char>>,
    other_name: Option<Seq<char>>,
)
    ensures
        has_file(with_needed(fs, id, name), id),
        with_needed(with_needed(fs, id, name), id, other_name) == with_needed(fs, id, name),
{
    if !has_file(fs, id) {
        let n = fs.push(waiting_file(id, name));
        assert(n[fs.len() as int].file_id == id);
    }
}

/// After the files of `needed` were asked for, each of them is known.
pub proof fn lemma_all_needed_known(fs: Seq<LocalFileView>, needed: Seq<(Seq<char>, Option<Seq<char>>)>)
    ensures
        forall|k: int| 0 <= k < needed.len() ==> has_file(with_all_needed(fs, needed), (#[trigger] needed[k]).0),
    decreases needed.len(),
{
    if needed.len() > 0 {
        let p = needed.drop_last();
        lemma_all_needed_known(fs, p);
        let before = with_all_needed(fs, p);
        let last = needed.last();
        lemma_need_file_idempotent(before, last.0, last.1, last.1);
        assert forall|k: int| 0 <= k < needed.len() implies has_file(
            with_all_needed(fs, needed),
            (#[trigger] needed[k]).0,
        ) by {
            if k < needed.len() - 1 {
                assert(needed[k] == p[k]);
                assert(has_file(before, p[k].0));
                let i = choose|i: int| 0 <= i < before.len() && before[i].file_id == p[k].0;
                let after = with_needed(before, last.0, last.1);
                assert(after[i] == before[i]);
            }
        }
    }
}

/// Looking at the disk twice changes nothing more than looking once.
pub proof fn lemma_sync_idempotent(fs: Seq<LocalFileView>, ds: Seq<DiskEntry>)
    ensures
        synced_files(synced_files(fs, ds), ds) == synced_files(fs, ds),
{
    assert(synced_files(synced_files(fs, ds), ds) =~= synced_files(fs, ds));
}

/// Identities of the files waiting for their download, in order.
pub open spec fn waiting_ids(fs: Seq<LocalFileView>) -> Seq<Seq<char>>
    decreases fs.len(),
{
    if fs.len() == 0 {
        seq![]
    } else {
        let rest = waiting_ids(fs.drop_last());
        if fs.last().state == FileState::Waiting {
            rest.push(fs.last().file_id)
        } else {
            rest
        }
    }
}

/// The files waiting for their download, in order: those a
/// `StartDownloadFile` command is to start.
pub fn waiting_files(files: &Vec<LocalFileInfo>) -> (ids: Vec<FileId>)
    ensures
        ids@.map_values(|f: FileId| f@) == waiting_ids(files_view(files@)),
{
    let ghost fv = files_view(files@);
    let mut ids: Vec<FileId> = Vec::new();
    let mut k: usize = 0;
    while k < files.len()
        invariant
            k <= files@.len(),
            fv == files_view(files@),
            ids@.map_values(|f: FileId| f@) == waiting_ids(fv.take(k as int)),
        decreases files.len() - k,
    {
        assert(fv.take(k as int + 1).drop_last() =~= fv.take(k as int));
        let ghost before = ids@;
        if files[k].state == FileState::Waiting {
            ids.push(files[k].file_id.duplicate());
            assert(ids@.map_values(|f: FileId| f@) =~= before.map_values(|f: FileId| f@).push(fv[k as int].file_id));
        }
        k = k + 1;
    }
    assert(fv.take(files@.len() as int) =~= fv);
    ids
}

} // verus!
