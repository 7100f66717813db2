//! Settings of the server and the passwords protecting its API: how the API
//! reads and changes them.

use vstd::prelude::*;

use crate::api_error::{is_error, ApiError, BAD_REQUEST, FORBIDDEN};
use crate::client_api::MutationsRoot;
use crate::spec::SettingsSpec;
use crate::state::{only_settings_changed, Restream, ServerInfo, Settings, State};
use crate::text::{contains, contains_text, join2, starts_with};
use vstd::utf8::encode_utf8;

verus! {

/// Which password is meant.
#[derive(Clone, Copy, Debug, PartialEq, Eq, Structural)]
pub enum PasswordKind {
    /// The password of the whole API.
    Main,
    /// The password of the single-output pages.
    Output,
}

/// Whether `password` matches the encoded Argon2 `hash`, or no answer where
/// the hash cannot be read.
pub uninterp spec fn password_verified(hash: Seq<char>, password: Seq<char>) -> Option<bool>;

/// Checks `password` against the encoded Argon2 `hash` with
/// `argon2::verify_encoded`, which decodes the hash, then hashes the
/// password with the parameters and salt read from it and compares: the
/// answer is a function of the two alone, named [`password_verified`], and
/// there is none where the hash cannot be decoded.
#[verifier::external_body]
fn verify_password(hash: &str, password: &str) -> (r: Option<bool>)
    ensures
        r == password_verified(hash@, password@),
{
    argon2::verify_encoded(hash, password.as_bytes()).ok()
}

/// Encoded Argon2 hash of `password` with `salt`.
pub uninterp spec fn password_hashed(password: Seq<char>, salt: Seq<u8>) -> Seq<char>;

/// Hashes `password` with `salt` and the default configuration with
/// `argon2::hash_encoded`, giving the encoded hash. With the default
/// configuration and a 32-byte salt the crate refuses only passwords longer
/// than `u32::MAX` bytes, which `requires` leaves out. The encoding holds
/// the parameters and the salt, so that `argon2::verify_encoded` accepts
/// the same password against it.
#[verifier::external_body]
fn hash_password(password: &str, salt: &[u8; 32]) -> (h: String)
    requires
        encode_utf8(password@).len() <= 0xffff_ffff,
    ensures
        h@ == password_hashed(password@, salt@),
        password_verified(h@, password@) == Some(true),
{
    argon2::hash_encoded(password.as_bytes(), salt, &argon2::Config::default()).unwrap()
}

/// A random salt, drawn with `rand::thread_rng`; nothing is promised of it.
#[verifier::external_body]
fn random_salt() -> (s: [u8; 32]) {
    rand::Rng::gen::<[u8; 32]>(&mut rand::thread_rng())
}

/// The hash of the password `kind` (the main one where none is given).
pub open spec fn stored_hash(s: Settings, kind: Option<PasswordKind>) -> Option<String> {
    match kind {
        Some(PasswordKind::Output) => s.password_output_hash,
        _ => s.password_hash,
    }
}

/// `new` is `old` with the hash of the password `kind` replaced by `hash`.
pub open spec fn hash_replaced(old: Settings, new: Settings, kind: Option<PasswordKind>, hash: Option<String>) -> bool {
    match kind {
        Some(PasswordKind::Output) => new == Settings { password_output_hash: hash, ..old },
        _ => new == Settings { password_hash: hash, ..old },
    }
}

/// Why a change of a password protected by `hash` is refused, given the
/// old password `old`: the code and the message; nothing where the change
/// may go on (no password set, or the old one matches).
pub open spec fn password_refusal(hash: Option<String>, old: Option<String>) -> Option<(Seq<char>, Seq<char>)> {
    match hash {
        None => None,
        Some(h) => match old {
            None => Some(("NO_OLD_PASSWORD"@, "Old password required for this action"@)),
            Some(p) => if password_verified(h@, p@) == Some(true) {
                None
            } else {
                Some(("WRONG_OLD_PASSWORD"@, "Wrong old password specified"@))
            },
        },
    }
}

/// Whether the hash protecting a change can be checked against the old
/// password given.
pub open spec fn checkable(hash: Option<String>, old: Option<String>) -> bool {
    (hash is Some && old is Some) ==> password_verified(hash->0@, old->0@) is Some
}

/// The hash of the password `kind`, copied.
fn hash_of(s: &Settings, kind: Option<PasswordKind>) -> (h: Option<String>)
    ensures
        h == stored_hash(*s, kind),
{
    match kind {
        Some(PasswordKind::Output) => s.password_output_hash.clone(),
        _ => s.password_hash.clone(),
    }
}

/// What setting the password `kind` to `new_password`, given
/// `old_password`, does to the state `old`, giving `new` and answering `r`:
/// a refusal, with the settings unchanged, where the old password is
/// missing or wrong; `false`, unchanged, where there was no password and
/// none is set; else `true`, with the hash of `kind` replaced by one that
/// the new password matches, or removed where none is given. Only the
/// settings change.
pub open spec fn password_set(
    old: State,
    new: State,
    new_password: Option<String>,
    old_password: Option<String>,
    kind: Option<PasswordKind>,
    r: Result<bool, ApiError>,
) -> bool {
    &&& only_settings_changed(old, new)
    &&& match password_refusal(stored_hash(old.settings, kind), old_password) {
        Some((code, message)) => {
            &&& r matches Err(e)
            &&& is_error(e, code, 403, message)
            &&& new.settings == old.settings
        },
        None => if stored_hash(old.settings, kind) is None && new_password is None {
            r == Ok::<bool, ApiError>(false) && new.settings == old.settings
        } else {
            &&& r == Ok::<bool, ApiError>(true)
            &&& hash_replaced(
                old.settings,
                new.settings,
                kind,
                stored_hash(new.settings, kind),
            )
            &&& match new_password {
                Some(p) => stored_hash(new.settings, kind) matches Some(h) && password_verified(
                    h@,
                    p@,
                ) == Some(true),
                None => stored_hash(new.settings, kind) is None,
            }
        },
    }
}

impl MutationsRoot {
    /// Sets the password `kind` (the main one where none is given) to
    /// `new_password`, or unsets it where none is given. Where a password is set, the
    /// old one must be given and match it. Answers `false` where there was
    /// no password and none is set, `true` otherwise.
    pub fn set_password(
        new_password: Option<String>,
        old_password: Option<String>,
        kind: Option<PasswordKind>,
        state: &mut State,
    ) -> (r: Result<bool, ApiError>)
        requires
            checkable(stored_hash(old(state).settings, kind), old_password),
            new_password matches Some(p) ==> encode_utf8(p@).len() <= 0xffff_ffff,
        ensures
            password_set(*old(state), *final(state), new_password, old_password, kind, r),
    {
        let hash = hash_of(&state.settings, kind);
        match &hash {
            Some(h) => match &old_password {
                None => {
                    return Err(
                        ApiError::new(
                            "NO_OLD_PASSWORD",
                            FORBIDDEN,
                            String::from_str("Old password required for this action"),
                        ),
                    );
                },
                Some(p) => {
                    let ok = verify_password(h.as_str(), p.as_str());
                    if ok != Some(true) {
                        return Err(
                            ApiError::new(
                                "WRONG_OLD_PASSWORD",
                                FORBIDDEN,
                                String::from_str("Wrong old password specified"),
                            ),
                        );
                    }
                },
            },
            None => {},
        }
        if hash.is_none() && new_password.is_none() {
            return Ok(false);
        }
        let new_hash = match &new_password {
            Some(p) => {
                let salt = random_salt();
                Some(hash_password(p.as_str(), &salt))
            },
            None => None,
        };
        match kind {
            Some(PasswordKind::Output) => {
                state.settings.password_output_hash = new_hash;
            },
            _ => {
                state.settings.password_hash = new_hash;
            },
        }
        Ok(true)
    }

    /// Sets the password `kind` as [`MutationsRoot::set_password`] does,
    /// where the hash protecting it can be checked; otherwise changes
    /// nothing and answers nothing.
    pub fn try_set_password(
        new_password: Option<String>,
        old_password: Option<String>,
        kind: Option<PasswordKind>,
        state: &mut State,
    ) -> (r: Option<Result<bool, ApiError>>)
        requires
            new_password matches Some(p) ==> encode_utf8(p@).len() <= 0xffff_ffff,
        ensures
            (r is Some) == checkable(stored_hash(old(state).settings, kind), old_password),
            r is None ==> *final(state) == *old(state),
            r matches Some(a) ==> password_set(*old(state), *final(state), new_password, old_password, kind, a),
    {
        let hash = hash_of(&state.settings, kind);
        match (&hash, &old_password) {
            (Some(h), Some(p)) => {
                if verify_password(h.as_str(), p.as_str()).is_none() {
                    return None;
                }
            },
            _ => {},
        }
        Some(MutationsRoot::set_password(new_password, old_password, kind, state))
    }
}

/// Most characters a title may have.
pub const MAX_TITLE_LENGTH: usize = 70;

impl MutationsRoot {
    /// Sets the settings of the server. A title (none stands for an empty
    /// one) longer than seventy characters does not pass: the answer is
    /// `false`, and nothing changes; otherwise the settings but the
    /// password hashes are replaced and the answer is `true`.
    pub fn set_settings(
        title: Option<String>,
        delete_confirmation: Option<bool>,
        enable_confirmation: Option<bool>,
        google_api_key: Option<String>,
        max_files_in_playlist: Option<u16>,
        state: &mut State,
    ) -> (r: Result<bool, ApiError>)
        ensures
            only_settings_changed(*old(state), *final(state)),
            ({
                let t = match title {
                    Some(t) => t@,
                    None => Seq::<char>::empty(),
                };
                if t.len() > 70 {
                    &&& r == Ok::<bool, ApiError>(false)
                    &&& *final(state) == *old(state)
                } else {
                    &&& r == Ok::<bool, ApiError>(true)
                    &&& final(state).settings.title matches Some(v) && v@ == t
                    &&& final(state).settings == Settings {
                        title: final(state).settings.title,
                        delete_confirmation,
                        enable_confirmation,
                        google_api_key,
                        max_files_in_playlist,
                        ..old(state).settings
                    }
                }
            }),
    {
        let value = match title {
            Some(t) => t,
            None => String::new(),
        };
        if value.as_str().unicode_len() > MAX_TITLE_LENGTH {
            return Ok(false);
        }
        state.settings.title = Some(value);
        state.settings.delete_confirmation = delete_confirmation;
        state.settings.enable_confirmation = enable_confirmation;
        state.settings.google_api_key = google_api_key;
        state.settings.max_files_in_playlist = max_files_in_playlist;
        Ok(true)
    }

    /// Checks the path of a recorded file to be removed: a path that is
    /// absolute or climbs up with `../` is refused. Removing the file from
    /// the storage follows the check.
    pub fn check_dvr_file_path(path: &str) -> (r: Result<(), ApiError>)
        ensures
            (r is Err) == ((path@.len() > 0 && path@[0] == '/') || contains_text(path@, "../"@)),
            r matches Err(e) ==> is_error(e, "INVALID_DVR_FILE_PATH"@, 400, "Invalid DVR file path: "@ + path@),
    {
        proof {
            reveal_strlit("/");
        }
        let abs = starts_with(path, "/");
        proof {
            if path@.len() > 0 && path@[0] == '/' {
                assert(path@.subrange(0, 1) =~= "/"@);
            } else if path@.len() > 0 {
                assert(path@.subrange(0, 1)[0] != "/"@[0]);
            }
        }
        if abs || contains(path, "../") {
            return Err(ApiError::new("INVALID_DVR_FILE_PATH", BAD_REQUEST, join2("Invalid DVR file path: ", path)));
        }
        Ok(())
    }
}

/// Parameters this server operates with.
#[derive(Debug)]
pub struct Info {
    /// Host this server is reachable via in public.
    pub public_host: String,
    /// Title of the server.
    pub title: Option<String>,
    /// Whether deletions need a confirmation.
    pub delete_confirmation: Option<bool>,
    /// Whether enabling and disabling need a confirmation.
    pub enable_confirmation: Option<bool>,
    /// Argon2 hash of the password protecting the API, if any.
    pub password_hash: Option<String>,
    /// Argon2 hash of the password protecting single-output pages, if any.
    pub password_output_hash: Option<String>,
    /// Google API key for file downloading.
    pub google_api_key: Option<String>,
    /// Maximum number of files in a playlist.
    pub max_files_in_playlist: Option<u16>,
}

/// `i` reports the settings `s` of a server reachable via `public_host`.
pub open spec fn info_of(i: Info, public_host: Seq<char>, s: Settings) -> bool {
    &&& i.public_host@ == public_host
    &&& i.title == s.title
    &&& i.delete_confirmation == s.delete_confirmation
    &&& i.enable_confirmation == s.enable_confirmation
    &&& i.password_hash == s.password_hash
    &&& i.password_output_hash == s.password_output_hash
    &&& i.google_api_key == s.google_api_key
    &&& i.max_files_in_playlist == s.max_files_in_playlist
}

/// Root of the client queries.
#[derive(Clone, Copy, Debug)]
pub struct QueriesRoot;

/// A copy of an optional text.
fn copy_opt(s: &Option<String>) -> (r: Option<String>)
    ensures
        r == *s,
{
    match s {
        Some(t) => Some(t.clone()),
        None => None,
    }
}

/// The settings `s` describe.
pub open spec fn settings_spec_of(s: Settings) -> SettingsSpec {
    SettingsSpec {
        password_hash: s.password_hash,
        password_output_hash: s.password_output_hash,
        title: s.title,
        delete_confirmation: s.delete_confirmation,
        enable_confirmation: s.enable_confirmation,
        google_api_key: s.google_api_key,
        max_files_in_playlist: s.max_files_in_playlist,
    }
}

/// The settings the specification `s` asks for.
pub open spec fn settings_from(s: SettingsSpec) -> Settings {
    Settings {
        password_hash: s.password_hash,
        password_output_hash: s.password_output_hash,
        title: s.title,
        delete_confirmation: s.delete_confirmation,
        enable_confirmation: s.enable_confirmation,
        google_api_key: s.google_api_key,
        max_files_in_playlist: s.max_files_in_playlist,
    }
}

impl Settings {
    /// Describes these settings, password hashes included.
    pub fn export(&self) -> (s: SettingsSpec)
        ensures
            s == settings_spec_of(*self),
    {
        SettingsSpec {
            password_hash: copy_opt(&self.password_hash),
            password_output_hash: copy_opt(&self.password_output_hash),
            title: copy_opt(&self.title),
            delete_confirmation: self.delete_confirmation,
            enable_confirmation: self.enable_confirmation,
            google_api_key: copy_opt(&self.google_api_key),
            max_files_in_playlist: self.max_files_in_playlist,
        }
    }
}

/// The settings asked for by `s`.
pub(crate) fn settings_of_spec(s: SettingsSpec) -> (r: Settings)
    ensures
        r == settings_from(s),
{
    Settings {
        password_hash: s.password_hash,
        password_output_hash: s.password_output_hash,
        title: s.title,
        delete_confirmation: s.delete_confirmation,
        enable_confirmation: s.enable_confirmation,
        google_api_key: s.google_api_key,
        max_files_in_playlist: s.max_files_in_playlist,
    }
}

impl QueriesRoot {
    /// The parameters this server operates with, reachable via
    /// `public_host`.
    pub fn info(public_host: &str, state: &State) -> (i: Info)
        ensures
            info_of(i, public_host@, state.settings),
    {
        let s = &state.settings;
        Info {
            public_host: String::from_str(public_host),
            title: copy_opt(&s.title),
            delete_confirmation: s.delete_confirmation,
            enable_confirmation: s.enable_confirmation,
            password_hash: copy_opt(&s.password_hash),
            password_output_hash: copy_opt(&s.password_output_hash),
            google_api_key: copy_opt(&s.google_api_key),
            max_files_in_playlist: s.max_files_in_playlist,
        }
    }

    /// The load of this server.
    pub fn server_info(state: &State) -> (i: &ServerInfo)
        ensures
            *i == state.server_info,
    {
        &state.server_info
    }

    /// All the re-streams of this server.
    pub fn all_restreams(state: &State) -> (r: &Vec<Restream>)
        ensures
            *r == state.restreams,
    {
        &state.restreams
    }
}

/// A password set is accepted as the old password of the next change: where
/// the hash of the password `kind` of `s` matches `password`, as it does
/// after [`MutationsRoot::set_password`] sets `password`, a change of that
/// password given `password` as the old one is not refused.
pub proof fn lemma_set_password_accepted(s: Settings, kind: Option<PasswordKind>, password: String)
    requires
        stored_hash(s, kind) matches Some(h) && password_verified(h@, password@) == Some(true),
    ensures
        password_refusal(stored_hash(s, kind), Some(password)) is None,
        checkable(stored_hash(s, kind), Some(password)),
{
}

} // verus!
