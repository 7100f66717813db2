//! URLs, kept as their serializations: parsing, file URLs, schemes and
//! file system paths.

use vstd::prelude::*;

use crate::text::starts_with;

verus! {

/// Serialization of the URL that `s` parses into, if it parses.
pub uninterp spec fn parsed_url(s: Seq<char>) -> Option<Seq<char>>;

/// Parses `s` as an absolute URL with `url::Url::parse`, giving its
/// serialization (what `Url::as_str` returns), or the rendered parse error.
/// The contract only names the outcome: what the serialization looks like,
/// and the text of the error, are left to the `url` crate.
#[verifier::external_body]
pub(crate) fn parse_url(s: &str) -> (r: Result<String, String>)
    ensures
        match r {
            Ok(u) => parsed_url(s@) == Some(u@),
            Err(_) => parsed_url(s@) is None,
        },
{
    url::Url::parse(s).map(|u| u.as_str().to_string()).map_err(|e| e.to_string())
}

/// Serialization of the URL that the reference `rel` resolves to against
/// the URL `base`, if it resolves.
pub uninterp spec fn joined_url(base: Seq<char>, rel: Seq<char>) -> Option<Seq<char>>;

/// Resolves the reference `rel` against the URL `base` with `Url::join`,
/// giving the serialization of the result, or the rendered error; `base` is
/// a serialization of a parsed URL. What the result looks like is left to
/// the `url` crate.
#[verifier::external_body]
pub(crate) fn join_url(base: &str, rel: &str) -> (r: Result<String, String>)
    ensures
        match r {
            Ok(u) => joined_url(base@, rel@) == Some(u@),
            Err(_) => joined_url(base@, rel@) is None,
        },
{
    url::Url::parse(base).and_then(|b| b.join(rel)).map(|u| u.as_str().to_string()).map_err(|e| e.to_string())
}

/// Serialization of the `file` URL of an absolute path.
pub uninterp spec fn path_url(path: Seq<char>) -> Seq<char>;

/// Whether `path` is absolute on Unix.
pub open spec fn is_absolute(path: Seq<char>) -> bool {
    path.len() > 0 && path[0] == '/'
}

/// Turns a file system path into a `file` URL with `url::Url::from_file_path`,
/// giving its serialization. On Unix, the `url` crate refuses exactly the
/// paths that are not absolute, and the serialization starts with
/// `file://`; the percent-encoding of the path segments is left unsaid.
#[verifier::external_body]
pub(crate) fn file_path_url(path: &str) -> (r: Option<String>)
    ensures
        (r is Some) == is_absolute(path@),
        r matches Some(u) ==> u@ == path_url(path@) && u@.len() >= 7 && u@.subrange(0, 7) == "file://"@,
{
    url::Url::from_file_path(path).ok().map(|u| u.as_str().to_string())
}

/// Position of the first `:` of `s`, or its length if there is none.
pub open spec fn colon_pos(s: Seq<char>) -> int
    decreases s.len(),
{
    if s.len() == 0 {
        0
    } else if s[0] == ':' {
        0
    } else {
        1 + colon_pos(s.drop_first())
    }
}

/// Scheme of a serialized URL: what precedes its first `:`.
pub open spec fn scheme(url: Seq<char>) -> Seq<char> {
    url.take(colon_pos(url))
}

/// The first `:` is characterized by its position.
proof fn lemma_colon_pos(s: Seq<char>, i: int)
    requires
        0 <= i <= s.len(),
        forall|j: int| 0 <= j < i ==> s[j] != ':',
        i == s.len() || s[i] == ':',
    ensures
        colon_pos(s) == i,
    decreases s.len(),
{
    if s.len() > 0 && i > 0 {
        let t = s.drop_first();
        assert forall|j: int| 0 <= j < i - 1 implies t[j] != ':' by {
            assert(t[j] == s[j + 1]);
        }
        lemma_colon_pos(t, i - 1);
    }
}

/// The scheme of a serialized URL.
pub fn url_scheme(url: &str) -> (s: String)
    ensures
        s@ == scheme(url@),
{
    let n = url.unicode_len();
    let mut i: usize = 0;
    while i < n && url.get_char(i) != ':'
        invariant
            i <= n,
            n == url@.len(),
            forall|j: int| 0 <= j < i ==> url@[j] != ':',
        decreases n - i,
    {
        i = i + 1;
    }
    proof {
        lemma_colon_pos(url@, i as int);
    }
    String::from_str(url.substring_char(0, i))
}

/// Whether the scheme of a serialized URL is `expected`.
pub fn has_scheme(url: &str, expected: &str) -> (r: bool)
    ensures
        r == (scheme(url@) == expected@),
{
    let s = url_scheme(url);
    let e = String::from_str(expected);
    s == e
}

/// A path joined with `name` on Unix: an absolute `name` replaces the path;
/// otherwise a `/` separates them unless the path is empty or already ends
/// with one.
pub open spec fn joined_path(dir: Seq<char>, name: Seq<char>) -> Seq<char> {
    if is_absolute(name) {
        name
    } else if dir.len() == 0 || dir.last() == '/' {
        dir + name
    } else {
        dir + "/"@ + name
    }
}

/// Joins a path with a file name, as a file system path on Unix.
pub fn join_path(dir: &str, name: &str) -> (p: String)
    ensures
        p@ == joined_path(dir@, name@),
{
    proof {
        reveal_strlit("/");
    }
    let abs = starts_with(name, "/");
    proof {
        assert("/"@ =~= seq!['/']);
        if name@.len() > 0 {
            if name@[0] == '/' {
                assert(name@.subrange(0, 1) =~= "/"@);
            } else {
                assert(name@.subrange(0, 1)[0] != "/"@[0]);
            }
        }
        assert(abs == is_absolute(name@));
    }
    if abs {
        String::from_str(name)
    } else {
        let n = dir.unicode_len();
        if n == 0 || dir.get_char(n - 1) == '/' {
            let mut p = String::from_str(dir);
            p.append(name);
            p
        } else {
            let mut p = String::from_str(dir);
            p.append("/");
            p.append(name);
            p
        }
    }
}

/// Path of the URL that `url` parses into, if it parses.
pub uninterp spec fn url_path(url: Seq<char>) -> Option<Seq<char>>;

/// The path of the URL `url` with `url::Url::path`, after parsing it with
/// `Url::parse`; nothing where it does not parse. What the path is of a
/// given URL is left to the `url` crate, which resolves `.` and `..`
/// segments while parsing.
#[verifier::external_body]
pub(crate) fn path_of_url(url: &str) -> (r: Option<String>)
    ensures
        match r {
            Some(p) => url_path(url@) == Some(p@),
            None => url_path(url@) is None,
        },
{
    url::Url::parse(url).ok().map(|u| u.path().to_string())
}

/// File system path of the `file` URL that `url` parses into, if it parses
/// and is one.
pub uninterp spec fn url_file_path(url: Seq<char>) -> Option<Seq<char>>;

/// The file system path of the URL `url` with `url::Url::to_file_path`,
/// after parsing it with `Url::parse`, its percent-encoding decoded; nothing
/// where it does not parse or is no `file` URL of this host. Which path a
/// given URL gives is left to the `url` crate.
#[verifier::external_body]
pub(crate) fn file_path_of_url(url: &str) -> (r: Option<String>)
    ensures
        match r {
            Some(p) => url_file_path(url@) == Some(p@),
            None => url_file_path(url@) is None,
        },
{
    url::Url::parse(url).ok().and_then(|u| u.to_file_path().ok()).map(|p| p.to_string_lossy().into_owned())
}

/// Position of the last `c` of `s`, if any.
pub open spec fn last_index_of(s: Seq<char>, c: char) -> Option<int>
    decreases s.len(),
{
    if s.len() == 0 {
        None
    } else if s.last() == c {
        Some(s.len() - 1)
    } else {
        last_index_of(s.drop_last(), c)
    }
}

/// `p` without its trailing `/`s.
pub open spec fn trim_slashes(p: Seq<char>) -> Seq<char>
    decreases p.len(),
{
    if p.len() > 0 && p.last() == '/' {
        trim_slashes(p.drop_last())
    } else {
        p
    }
}

/// Last segment of the path `p`, trailing `/`s aside.
pub open spec fn file_name(p: Seq<char>) -> Seq<char> {
    let t = trim_slashes(p);
    match last_index_of(t, '/') {
        Some(i) => t.skip(i + 1),
        None => t,
    }
}

/// Extension of the path `p` as `std::path::Path::extension` computes it
/// for a path without `.` segments: what follows the last `.` of its last
/// segment, unless that segment is `..`, has no `.`, or has it only first.
pub open spec fn extension(p: Seq<char>) -> Option<Seq<char>> {
    let f = file_name(p);
    if f == ".."@ {
        None
    } else {
        match last_index_of(f, '.') {
            Some(i) => if i > 0 {
                Some(f.skip(i + 1))
            } else {
                None
            },
            None => None,
        }
    }
}

/// The last position of `c` in `s`, and what it is characterized by.
fn find_last(s: &str, c: char, end: usize) -> (r: Option<usize>)
    requires
        end <= s@.len(),
    ensures
        match r {
            Some(i) => last_index_of(s@.take(end as int), c) == Some(i as int) && i < end,
            None => last_index_of(s@.take(end as int), c) is None,
        },
    decreases end,
{
    if end == 0 {
        return None;
    }
    assert(s@.take(end as int).drop_last() =~= s@.take(end as int - 1));
    if s.get_char(end - 1) == c {
        Some(end - 1)
    } else {
        find_last(s, c, end - 1)
    }
}

/// Extension of the path `p` (see [`extension`]).
pub fn path_extension(p: &str) -> (r: Option<String>)
    ensures
        match r {
            Some(e) => extension(p@) == Some(e@),
            None => extension(p@) is None,
        },
{
    let n = p.unicode_len();
    let mut end: usize = n;
    assert(p@.take(n as int) =~= p@);
    while end > 0 && p.get_char(end - 1) == '/'
        invariant
            end <= n,
            n == p@.len(),
            trim_slashes(p@) == trim_slashes(p@.take(end as int)),
        decreases end,
    {
        assert(p@.take(end as int).drop_last() =~= p@.take(end as int - 1));
        end = end - 1;
    }
    let ghost t = p@.take(end as int);
    let start = match find_last(p, '/', end) {
        Some(i) => i + 1,
        None => 0,
    };
    let f = p.substring_char(start, end);
    assert(f@ =~= file_name(p@));
    proof {
        reveal_strlit("..");
    }
    if f.unicode_len() == 2 && f.get_char(0) == '.' && f.get_char(1) == '.' {
        assert(f@ =~= ".."@);
        return None;
    }
    let m = f.unicode_len();
    assert(f@.take(m as int) =~= f@);
    match find_last(f, '.', m) {
        Some(i) => if i > 0 {
            Some(String::from_str(f.substring_char(i + 1, m)))
        } else {
            None
        },
        None => None,
    }
}

/// Username of the URL that `url` parses into, if it parses.
pub uninterp spec fn url_username(url: Seq<char>) -> Option<Seq<char>>;

/// The username of the URL `url` with `url::Url::username` (empty where it
/// has none), after parsing it with `Url::parse`; nothing where it does not
/// parse.
#[verifier::external_body]
pub(crate) fn username_of_url(url: &str) -> (r: Option<String>)
    ensures
        match r {
            Some(u) => url_username(url@) == Some(u@),
            None => url_username(url@) is None,
        },
{
    url::Url::parse(url).ok().map(|u| u.username().to_string())
}

/// Password of the URL that `url` parses into, if it parses and has one.
pub uninterp spec fn url_password(url: Seq<char>) -> Option<Seq<char>>;

/// The password of the URL `url` with `url::Url::password`, after parsing
/// it with `Url::parse`; nothing where it does not parse or has none.
#[verifier::external_body]
pub(crate) fn password_of_url(url: &str) -> (r: Option<String>)
    ensures
        match r {
            Some(p) => url_password(url@) == Some(p@),
            None => url_password(url@) is None,
        },
{
    url::Url::parse(url).ok().and_then(|u| u.password().map(|p| p.to_string()))
}

/// Host of the URL that `url` parses into, if it parses and has one.
pub uninterp spec fn url_host(url: Seq<char>) -> Option<Seq<char>>;

/// The host of the URL `url` with `url::Url::host_str`, after parsing it
/// with `Url::parse`; nothing where it does not parse or has none.
#[verifier::external_body]
pub(crate) fn host_of_url(url: &str) -> (r: Option<String>)
    ensures
        match r {
            Some(h) => url_host(url@) == Some(h@),
            None => url_host(url@) is None,
        },
{
    url::Url::parse(url).ok().and_then(|u| u.host_str().map(|h| h.to_string()))
}

/// Port of the URL that `url` parses into, if it parses and has one other
/// than the default port of its scheme.
pub uninterp spec fn url_port(url: Seq<char>) -> Option<u16>;

/// The port of the URL `url` with `url::Url::port`, after parsing it with
/// `Url::parse`; nothing where it does not parse, or its port is none or
/// the default one of its scheme.
#[verifier::external_body]
pub(crate) fn port_of_url(url: &str) -> (r: Option<u16>)
    ensures
        r == url_port(url@),
{
    url::Url::parse(url).ok().and_then(|u| u.port())
}

} // verus!
