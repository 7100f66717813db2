//! Outputs of re-streams and the live streams mixed into them: how the API
//! checks, builds, adds, edits, removes, enables and tunes them.

use vstd::prelude::*;

use crate::api_error::{is_error, ApiError, BAD_REQUEST, CONFLICT};
use crate::seq_util::{first_index, lemma_first_index, lemma_first_index_same, lemma_first_index_some};
use crate::spec::{MixinSpec, OutputSpec};
use crate::client_api::{find_restream, is_restream, MutationsRoot};
use crate::ffmpeg::{find_output, is_output};
use crate::state::{only_restreams_changed, random_id, Id, Mixin, Output, Restream, State, Status, Volume};
use crate::text::{join2, join3};
use crate::url_util::{has_scheme, scheme};

verus! {

/// Most mixins an output may have.
pub const MAX_MIXINS: usize = 5;

/// Most TeamSpeak mixins an output may have.
pub const MAX_TEAMSPEAK_MIXINS: usize = 3;

/// Delay in milliseconds given to a new TeamSpeak mixin.
pub const TEAMSPEAK_DELAY: u32 = 3500;

/// Whether the URL at `j` repeats one before it.
pub open spec fn repeats_earlier(s: Seq<String>, j: int) -> bool {
    exists|i: int| 0 <= i < j && (#[trigger] s[i])@ == s[j]@
}

/// Whether a URL is a TeamSpeak one.
pub open spec fn is_teamspeak(url: Seq<char>) -> bool {
    scheme(url) == "ts"@
}

/// Number of TeamSpeak URLs in `s`.
pub open spec fn teamspeak_count(s: Seq<String>) -> nat
    decreases s.len(),
{
    if s.len() == 0 {
        0
    } else {
        (if is_teamspeak(s.last()@) {
            1nat
        } else {
            0nat
        }) + teamspeak_count(s.drop_last())
    }
}

/// How mixin URLs are checked: at most five of them, none twice (the first
/// URL that repeats an earlier one is reported), at most three TeamSpeak
/// ones.
pub open spec fn mixins_checked(s: Seq<String>, r: Result<(), ApiError>) -> bool {
    if s.len() > 5 {
        r matches Err(e) && is_error(e, "TOO_MUCH_MIXIN_URLS"@, 400, "Maximum 5 mixing URLs are allowed"@)
    } else if exists|j: int| 0 <= j < s.len() && repeats_earlier(s, j) {
        exists|j: int|
            {
                &&& 0 <= j < s.len()
                &&& repeats_earlier(s, j)
                &&& forall|k: int| 0 <= k < j ==> !repeats_earlier(s, k)
                &&& r matches Err(e)
                &&& is_error(e, "DUPLICATE_MIXIN_URL"@, 400, "Duplicate Output.mixin.src: "@ + (#[trigger] s[j])@)
            }
    } else if teamspeak_count(s) > 3 {
        r matches Err(e) && is_error(
            e,
            "TOO_MUCH_TEAMSPEAK_MIXIN_URLS"@,
            400,
            "Maximum 3 TeamSpeak URLs are allowed"@,
        )
    } else {
        r is Ok
    }
}

/// Whether mixin URLs pass the checks: at most five, none twice, at most
/// three TeamSpeak ones.
pub open spec fn mixins_ok(s: Seq<String>) -> bool {
    &&& s.len() <= 5
    &&& forall|j: int| 0 <= j < s.len() ==> !repeats_earlier(s, j)
    &&& teamspeak_count(s) <= 3
}

/// Number of TeamSpeak URLs among `mixins`.
fn count_teamspeak(mixins: &Vec<String>) -> (n: usize)
    ensures
        n == teamspeak_count(mixins@),
{
    let mut n: usize = 0;
    let mut i: usize = 0;
    while i < mixins.len()
        invariant
            i <= mixins.len(),
            n == teamspeak_count(mixins@.take(i as int)),
            n <= i,
        decreases mixins.len() - i,
    {
        assert(mixins@.take(i as int + 1).drop_last() =~= mixins@.take(i as int));
        if has_scheme(mixins[i].as_str(), "ts") {
            n = n + 1;
        }
        i = i + 1;
    }
    assert(mixins@.take(mixins.len() as int) =~= mixins@);
    n
}

/// Checks the mixin URLs of an output (see [`mixins_checked`]).
pub fn check_mixins(mixins: &Vec<String>) -> (r: Result<(), ApiError>)
    ensures
        mixins_checked(mixins@, r),
{
    if mixins.len() > MAX_MIXINS {
        return Err(ApiError::new("TOO_MUCH_MIXIN_URLS", BAD_REQUEST, String::from_str("Maximum 5 mixing URLs are allowed")));
    }
    let n = mixins.len();
    let mut j: usize = 0;
    while j < n
        invariant
            j <= n,
            n == mixins@.len(),
            n <= 5,
            forall|k: int| 0 <= k < j ==> !repeats_earlier(mixins@, k),
        decreases n - j,
    {
        let mut i: usize = 0;
        while i < j
            invariant
                i <= j < n,
                n == mixins@.len(),
                n <= 5,
                forall|k: int| 0 <= k < j ==> !repeats_earlier(mixins@, k),
                forall|k: int| 0 <= k < i ==> mixins@[k]@ != mixins@[j as int]@,
            decreases j - i,
        {
            if mixins[i] == mixins[j] {
                let m = join2("Duplicate Output.mixin.src: ", mixins[i].as_str());
                let e = ApiError::new("DUPLICATE_MIXIN_URL", BAD_REQUEST, m);
                assert(repeats_earlier(mixins@, j as int));
                assert(mixins@[i as int]@ == mixins@[j as int]@);
                return Err(e);
            }
            i = i + 1;
        }
        j = j + 1;
    }
    let ts = count_teamspeak(mixins);
    if ts > MAX_TEAMSPEAK_MIXINS {
        return Err(
            ApiError::new(
                "TOO_MUCH_TEAMSPEAK_MIXIN_URLS",
                BAD_REQUEST,
                String::from_str("Maximum 3 TeamSpeak URLs are allowed"),
            ),
        );
    }
    Ok(())
}

/// Whether the mixin `m` mixes the live stream `src`.
pub open spec fn is_mixin_src(src: Seq<char>) -> spec_fn(Mixin) -> bool {
    |m: Mixin| m.src@ == src
}

/// The first mixin of `o` that mixes `src`, if any.
pub open spec fn mixin_of(o: Output, src: Seq<char>) -> Option<Mixin> {
    match first_index(o.mixins@, is_mixin_src(src)) {
        Some(k) => Some(o.mixins@[k]),
        None => None,
    }
}

/// Volume, delay and sidechain of the mixin `src` of an output being set:
/// those of the existing output's mixin of the same source, if there is
/// one; else the original volume, no sidechain, and a delay only for a
/// TeamSpeak source.
pub open spec fn mixin_settings(src: Seq<char>, existing: Option<Output>) -> (Volume, u32, bool) {
    match (if existing is Some { mixin_of(existing->0, src) } else { None }) {
        Some(m) => (m.volume, m.delay, m.sidechain),
        None => (
            Volume { level: 100, muted: false },
            if is_teamspeak(src) {
                3500u32
            } else {
                0u32
            },
            false,
        ),
    }
}

/// `spec` is the output asked for by `set_output`: disabled, with the
/// original volume unless it edits an existing output and mixes something,
/// in which case that output's volume stays; each mixin as
/// [`mixin_settings`] says.
pub open spec fn output_spec_of(
    dst: Seq<char>,
    label: Option<String>,
    preview_url: Option<String>,
    mixins: Seq<String>,
    existing: Option<Output>,
    spec: OutputSpec,
) -> bool {
    &&& spec.id is None
    &&& spec.dst@ == dst
    &&& spec.label == label
    &&& spec.preview_url == preview_url
    &&& spec.volume == (if existing is Some && mixins.len() > 0 {
        existing->0.volume
    } else {
        Volume { level: 100, muted: false }
    })
    &&& spec.mixins@.len() == mixins.len()
    &&& forall|i: int|
        0 <= i < mixins.len() ==> {
            let m = #[trigger] spec.mixins@[i];
            &&& m.src@ == mixins[i]@
            &&& (m.volume, m.delay, m.sidechain) == mixin_settings(mixins[i]@, existing)
        }
    &&& !spec.enabled
}

/// Finds the first mixin of `o` that mixes `src`.
fn find_mixin(o: &Output, src: &String) -> (r: Option<usize>)
    ensures
        r matches Some(k) ==> k < o.mixins@.len(),
        match r {
            Some(k) => first_index(o.mixins@, is_mixin_src(src@)) == Some(k as int),
            None => first_index(o.mixins@, is_mixin_src(src@)) is None,
        },
{
    let mut k: usize = 0;
    while k < o.mixins.len()
        invariant
            k <= o.mixins@.len(),
            forall|j: int| 0 <= j < k ==> !is_mixin_src(src@)(#[trigger] o.mixins@[j]),
        decreases o.mixins.len() - k,
    {
        if o.mixins[k].src == *src {
            proof {
                lemma_first_index(o.mixins@, is_mixin_src(src@), k as int);
            }
            return Some(k);
        }
        k = k + 1;
    }
    proof {
        lemma_first_index(o.mixins@, is_mixin_src(src@), k as int);
    }
    None
}

/// Builds the output that `set_output` asks for (see [`output_spec_of`]),
/// given the output it edits, if any.
pub fn output_spec(
    dst: String,
    label: Option<String>,
    preview_url: Option<String>,
    mixins: Vec<String>,
    existing: Option<&Output>,
) -> (spec: OutputSpec)
    ensures
        output_spec_of(
            dst@,
            label,
            preview_url,
            mixins@,
            match existing {
                Some(o) => Some(*o),
                None => None,
            },
            spec,
        ),
{
    let ghost ex = match existing {
        Some(o) => Some(*o),
        None => None,
    };
    let volume = match existing {
        Some(o) => if mixins.len() > 0 {
            o.volume
        } else {
            Volume::origin()
        },
        None => Volume::origin(),
    };
    let mut specs: Vec<MixinSpec> = Vec::new();
    let mut i: usize = 0;
    while i < mixins.len()
        invariant
            i <= mixins@.len(),
            ex == match existing {
                Some(o) => Some(*o),
                None => None::<Output>,
            },
            specs@.len() == i,
            forall|j: int|
                0 <= j < i ==> {
                    let m = #[trigger] specs@[j];
                    &&& m.src@ == mixins@[j]@
                    &&& (m.volume, m.delay, m.sidechain) == mixin_settings(mixins@[j]@, ex)
                },
        decreases mixins.len() - i,
    {
        let src = &mixins[i];
        let found = match existing {
            Some(o) => match find_mixin(o, src) {
                Some(k) => Some(&o.mixins[k]),
                None => None,
            },
            None => None,
        };
        let m = match found {
            Some(old) => MixinSpec { src: src.clone(), volume: old.volume, delay: old.delay, sidechain: old.sidechain },
            None => {
                let delay = if has_scheme(src.as_str(), "ts") {
                    TEAMSPEAK_DELAY
                } else {
                    0
                };
                MixinSpec { src: src.clone(), volume: Volume::origin(), delay, sidechain: false }
            },
        };
        specs.push(m);
        i = i + 1;
    }
    OutputSpec { id: None, dst, label, preview_url, volume, mixins: specs, enabled: false }
}

/// `m` is a new mixin made after `s`.
pub open spec fn mixin_from(m: Mixin, s: MixinSpec) -> bool {
    &&& m.src@ == s.src@
    &&& m.volume == s.volume
    &&& m.delay == s.delay
    &&& m.sidechain == s.sidechain
}

/// `o` is a new output made after `s`: offline, with the identity of `s`
/// where it has one, with new mixins made after those of `s`.
pub open spec fn output_from(o: Output, s: OutputSpec) -> bool {
    &&& (s.id matches Some(id) ==> o.id == id)
    &&& o.dst@ == s.dst@
    &&& o.label == s.label
    &&& o.preview_url == s.preview_url
    &&& o.volume == s.volume
    &&& o.enabled == s.enabled
    &&& o.status == Status::Offline
    &&& o.mixins@.len() == s.mixins@.len()
    &&& forall|i: int| 0 <= i < o.mixins@.len() ==> mixin_from(#[trigger] o.mixins@[i], s.mixins@[i])
}

/// A new mixin made after `s`, with a random identifier.
pub fn new_mixin(s: MixinSpec) -> (m: Mixin)
    ensures
        mixin_from(m, s),
{
    Mixin { id: random_id(), src: s.src, volume: s.volume, delay: s.delay, sidechain: s.sidechain }
}

impl Output {
    /// A new output made after `s`, with random identifiers where `s` gives
    /// none.
    pub fn new(s: OutputSpec) -> (o: Output)
        ensures
            output_from(o, s),
    {
        let ghost s0 = s;
        let OutputSpec { id, dst, label, preview_url, volume, mixins: specs, enabled } = s;
        let id = match id {
            Some(x) => x,
            None => random_id(),
        };
        let mut specs = specs;
        let mut mixins: Vec<Mixin> = Vec::new();
        while specs.len() > 0
            invariant
                specs@ == s0.mixins@.skip(mixins@.len() as int),
                mixins@.len() <= s0.mixins@.len(),
                forall|j: int| 0 <= j < mixins@.len() ==> mixin_from(#[trigger] mixins@[j], s0.mixins@[j]),
            decreases specs.len(),
        {
            let m = specs.remove(0);
            mixins.push(new_mixin(m));
            assert(specs@ =~= s0.mixins@.skip(mixins@.len() as int));
        }
        Output { id, dst, label, preview_url, volume, mixins, enabled, status: Status::Offline }
    }
}

/// The output `oid` of the re-stream `rid` (the first of each that holds
/// the identity), if any.
pub open spec fn output_in(restreams: Seq<Restream>, rid: Id, oid: Id) -> Option<Output> {
    match first_index(restreams, is_restream(rid)) {
        Some(i) => match first_index(restreams[i].outputs@, is_output(oid)) {
            Some(k) => Some(restreams[i].outputs@[k]),
            None => None,
        },
        None => None,
    }
}

/// Whether `dst` is the destination of an output of `outs`, other than the
/// output `except` where one is given.
pub open spec fn dst_used(outs: Seq<Output>, dst: Seq<char>, except: Option<Id>) -> bool {
    exists|k: int|
        0 <= k < outs.len() && (#[trigger] outs[k]).dst@ == dst && (except matches Some(id) ==> outs[k].id != id)
}

/// Message of a destination used twice in a re-stream.
pub open spec fn dst_used_message(dst: Seq<char>) -> Seq<char> {
    "Output.dst '"@ + dst + "' is used already"@
}

/// `new` is `old` with the restream at `i` replaced by `r`, which differs
/// from the old one in its outputs only.
pub open spec fn outputs_replaced(old: Seq<Restream>, new: Seq<Restream>, i: int) -> bool {
    &&& 0 <= i < old.len()
    &&& new == old.update(i, Restream { outputs: new[i].outputs, ..old[i] })
}

/// What adding the output `spec` to the re-stream `rid` does: nothing, and
/// no result, where there is no such re-stream; an error, and nothing, where
/// one of its outputs has the destination of `spec` already; else a new
/// output made after `spec` is appended to its outputs.
pub open spec fn output_added(
    old: Seq<Restream>,
    new: Seq<Restream>,
    rid: Id,
    spec: OutputSpec,
    r: Result<Option<()>, String>,
) -> bool {
    match first_index(old, is_restream(rid)) {
        None => r == Ok::<Option<()>, String>(None) && new == old,
        Some(i) => if dst_used(old[i].outputs@, spec.dst@, None) {
            &&& r matches Err(e)
            &&& e@ == dst_used_message(spec.dst@)
            &&& new == old
        } else {
            &&& r == Ok::<Option<()>, String>(Some(()))
            &&& outputs_replaced(old, new, i)
            &&& new[i].outputs@.drop_last() == old[i].outputs@
            &&& new[i].outputs@.len() == old[i].outputs@.len() + 1
            &&& output_from(new[i].outputs@.last(), spec)
        },
    }
}

/// `new` is the output `old` set after `s`: it keeps its identity, its
/// status and whether it is enabled; each mixin is made after the one of
/// `s` and keeps the identity of the old mixin of the same source, if any.
pub open spec fn output_applied(old: Output, s: OutputSpec, new: Output) -> bool {
    &&& new.id == old.id
    &&& new.dst@ == s.dst@
    &&& new.label == s.label
    &&& new.preview_url == s.preview_url
    &&& new.volume == s.volume
    &&& new.enabled == old.enabled
    &&& new.status == old.status
    &&& new.mixins@.len() == s.mixins@.len()
    &&& forall|i: int|
        0 <= i < new.mixins@.len() ==> {
            &&& mixin_from(#[trigger] new.mixins@[i], s.mixins@[i])
            &&& (mixin_of(old, s.mixins@[i].src@) matches Some(m) ==> new.mixins@[i].id == m.id)
        }
}

/// What setting the output `oid` of the re-stream `rid` after `spec` does:
/// nothing, and no result, where there is no such re-stream or it has no
/// output `oid`; an error, and nothing, where another of its outputs has
/// the destination of `spec`; else that output is set after `spec`.
pub open spec fn output_edited(
    old: Seq<Restream>,
    new: Seq<Restream>,
    rid: Id,
    oid: Id,
    spec: OutputSpec,
    r: Result<Option<()>, String>,
) -> bool {
    match first_index(old, is_restream(rid)) {
        None => r == Ok::<Option<()>, String>(None) && new == old,
        Some(i) => match first_index(old[i].outputs@, is_output(oid)) {
            None => r == Ok::<Option<()>, String>(None) && new == old,
            Some(k) => if dst_used(old[i].outputs@, spec.dst@, Some(oid)) {
                &&& r matches Err(e)
                &&& e@ == dst_used_message(spec.dst@)
                &&& new == old
            } else {
                &&& r == Ok::<Option<()>, String>(Some(()))
                &&& outputs_replaced(old, new, i)
                &&& new[i].outputs@.len() == old[i].outputs@.len()
                &&& forall|j: int| 0 <= j < old[i].outputs@.len() && j != k ==> new[i].outputs@[j] == old[i].outputs@[j]
                &&& output_applied(old[i].outputs@[k], spec, new[i].outputs@[k])
            },
        },
    }
}

/// Finds an output of `outs` with the destination `dst`, other than the
/// output `except` where one is given.
pub(crate) fn find_dst(outs: &Vec<Output>, dst: &String, except: Option<Id>) -> (r: bool)
    ensures
        r == dst_used(outs@, dst@, except),
{
    let mut k: usize = 0;
    while k < outs.len()
        invariant
            k <= outs@.len(),
            forall|j: int|
                0 <= j < k ==> !((#[trigger] outs@[j]).dst@ == dst@ && (except matches Some(id) ==> outs@[j].id != id)),
        decreases outs.len() - k,
    {
        let other = match except {
            Some(id) => outs[k].id != id,
            None => true,
        };
        if outs[k].dst == *dst && other {
            return true;
        }
        k = k + 1;
    }
    false
}

/// A mixin of `old` set after `s`: that of the first old mixin of the same
/// source keeps its identity; otherwise it is new.
fn applied_mixin(old: &Output, s: MixinSpec) -> (m: Mixin)
    ensures
        mixin_from(m, s),
        mixin_of(*old, s.src@) matches Some(o) ==> m.id == o.id,
{
    match find_mixin(old, &s.src) {
        Some(k) => Mixin { id: old.mixins[k].id, src: s.src, volume: s.volume, delay: s.delay, sidechain: s.sidechain },
        None => new_mixin(s),
    }
}

/// The output `old` set after `s` (see [`output_applied`]).
fn applied_output(old: &Output, s: OutputSpec) -> (o: Output)
    ensures
        output_applied(*old, s, o),
{
    let ghost s0 = s;
    let OutputSpec { id: _, dst, label, preview_url, volume, mixins: specs, enabled: _ } = s;
    let mut specs = specs;
    let mut mixins: Vec<Mixin> = Vec::new();
    while specs.len() > 0
        invariant
            specs@ == s0.mixins@.skip(mixins@.len() as int),
            mixins@.len() <= s0.mixins@.len(),
            forall|j: int|
                0 <= j < mixins@.len() ==> {
                    &&& mixin_from(#[trigger] mixins@[j], s0.mixins@[j])
                    &&& (mixin_of(*old, s0.mixins@[j].src@) matches Some(m) ==> mixins@[j].id == m.id)
                },
        decreases specs.len(),
    {
        let m = specs.remove(0);
        mixins.push(applied_mixin(old, m));
        assert(specs@ =~= s0.mixins@.skip(mixins@.len() as int));
    }
    Output {
        id: old.id,
        dst,
        label,
        preview_url,
        volume,
        mixins,
        enabled: old.enabled,
        status: old.status,
    }
}

impl State {
    /// The output `output_id` of the re-stream `restream_id`, if any.
    pub fn get_output(&self, restream_id: Id, output_id: Id) -> (r: Option<&Output>)
        ensures
            match r {
                Some(o) => output_in(self.restreams@, restream_id, output_id) == Some(*o),
                None => output_in(self.restreams@, restream_id, output_id) is None,
            },
    {
        match find_restream(&self.restreams, restream_id) {
            Some(i) => match find_output(&self.restreams[i].outputs, output_id) {
                Some(k) => Some(&self.restreams[i].outputs[k]),
                None => None,
            },
            None => None,
        }
    }

    /// Adds a new output made after `spec` to the re-stream `restream_id`
    /// (see [`output_added`]).
    pub fn add_output(&mut self, restream_id: Id, spec: OutputSpec) -> (r: Result<Option<()>, String>)
        ensures
            output_added(old(self).restreams@, final(self).restreams@, restream_id, spec, r),
            only_restreams_changed(*old(self), *final(self)),
    {
        let i = match find_restream(&self.restreams, restream_id) {
            Some(i) => i,
            None => return Ok(None),
        };
        if find_dst(&self.restreams[i].outputs, &spec.dst, None) {
            return Err(join3("Output.dst '", spec.dst.as_str(), "' is used already"));
        }
        let ghost before = self.restreams@;
        let o = Output::new(spec);
        let mut r = self.restreams.remove(i);
        r.outputs.push(o);
        self.restreams.insert(i, r);
        assert(self.restreams@ =~= before.update(i as int, r));
        assert(r.outputs@.drop_last() =~= before[i as int].outputs@);
        Ok(Some(()))
    }

    /// Sets the output `id` of the re-stream `restream_id` after `spec` (see
    /// [`output_edited`]).
    pub fn edit_output(&mut self, restream_id: Id, id: Id, spec: OutputSpec) -> (r: Result<Option<()>, String>)
        ensures
            output_edited(old(self).restreams@, final(self).restreams@, restream_id, id, spec, r),
            only_restreams_changed(*old(self), *final(self)),
    {
        let i = match find_restream(&self.restreams, restream_id) {
            Some(i) => i,
            None => return Ok(None),
        };
        let k = match find_output(&self.restreams[i].outputs, id) {
            Some(k) => k,
            None => return Ok(None),
        };
        if find_dst(&self.restreams[i].outputs, &spec.dst, Some(id)) {
            return Err(join3("Output.dst '", spec.dst.as_str(), "' is used already"));
        }
        let ghost before = self.restreams@;
        let mut r = self.restreams.remove(i);
        let old_o = r.outputs.remove(k);
        let o = applied_output(&old_o, spec);
        r.outputs.insert(k, o);
        assert(r.outputs@ =~= before[i as int].outputs@.update(k as int, o));
        self.restreams.insert(i, r);
        assert(self.restreams@ =~= before.update(i as int, r));
        Ok(Some(()))
    }
}

/// The output `set_output` edits: the output `id` of the re-stream `rid`,
/// where an `id` is given and there is one.
pub open spec fn edited_output(restreams: Seq<Restream>, rid: Id, id: Option<Id>) -> Option<Output> {
    match id {
        Some(oid) => output_in(restreams, rid, oid),
        None => None,
    }
}

/// What `set_output` does with the output asked for: it sets the output
/// `id` where one is given (see [`output_edited`]), else it adds a new one
/// (see [`output_added`]).
pub open spec fn output_set(
    old: Seq<Restream>,
    new: Seq<Restream>,
    rid: Id,
    id: Option<Id>,
    spec: OutputSpec,
    r: Result<Option<()>, String>,
) -> bool {
    match id {
        Some(oid) => output_edited(old, new, rid, oid, spec, r),
        None => output_added(old, new, rid, spec, r),
    }
}

/// The answer of `set_output` to what adding or editing the output gave: a
/// duplicate destination is a conflict, reported with its message.
pub open spec fn set_output_answer(r: Result<Option<()>, String>, a: Result<Option<bool>, ApiError>) -> bool {
    match r {
        Ok(Some(_)) => a == Ok::<Option<bool>, ApiError>(Some(true)),
        Ok(None) => a == Ok::<Option<bool>, ApiError>(None),
        Err(m) => a matches Err(e) && is_error(e, "DUPLICATE_OUTPUT_URL"@, 409, m@),
    }
}

impl MutationsRoot {
    /// Sets a new output of the re-stream `restream_id`, or, where `id` is
    /// given, updates that output: the mixins are checked first (see
    /// [`mixins_checked`]); then the output asked for (see
    /// [`output_spec_of`]) is added (see [`output_added`]) or set (see
    /// [`output_edited`]). Answers `true`, or no result where the re-stream
    /// or the output does not exist.
    pub fn set_output(
        restream_id: Id,
        dst: String,
        label: Option<String>,
        preview_url: Option<String>,
        mixins: Vec<String>,
        id: Option<Id>,
        state: &mut State,
    ) -> (a: Result<Option<bool>, ApiError>)
        ensures
            only_restreams_changed(*old(state), *final(state)),
            !mixins_ok(mixins@) ==> a is Err && mixins_checked(mixins@, Err(a->Err_0)) && final(state).restreams
                == old(state).restreams,
            mixins_ok(mixins@) ==> exists|spec: OutputSpec, r: Result<Option<()>, String>|
                    {
                        &&& #[trigger] output_spec_of(
                            dst@,
                            label,
                            preview_url,
                            mixins@,
                            edited_output(old(state).restreams@, restream_id, id),
                            spec,
                        )
                        &&& output_set(old(state).restreams@, final(state).restreams@, restream_id, id, spec, r)
                        &&& #[trigger] set_output_answer(r, a)
                    },
    {
        match check_mixins(&mixins) {
            Err(e) => {
                return Err(e);
            },
            Ok(()) => {},
        }
        let ghost old_restreams = state.restreams@;
        let ghost mut sp: OutputSpec;
        let r = match id {
            Some(oid) => {
                let spec = output_spec(dst, label, preview_url, mixins, state.get_output(restream_id, oid));
                proof {
                    sp = spec;
                }
                state.edit_output(restream_id, oid, spec)
            },
            None => {
                let spec = output_spec(dst, label, preview_url, mixins, None);
                proof {
                    sp = spec;
                }
                state.add_output(restream_id, spec)
            },
        };
        let a = match r {
            Ok(Some(())) => Ok(Some(true)),
            Ok(None) => Ok(None),
            Err(m) => Err(ApiError::new("DUPLICATE_OUTPUT_URL", CONFLICT, m)),
        };
        assert(set_output_answer(r, a));
        assert(output_spec_of(dst@, label, preview_url, mixins@, edited_output(old_restreams, restream_id, id), sp));
        assert(output_set(old_restreams, state.restreams@, restream_id, id, sp, r));
        a
    }
}

/// Positions of the re-stream `rid` and of its output `oid`, if any.
pub open spec fn output_at(rs: Seq<Restream>, rid: Id, oid: Id) -> Option<(int, int)> {
    match first_index(rs, is_restream(rid)) {
        Some(i) => match first_index(rs[i].outputs@, is_output(oid)) {
            Some(k) => Some((i, k)),
            None => None,
        },
        None => None,
    }
}

/// `new` is `old` with the output at `k` of the re-stream at `i` replaced
/// by `o`.
pub open spec fn output_replaced(old: Seq<Restream>, new: Seq<Restream>, i: int, k: int, o: Output) -> bool {
    &&& outputs_replaced(old, new, i)
    &&& 0 <= k < old[i].outputs@.len()
    &&& new[i].outputs@ == old[i].outputs@.update(k, o)
}

/// Finds the re-stream `rid` and its output `oid`.
fn locate_output(rs: &Vec<Restream>, rid: Id, oid: Id) -> (r: Option<(usize, usize)>)
    ensures
        match r {
            Some((i, k)) => output_at(rs@, rid, oid) == Some((i as int, k as int)) && i < rs@.len() && k
                < rs@[i as int].outputs@.len(),
            None => output_at(rs@, rid, oid) is None,
        },
{
    match find_restream(rs, rid) {
        Some(i) => match find_output(&rs[i].outputs, oid) {
            Some(k) => Some((i, k)),
            None => None,
        },
        None => None,
    }
}

/// Replaces the output at `k` of the re-stream at `i` by what `f` makes of
/// it: taken out, then put back.
fn take_output(rs: &mut Vec<Restream>, i: usize, k: usize) -> (o: Output)
    requires
        i < old(rs)@.len(),
        k < old(rs)@[i as int].outputs@.len(),
    ensures
        o == old(rs)@[i as int].outputs@[k as int],
        outputs_replaced(old(rs)@, final(rs)@, i as int),
        final(rs)@[i as int].outputs@ == old(rs)@[i as int].outputs@.remove(k as int),
{
    let mut r = rs.remove(i);
    let o = r.outputs.remove(k);
    rs.insert(i, r);
    assert(rs@ =~= old(rs)@.update(i as int, r));
    o
}

/// Puts the output `o` back at `k` of the re-stream at `i`.
fn put_output(rs: &mut Vec<Restream>, i: usize, k: usize, o: Output)
    requires
        i < old(rs)@.len(),
        k <= old(rs)@[i as int].outputs@.len(),
    ensures
        outputs_replaced(old(rs)@, final(rs)@, i as int),
        final(rs)@[i as int].outputs@ == old(rs)@[i as int].outputs@.insert(k as int, o),
{
    let mut r = rs.remove(i);
    r.outputs.insert(k, o);
    rs.insert(i, r);
    assert(rs@ =~= old(rs)@.update(i as int, r));
}

/// What setting whether the output `oid` of the re-stream `rid` is
/// `enabled` does: whether it was not so, and the output switched in
/// place; no result, and nothing, where either does not exist.
pub open spec fn output_switched(
    old: Seq<Restream>,
    new: Seq<Restream>,
    rid: Id,
    oid: Id,
    enabled: bool,
    r: Option<bool>,
) -> bool {
    match output_at(old, rid, oid) {
        Some((i, k)) => {
            let o = old[i].outputs@[k];
            &&& r == Some(o.enabled != enabled)
            &&& output_replaced(old, new, i, k, Output { enabled, ..o })
        },
        None => r is None && new == old,
    }
}

/// Sets whether the output `oid` of the re-stream `rid` is enabled.
fn switch_output(rs: &mut Vec<Restream>, rid: Id, oid: Id, enabled: bool) -> (r: Option<bool>)
    ensures
        output_switched(old(rs)@, final(rs)@, rid, oid, enabled, r),
{
    let (i, k) = match locate_output(rs, rid, oid) {
        Some(p) => p,
        None => return None,
    };
    let ghost before = rs@;
    let mut o = take_output(rs, i, k);
    let changed = o.enabled != enabled;
    o.enabled = enabled;
    put_output(rs, i, k, o);
    assert(rs@[i as int].outputs@ =~= before[i as int].outputs@.update(k as int, o));
    assert(rs@ =~= before.update(i as int, rs@[i as int]));
    Some(changed)
}

/// Whether some output of `outs` is not `enabled`.
pub open spec fn some_switched(outs: Seq<Output>, enabled: bool) -> bool {
    exists|k: int| 0 <= k < outs.len() && (#[trigger] outs[k]).enabled != enabled
}

/// Each output of `new` is that of `old` at the same position, `enabled`.
pub open spec fn all_switched(old: Seq<Output>, new: Seq<Output>, enabled: bool) -> bool {
    new.len() == old.len() && forall|k: int| 0 <= k < old.len() ==> #[trigger] new[k] == (Output { enabled, ..old[k] })
}

/// Sets whether each output of `outs` is enabled; tells whether any was not.
fn switch_all(outs: &mut Vec<Output>, enabled: bool) -> (changed: bool)
    ensures
        changed == some_switched(old(outs)@, enabled),
        all_switched(old(outs)@, final(outs)@, enabled),
{
    let ghost before = outs@;
    let mut changed = false;
    let mut k: usize = 0;
    while k < outs.len()
        invariant
            k <= outs@.len(),
            outs@.len() == before.len(),
            changed == exists|j: int| 0 <= j < k && (#[trigger] before[j]).enabled != enabled,
            forall|j: int| 0 <= j < k ==> #[trigger] outs@[j] == (Output { enabled, ..before[j] }),
            forall|j: int| k <= j < outs@.len() ==> #[trigger] outs@[j] == before[j],
        decreases outs.len() - k,
    {
        let mut o = outs.remove(k);
        if o.enabled != enabled {
            changed = true;
        }
        o.enabled = enabled;
        outs.insert(k, o);
        k = k + 1;
    }
    changed
}

impl State {
    /// Removes the output `id` of the re-stream `restream_id`; no result
    /// where either does not exist.
    pub fn remove_output(&mut self, id: Id, restream_id: Id) -> (r: Option<()>)
        ensures
            match output_at(old(self).restreams@, restream_id, id) {
                Some((i, k)) => {
                    &&& r is Some
                    &&& outputs_replaced(old(self).restreams@, final(self).restreams@, i)
                    &&& final(self).restreams@[i].outputs@ == old(self).restreams@[i].outputs@.remove(k)
                },
                None => r is None && final(self).restreams == old(self).restreams,
            },
            only_restreams_changed(*old(self), *final(self)),
    {
        match locate_output(&self.restreams, restream_id, id) {
            Some((i, k)) => {
                let _ = take_output(&mut self.restreams, i, k);
                Some(())
            },
            None => None,
        }
    }

    /// Enables the output `id` of the re-stream `restream_id`: whether it
    /// was disabled, or no result where either does not exist.
    pub fn enable_output(&mut self, id: Id, restream_id: Id) -> (r: Option<bool>)
        ensures
            output_switched(old(self).restreams@, final(self).restreams@, restream_id, id, true, r),
            only_restreams_changed(*old(self), *final(self)),
    {
        switch_output(&mut self.restreams, restream_id, id, true)
    }

    /// Disables the output `id` of the re-stream `restream_id`: whether it
    /// was enabled, or no result where either does not exist.
    pub fn disable_output(&mut self, id: Id, restream_id: Id) -> (r: Option<bool>)
        ensures
            output_switched(old(self).restreams@, final(self).restreams@, restream_id, id, false, r),
            only_restreams_changed(*old(self), *final(self)),
    {
        switch_output(&mut self.restreams, restream_id, id, false)
    }

    /// Sets whether all outputs of the re-stream `restream_id` are enabled:
    /// whether any was not, or no result where it does not exist.
    fn switch_all_outputs(&mut self, restream_id: Id, enabled: bool) -> (r: Option<bool>)
        ensures
            match first_index(old(self).restreams@, is_restream(restream_id)) {
                Some(i) => {
                    &&& r == Some(some_switched(old(self).restreams@[i].outputs@, enabled))
                    &&& outputs_replaced(old(self).restreams@, final(self).restreams@, i)
                    &&& all_switched(old(self).restreams@[i].outputs@, final(self).restreams@[i].outputs@, enabled)
                },
                None => r is None && final(self).restreams == old(self).restreams,
            },
            only_restreams_changed(*old(self), *final(self)),
    {
        let i = match find_restream(&self.restreams, restream_id) {
            Some(i) => i,
            None => return None,
        };
        let ghost before = self.restreams@;
        let mut r = self.restreams.remove(i);
        let changed = switch_all(&mut r.outputs, enabled);
        self.restreams.insert(i, r);
        assert(self.restreams@ =~= before.update(i as int, r));
        Some(changed)
    }

    /// Enables all outputs of the re-stream `restream_id`: whether any was
    /// disabled, or no result where it does not exist.
    pub fn enable_all_outputs(&mut self, restream_id: Id) -> (r: Option<bool>)
        ensures
            match first_index(old(self).restreams@, is_restream(restream_id)) {
                Some(i) => {
                    &&& r == Some(some_switched(old(self).restreams@[i].outputs@, true))
                    &&& outputs_replaced(old(self).restreams@, final(self).restreams@, i)
                    &&& all_switched(old(self).restreams@[i].outputs@, final(self).restreams@[i].outputs@, true)
                },
                None => r is None && final(self).restreams == old(self).restreams,
            },
            only_restreams_changed(*old(self), *final(self)),
    {
        self.switch_all_outputs(restream_id, true)
    }

    /// Disables all outputs of the re-stream `restream_id`: whether any was
    /// enabled, or no result where it does not exist.
    pub fn disable_all_outputs(&mut self, restream_id: Id) -> (r: Option<bool>)
        ensures
            match first_index(old(self).restreams@, is_restream(restream_id)) {
                Some(i) => {
                    &&& r == Some(some_switched(old(self).restreams@[i].outputs@, false))
                    &&& outputs_replaced(old(self).restreams@, final(self).restreams@, i)
                    &&& all_switched(old(self).restreams@[i].outputs@, final(self).restreams@[i].outputs@, false)
                },
                None => r is None && final(self).restreams == old(self).restreams,
            },
            only_restreams_changed(*old(self), *final(self)),
    {
        self.switch_all_outputs(restream_id, false)
    }
}

/// Whether the mixin `m` has the identity `id`.
pub open spec fn is_mixin(id: Id) -> spec_fn(Mixin) -> bool {
    |m: Mixin| m.id == id
}

/// Finds the first mixin `id` of `o`.
fn find_mixin_id(o: &Output, id: Id) -> (r: Option<usize>)
    ensures
        r matches Some(m) ==> m < o.mixins@.len(),
        match r {
            Some(m) => first_index(o.mixins@, is_mixin(id)) == Some(m as int),
            None => first_index(o.mixins@, is_mixin(id)) is None,
        },
{
    let mut m: usize = 0;
    while m < o.mixins.len()
        invariant
            m <= o.mixins@.len(),
            forall|j: int| 0 <= j < m ==> !is_mixin(id)(#[trigger] o.mixins@[j]),
        decreases o.mixins.len() - m,
    {
        if o.mixins[m].id == id {
            proof {
                lemma_first_index(o.mixins@, is_mixin(id), m as int);
            }
            return Some(m);
        }
        m = m + 1;
    }
    proof {
        lemma_first_index(o.mixins@, is_mixin(id), m as int);
    }
    None
}

/// What is tuned in a mixin.
#[derive(Clone, Copy, Debug, PartialEq, Eq, Structural)]
pub enum Tuning {
    /// Its volume.
    Volume(Volume),
    /// Its delay in milliseconds.
    Delay(u32),
    /// Whether sidechain compression is applied.
    Sidechain(bool),
}

/// The mixin `m` tuned.
pub open spec fn tuned(m: Mixin, t: Tuning) -> Mixin {
    match t {
        Tuning::Volume(v) => Mixin { volume: v, ..m },
        Tuning::Delay(d) => Mixin { delay: d, ..m },
        Tuning::Sidechain(s) => Mixin { sidechain: s, ..m },
    }
}

/// What tuning the mixin `mid` of the output `o` gives: whether it changes
/// the mixin, and the output with that mixin tuned; no result, and the
/// output as it is, where there is no such mixin.
pub open spec fn mixin_tuned(o: Output, mid: Id, t: Tuning, r: Option<bool>, new: Output) -> bool {
    match first_index(o.mixins@, is_mixin(mid)) {
        Some(m) => {
            &&& r == Some(tuned(o.mixins@[m], t) != o.mixins@[m])
            &&& new == Output { mixins: new.mixins, ..o }
            &&& new.mixins@ == o.mixins@.update(m, tuned(o.mixins@[m], t))
        },
        None => r is None && new == o,
    }
}

impl Output {
    /// Tunes the mixin `mid` of this output (see [`mixin_tuned`]).
    pub fn tune_mixin(&mut self, mid: Id, t: Tuning) -> (r: Option<bool>)
        ensures
            mixin_tuned(*old(self), mid, t, r, *final(self)),
    {
        let m = match find_mixin_id(self, mid) {
            Some(m) => m,
            None => return None,
        };
        let ghost before = self.mixins@;
        let mut x = self.mixins.remove(m);
        let changed = match t {
            Tuning::Volume(v) => x.volume != v,
            Tuning::Delay(d) => x.delay != d,
            Tuning::Sidechain(s) => x.sidechain != s,
        };
        match t {
            Tuning::Volume(v) => {
                x.volume = v;
            },
            Tuning::Delay(d) => {
                x.delay = d;
            },
            Tuning::Sidechain(s) => {
                x.sidechain = s;
            },
        }
        self.mixins.insert(m, x);
        assert(self.mixins@ =~= before.update(m as int, x));
        Some(changed)
    }
}

/// What tuning the volume of the output `oid` of the re-stream `rid`, or of
/// its mixin `mixin_id` where one is given, does: whether it changes, and
/// the new volume in place; no result, and nothing, where one of them does
/// not exist.
pub open spec fn volume_tuned(
    old: Seq<Restream>,
    new: Seq<Restream>,
    rid: Id,
    oid: Id,
    mixin_id: Option<Id>,
    volume: Volume,
    r: Option<bool>,
) -> bool {
    match output_at(old, rid, oid) {
        Some((i, k)) => {
            let o = old[i].outputs@[k];
            match mixin_id {
                None => r == Some(o.volume != volume) && output_replaced(old, new, i, k, Output { volume, ..o }),
                Some(mid) => if first_index(o.mixins@, is_mixin(mid)) is Some {
                    &&& output_replaced(old, new, i, k, new[i].outputs@[k])
                    &&& mixin_tuned(o, mid, Tuning::Volume(volume), r, new[i].outputs@[k])
                } else {
                    r is None && new == old
                },
            }
        },
        None => r is None && new == old,
    }
}

/// What tuning the mixin `mid` of the output `oid` of the re-stream `rid`
/// does: see [`mixin_tuned`]; no result, and nothing, where one of them
/// does not exist.
pub open spec fn mixin_tuned_in(
    old: Seq<Restream>,
    new: Seq<Restream>,
    rid: Id,
    oid: Id,
    mid: Id,
    t: Tuning,
    r: Option<bool>,
) -> bool {
    match output_at(old, rid, oid) {
        Some((i, k)) => if first_index(old[i].outputs@[k].mixins@, is_mixin(mid)) is Some {
            &&& output_replaced(old, new, i, k, new[i].outputs@[k])
            &&& mixin_tuned(old[i].outputs@[k], mid, t, r, new[i].outputs@[k])
        } else {
            r is None && new == old
        },
        None => r is None && new == old,
    }
}

/// Tunes the mixin `mid` of the output `oid` of the re-stream `rid`.
fn tune_in(rs: &mut Vec<Restream>, rid: Id, oid: Id, mid: Id, t: Tuning) -> (r: Option<bool>)
    ensures
        mixin_tuned_in(old(rs)@, final(rs)@, rid, oid, mid, t, r),
{
    let (i, k) = match locate_output(rs, rid, oid) {
        Some(p) => p,
        None => return None,
    };
    if find_mixin_id(&rs[i].outputs[k], mid).is_none() {
        return None;
    }
    let ghost before = rs@;
    let mut o = take_output(rs, i, k);
    let r = o.tune_mixin(mid, t);
    put_output(rs, i, k, o);
    assert(rs@[i as int].outputs@ =~= before[i as int].outputs@.update(k as int, o));
    assert(rs@ =~= before.update(i as int, rs@[i as int]));
    r
}

/// Every output of every re-stream of `new` is that of `old`, `enabled`.
pub open spec fn all_restreams_switched(old: Seq<Restream>, new: Seq<Restream>, enabled: bool) -> bool {
    &&& new.len() == old.len()
    &&& forall|i: int|
        0 <= i < old.len() ==> {
            &&& #[trigger] new[i] == Restream { outputs: new[i].outputs, ..old[i] }
            &&& all_switched(old[i].outputs@, new[i].outputs@, enabled)
        }
}

/// Whether some output of some re-stream is not `enabled`.
pub open spec fn some_restream_switched(rs: Seq<Restream>, enabled: bool) -> bool {
    exists|i: int| 0 <= i < rs.len() && some_switched((#[trigger] rs[i]).outputs@, enabled)
}

/// Sets whether every output of every re-stream is enabled; tells whether
/// any was not.
fn switch_everything(rs: &mut Vec<Restream>, enabled: bool) -> (changed: bool)
    ensures
        changed == some_restream_switched(old(rs)@, enabled),
        all_restreams_switched(old(rs)@, final(rs)@, enabled),
{
    let ghost before = rs@;
    let mut changed = false;
    let mut i: usize = 0;
    while i < rs.len()
        invariant
            i <= rs@.len(),
            rs@.len() == before.len(),
            changed == exists|j: int| 0 <= j < i && some_switched((#[trigger] before[j]).outputs@, enabled),
            forall|j: int|
                0 <= j < i ==> {
                    &&& #[trigger] rs@[j] == Restream { outputs: rs@[j].outputs, ..before[j] }
                    &&& all_switched(before[j].outputs@, rs@[j].outputs@, enabled)
                },
            forall|j: int| i <= j < rs@.len() ==> #[trigger] rs@[j] == before[j],
        decreases rs.len() - i,
    {
        let mut r = rs.remove(i);
        let c = switch_all(&mut r.outputs, enabled);
        if c {
            changed = true;
        }
        rs.insert(i, r);
        i = i + 1;
    }
    changed
}

impl State {
    /// Enables every output of every re-stream: whether any was disabled.
    pub fn enable_all_outputs_of_restreams(&mut self) -> (r: bool)
        ensures
            r == some_restream_switched(old(self).restreams@, true),
            all_restreams_switched(old(self).restreams@, final(self).restreams@, true),
            only_restreams_changed(*old(self), *final(self)),
    {
        switch_everything(&mut self.restreams, true)
    }

    /// Disables every output of every re-stream: whether any was enabled.
    pub fn disable_all_outputs_of_restreams(&mut self) -> (r: bool)
        ensures
            r == some_restream_switched(old(self).restreams@, false),
            all_restreams_switched(old(self).restreams@, final(self).restreams@, false),
            only_restreams_changed(*old(self), *final(self)),
    {
        switch_everything(&mut self.restreams, false)
    }

    /// Tunes the volume of the output `output_id` of the re-stream
    /// `restream_id`, or of its mixin `mixin_id` where one is given (see
    /// [`volume_tuned`]).
    pub fn tune_volume(&mut self, restream_id: Id, output_id: Id, mixin_id: Option<Id>, volume: Volume) -> (r: Option<
        bool,
    >)
        ensures
            volume_tuned(old(self).restreams@, final(self).restreams@, restream_id, output_id, mixin_id, volume, r),
            only_restreams_changed(*old(self), *final(self)),
    {
        match mixin_id {
            Some(mid) => tune_in(&mut self.restreams, restream_id, output_id, mid, Tuning::Volume(volume)),
            None => {
                let (i, k) = match locate_output(&self.restreams, restream_id, output_id) {
                    Some(p) => p,
                    None => return None,
                };
                let ghost before = self.restreams@;
                let mut o = take_output(&mut self.restreams, i, k);
                let changed = o.volume != volume;
                o.volume = volume;
                put_output(&mut self.restreams, i, k, o);
                assert(self.restreams@[i as int].outputs@ =~= before[i as int].outputs@.update(k as int, o));
                assert(self.restreams@ =~= before.update(i as int, self.restreams@[i as int]));
                Some(changed)
            },
        }
    }

    /// Tunes the delay of the mixin `mixin_id` of the output `output_id` of
    /// the re-stream `restream_id` (see [`mixin_tuned_in`]).
    pub fn tune_delay(&mut self, restream_id: Id, output_id: Id, mixin_id: Id, delay: u32) -> (r: Option<bool>)
        ensures
            mixin_tuned_in(
                old(self).restreams@,
                final(self).restreams@,
                restream_id,
                output_id,
                mixin_id,
                Tuning::Delay(delay),
                r,
            ),
            only_restreams_changed(*old(self), *final(self)),
    {
        tune_in(&mut self.restreams, restream_id, output_id, mixin_id, Tuning::Delay(delay))
    }

    /// Tunes the sidechain of the mixin `mixin_id` of the output `output_id`
    /// of the re-stream `restream_id` (see [`mixin_tuned_in`]).
    pub fn tune_sidechain(&mut self, restream_id: Id, output_id: Id, mixin_id: Id, sidechain: bool) -> (r: Option<
        bool,
    >)
        ensures
            mixin_tuned_in(
                old(self).restreams@,
                final(self).restreams@,
                restream_id,
                output_id,
                mixin_id,
                Tuning::Sidechain(sidechain),
                r,
            ),
            only_restreams_changed(*old(self), *final(self)),
    {
        tune_in(&mut self.restreams, restream_id, output_id, mixin_id, Tuning::Sidechain(sidechain))
    }
}

impl MutationsRoot {
    /// Removes the output `id` of the re-stream `restream_id`: `true`, or no
    /// result where either does not exist.
    pub fn remove_output(id: Id, restream_id: Id, state: &mut State) -> (a: Option<bool>)
        ensures
            match output_at(old(state).restreams@, restream_id, id) {
                Some((i, k)) => {
                    &&& a == Some(true)
                    &&& outputs_replaced(old(state).restreams@, final(state).restreams@, i)
                    &&& final(state).restreams@[i].outputs@ == old(state).restreams@[i].outputs@.remove(k)
                },
                None => a is None && final(state).restreams == old(state).restreams,
            },
            only_restreams_changed(*old(state), *final(state)),
    {
        match state.remove_output(id, restream_id) {
            Some(()) => Some(true),
            None => None,
        }
    }

    /// Enables the output `id` of the re-stream `restream_id` (see
    /// [`State::enable_output`]).
    pub fn enable_output(id: Id, restream_id: Id, state: &mut State) -> (a: Option<bool>)
        ensures
            output_switched(old(state).restreams@, final(state).restreams@, restream_id, id, true, a),
            only_restreams_changed(*old(state), *final(state)),
    {
        state.enable_output(id, restream_id)
    }

    /// Disables the output `id` of the re-stream `restream_id` (see
    /// [`State::disable_output`]).
    pub fn disable_output(id: Id, restream_id: Id, state: &mut State) -> (a: Option<bool>)
        ensures
            output_switched(old(state).restreams@, final(state).restreams@, restream_id, id, false, a),
            only_restreams_changed(*old(state), *final(state)),
    {
        state.disable_output(id, restream_id)
    }

    /// Enables all outputs of the re-stream `restream_id` (see
    /// [`State::enable_all_outputs`]).
    pub fn enable_all_outputs(restream_id: Id, state: &mut State) -> (a: Option<bool>)
        ensures
            match first_index(old(state).restreams@, is_restream(restream_id)) {
                Some(i) => {
                    &&& a == Some(some_switched(old(state).restreams@[i].outputs@, true))
                    &&& outputs_replaced(old(state).restreams@, final(state).restreams@, i)
                    &&& all_switched(old(state).restreams@[i].outputs@, final(state).restreams@[i].outputs@, true)
                },
                None => a is None && final(state).restreams == old(state).restreams,
            },
            only_restreams_changed(*old(state), *final(state)),
    {
        state.enable_all_outputs(restream_id)
    }

    /// Disables all outputs of the re-stream `restream_id` (see
    /// [`State::disable_all_outputs`]).
    pub fn disable_all_outputs(restream_id: Id, state: &mut State) -> (a: Option<bool>)
        ensures
            match first_index(old(state).restreams@, is_restream(restream_id)) {
                Some(i) => {
                    &&& a == Some(some_switched(old(state).restreams@[i].outputs@, false))
                    &&& outputs_replaced(old(state).restreams@, final(state).restreams@, i)
                    &&& all_switched(old(state).restreams@[i].outputs@, final(state).restreams@[i].outputs@, false)
                },
                None => a is None && final(state).restreams == old(state).restreams,
            },
            only_restreams_changed(*old(state), *final(state)),
    {
        state.disable_all_outputs(restream_id)
    }

    /// Disables every output of every re-stream: whether any was enabled.
    pub fn disable_all_outputs_of_restreams(state: &mut State) -> (a: bool)
        ensures
            a == some_restream_switched(old(state).restreams@, false),
            all_restreams_switched(old(state).restreams@, final(state).restreams@, false),
            only_restreams_changed(*old(state), *final(state)),
    {
        state.disable_all_outputs_of_restreams()
    }

    /// Enables every output of every re-stream: whether any was disabled.
    pub fn enables_all_outputs_of_restreams(state: &mut State) -> (a: bool)
        ensures
            a == some_restream_switched(old(state).restreams@, true),
            all_restreams_switched(old(state).restreams@, final(state).restreams@, true),
            only_restreams_changed(*old(state), *final(state)),
    {
        state.enable_all_outputs_of_restreams()
    }

    /// Tunes the volume of an output or of one of its mixins (see
    /// [`volume_tuned`]).
    pub fn tune_volume(
        restream_id: Id,
        output_id: Id,
        mixin_id: Option<Id>,
        level: u16,
        muted: bool,
        state: &mut State,
    ) -> (a: Option<bool>)
        ensures
            volume_tuned(
                old(state).restreams@,
                final(state).restreams@,
                restream_id,
                output_id,
                mixin_id,
                Volume { level, muted },
                a,
            ),
            only_restreams_changed(*old(state), *final(state)),
    {
        state.tune_volume(restream_id, output_id, mixin_id, Volume { level, muted })
    }

    /// Tunes the delay of a mixin (see [`mixin_tuned_in`]).
    pub fn tune_delay(restream_id: Id, output_id: Id, mixin_id: Id, delay: u32, state: &mut State) -> (a: Option<
        bool,
    >)
        ensures
            mixin_tuned_in(
                old(state).restreams@,
                final(state).restreams@,
                restream_id,
                output_id,
                mixin_id,
                Tuning::Delay(delay),
                a,
            ),
            only_restreams_changed(*old(state), *final(state)),
    {
        state.tune_delay(restream_id, output_id, mixin_id, delay)
    }

    /// Tunes whether sidechain compression is applied to a mixin (see
    /// [`mixin_tuned_in`]).
    pub fn tune_sidechain(
        restream_id: Id,
        output_id: Id,
        mixin_id: Id,
        sidechain: bool,
        state: &mut State,
    ) -> (a: Option<bool>)
        ensures
            mixin_tuned_in(
                old(state).restreams@,
                final(state).restreams@,
                restream_id,
                output_id,
                mixin_id,
                Tuning::Sidechain(sidechain),
                a,
            ),
            only_restreams_changed(*old(state), *final(state)),
    {
        state.tune_sidechain(restream_id, output_id, mixin_id, sidechain)
    }
}

/// Root of the mutations of the single-output application.
#[derive(Clone, Copy, Debug)]
pub struct MutationsRootMix;

impl MutationsRootMix {
    /// Tunes the volume of an output or of one of its mixins (see
    /// [`volume_tuned`]).
    pub fn tune_volume(
        restream_id: Id,
        output_id: Id,
        mixin_id: Option<Id>,
        volume: Volume,
        state: &mut State,
    ) -> (a: Option<bool>)
        ensures
            volume_tuned(old(state).restreams@, final(state).restreams@, restream_id, output_id, mixin_id, volume, a),
            only_restreams_changed(*old(state), *final(state)),
    {
        state.tune_volume(restream_id, output_id, mixin_id, volume)
    }

    /// Tunes the delay of a mixin (see [`mixin_tuned_in`]).
    pub fn tune_delay(restream_id: Id, output_id: Id, mixin_id: Id, delay: u32, state: &mut State) -> (a: Option<
        bool,
    >)
        ensures
            mixin_tuned_in(
                old(state).restreams@,
                final(state).restreams@,
                restream_id,
                output_id,
                mixin_id,
                Tuning::Delay(delay),
                a,
            ),
            only_restreams_changed(*old(state), *final(state)),
    {
        state.tune_delay(restream_id, output_id, mixin_id, delay)
    }
}

/// Root of the queries of the single-output application.
#[derive(Clone, Copy, Debug)]
pub struct QueriesRootMix;

impl QueriesRootMix {
    /// The output `output_id` of the re-stream `restream_id`, if any.
    pub fn output(restream_id: Id, output_id: Id, state: &State) -> (r: Option<&Output>)
        ensures
            match r {
                Some(o) => output_in(state.restreams@, restream_id, output_id) == Some(*o),
                None => output_in(state.restreams@, restream_id, output_id) is None,
            },
    {
        state.get_output(restream_id, output_id)
    }
}

/// Root of the subscriptions of the single-output application: each method
/// gives what an update of its subscription carries, as the state stands.
#[derive(Clone, Copy, Debug)]
pub struct SubscriptionsRootMix;

impl SubscriptionsRootMix {
    /// The title of this server.
    pub fn title(state: &State) -> (r: &Option<String>)
        ensures
            *r == state.settings.title,
    {
        &state.settings.title
    }

    /// The output `output_id` of the re-stream `restream_id`, which must
    /// exist.
    pub fn output(restream_id: Id, output_id: Id, state: &State) -> (r: &Output)
        requires
            output_in(state.restreams@, restream_id, output_id) is Some,
        ensures
            output_in(state.restreams@, restream_id, output_id) == Some(*r),
    {
        state.get_output(restream_id, output_id).unwrap()
    }
}

/// Replacing an output by one of the same identity leaves where the
/// re-stream and the output stand.
pub proof fn lemma_output_at_kept(s0: Seq<Restream>, s1: Seq<Restream>, rid: Id, oid: Id, o: Output)
    requires
        output_at(s0, rid, oid) matches Some((i, k)) && output_replaced(s0, s1, i, k, o) && o.id == s0[i].outputs@[k].id,
    ensures
        output_at(s1, rid, oid) == output_at(s0, rid, oid),
{
    let (i, k) = output_at(s0, rid, oid)->0;
    lemma_first_index_same(s0, is_restream(rid), s1, is_restream(rid));
    lemma_first_index_same(s0[i].outputs@, is_output(oid), s1[i].outputs@, is_output(oid));
}

/// Enabling or disabling an output a second time finds it so already: the
/// second time answers `false`, where the output exists.
pub proof fn lemma_switch_output_twice(
    s0: Seq<Restream>,
    s1: Seq<Restream>,
    s2: Seq<Restream>,
    rid: Id,
    oid: Id,
    enabled: bool,
    r1: Option<bool>,
    r2: Option<bool>,
)
    requires
        output_switched(s0, s1, rid, oid, enabled, r1),
        output_switched(s1, s2, rid, oid, enabled, r2),
    ensures
        r1 is Some ==> r2 == Some(false),
        r1 is None ==> r2 is None,
{
    match output_at(s0, rid, oid) {
        Some((i, k)) => {
            let o = s0[i].outputs@[k];
            lemma_output_at_kept(s0, s1, rid, oid, Output { enabled, ..o });
            assert(s1[i].outputs@[k] == Output { enabled, ..o });
        },
        None => {},
    }
}

/// Tuning the volume of an output, or of one of its mixins, a second time
/// to the same volume finds it so already: the second time answers `false`,
/// where the output (and the mixin) exist.
pub proof fn lemma_tune_volume_twice(
    s0: Seq<Restream>,
    s1: Seq<Restream>,
    s2: Seq<Restream>,
    rid: Id,
    oid: Id,
    mixin_id: Option<Id>,
    volume: Volume,
    r1: Option<bool>,
    r2: Option<bool>,
)
    requires
        volume_tuned(s0, s1, rid, oid, mixin_id, volume, r1),
        volume_tuned(s1, s2, rid, oid, mixin_id, volume, r2),
    ensures
        r1 is Some ==> r2 == Some(false),
        r1 is None ==> r2 is None,
{
    match output_at(s0, rid, oid) {
        Some((i, k)) => {
            let o = s0[i].outputs@[k];
            match mixin_id {
                None => {
                    lemma_output_at_kept(s0, s1, rid, oid, Output { volume, ..o });
                },
                Some(mid) => {
                    if first_index(o.mixins@, is_mixin(mid)) is Some {
                        let o1 = s1[i].outputs@[k];
                        lemma_output_at_kept(s0, s1, rid, oid, o1);
                        let m = first_index(o.mixins@, is_mixin(mid))->0;
                        lemma_first_index_some(o.mixins@, is_mixin(mid));
                        lemma_first_index_same(o.mixins@, is_mixin(mid), o1.mixins@, is_mixin(mid));
                        assert(o1.mixins@[m] == tuned(o.mixins@[m], Tuning::Volume(volume)));
                    }
                },
            }
        },
        None => {},
    }
}

/// Tuning a mixin a second time to the same value (its volume, delay or
/// sidechain) finds it so already: the second time answers `false`, where
/// the output and the mixin exist.
pub proof fn lemma_tune_mixin_twice(
    s0: Seq<Restream>,
    s1: Seq<Restream>,
    s2: Seq<Restream>,
    rid: Id,
    oid: Id,
    mid: Id,
    t: Tuning,
    r1: Option<bool>,
    r2: Option<bool>,
)
    requires
        mixin_tuned_in(s0, s1, rid, oid, mid, t, r1),
        mixin_tuned_in(s1, s2, rid, oid, mid, t, r2),
    ensures
        r1 is Some ==> r2 == Some(false),
        r1 is None ==> r2 is None,
{
    match output_at(s0, rid, oid) {
        Some((i, k)) => {
            let o = s0[i].outputs@[k];
            if first_index(o.mixins@, is_mixin(mid)) is Some {
                let o1 = s1[i].outputs@[k];
                lemma_output_at_kept(s0, s1, rid, oid, o1);
                let m = first_index(o.mixins@, is_mixin(mid))->0;
                lemma_first_index_some(o.mixins@, is_mixin(mid));
                lemma_first_index_same(o.mixins@, is_mixin(mid), o1.mixins@, is_mixin(mid));
                assert(o1.mixins@[m] == tuned(o.mixins@[m], t));
                assert(tuned(o1.mixins@[m], t) == o1.mixins@[m]);
            }
        },
        None => {},
    }
}

} // verus!
