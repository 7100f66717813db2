//! Setting an existing main input after a specification: what matches the
//! input as it is keeps its identity and state, so that setting it again
//! after the same specification changes nothing.

use vstd::prelude::*;

use crate::seq_util::{count_before, is_nth, lemma_count_bounded, lemma_count_same, lemma_nth_index, nth_index};
use crate::spec::{FailoverInputSpec, InputEndpointSpec, InputSpec, InputSrcSpec};
use crate::state::{random_id, FailoverInput, Input, InputEndpoint, InputEndpointKind, InputSrc, Status};

verus! {

broadcast use vstd::seq_lib::group_seq_properties;

/// Whether the endpoint `e` is of the kind `kind`.
pub open spec fn of_kind(kind: InputEndpointKind) -> spec_fn(InputEndpoint) -> bool {
    |e: InputEndpoint| e.kind == kind
}

/// Whether the backup input `i` has the key `key`.
pub open spec fn has_backup_key(key: Seq<char>) -> spec_fn(FailoverInput) -> bool {
    |i: FailoverInput| i.key@ == key
}

/// Whether the endpoint asked for by `s` is of the kind `kind`.
pub open spec fn spec_of_kind(kind: InputEndpointKind) -> spec_fn(InputEndpointSpec) -> bool {
    |s: InputEndpointSpec| s.kind == kind
}

/// Whether the backup input asked for by `s` has the key `key`.
pub open spec fn spec_has_key(key: Seq<char>) -> spec_fn(FailoverInputSpec) -> bool {
    |s: FailoverInputSpec| s.key@ == key
}

/// Whether an endpoint kind is `kind`.
pub open spec fn kind_is(kind: InputEndpointKind) -> spec_fn(InputEndpointKind) -> bool {
    |k: InputEndpointKind| k == kind
}

/// Whether a key is `key`.
pub open spec fn key_is(key: Seq<char>) -> spec_fn(String) -> bool {
    |k: String| k@ == key
}

/// The old endpoint of `olds` that the endpoint at `k` of `ss` takes the
/// place of: among the old endpoints of its kind, the one numbered as it is
/// among the endpoints of `ss` of its kind, if there are that many.
pub open spec fn matched_endpoint(olds: Seq<InputEndpoint>, ss: Seq<InputEndpointSpec>, k: int) -> Option<int> {
    nth_index(olds, of_kind(ss[k].kind), count_before(ss, spec_of_kind(ss[k].kind), k))
}

/// `e` is the endpoint at `k` of `ss` set among the endpoints `olds`: it is
/// made after it, and keeps the identity and status of the old endpoint
/// whose place it takes (see [`matched_endpoint`]), if any, else is
/// offline.
pub open spec fn endpoint_applied(olds: Seq<InputEndpoint>, ss: Seq<InputEndpointSpec>, k: int, e: InputEndpoint) -> bool {
    &&& e.kind == ss[k].kind
    &&& e.label == ss[k].label
    &&& e.file_id == ss[k].file_id
    &&& match matched_endpoint(olds, ss, k) {
        Some(j) => e.id == olds[j].id && e.status == olds[j].status,
        None => e.status == Status::Offline,
    }
}

/// `es` are the endpoints `ss` set among the endpoints `olds`, one by one.
pub open spec fn endpoints_applied(olds: Seq<InputEndpoint>, ss: Seq<InputEndpointSpec>, es: Seq<InputEndpoint>) -> bool {
    es.len() == ss.len() && forall|k: int| 0 <= k < es.len() ==> endpoint_applied(olds, ss, k, #[trigger] es[k])
}

/// The old backup input of `olds` that the backup input at `k` of `vs`
/// takes the place of: among the old backup inputs of its key, the one
/// numbered as it is among those of `vs` of its key, if there are that
/// many.
pub open spec fn matched_backup(olds: Seq<FailoverInput>, vs: Seq<FailoverInputSpec>, k: int) -> Option<int> {
    nth_index(olds, has_backup_key(vs[k].key@), count_before(vs, spec_has_key(vs[k].key@), k))
}

/// `f` is the backup input at `k` of `vs` set among the backup inputs
/// `olds`: it takes the key, source and state asked for; it keeps the
/// identity of the old backup input whose place it takes (see
/// [`matched_backup`]), if any, and its endpoints are set among that one's;
/// else it has the identity asked for, if one is.
pub open spec fn backup_applied(olds: Seq<FailoverInput>, vs: Seq<FailoverInputSpec>, k: int, f: FailoverInput) -> bool {
    &&& f.key@ == vs[k].key@
    &&& f.src == vs[k].src
    &&& f.enabled == vs[k].enabled
    &&& match matched_backup(olds, vs, k) {
        Some(j) => f.id == olds[j].id && endpoints_applied(olds[j].endpoints@, vs[k].endpoints@, f.endpoints@),
        None => {
            &&& (vs[k].id matches Some(id) ==> f.id == id)
            &&& endpoints_applied(seq![], vs[k].endpoints@, f.endpoints@)
        },
    }
}

/// The backup inputs of the input `i`: none where its source is not a
/// failover one.
pub open spec fn backups(i: Input) -> Seq<FailoverInput> {
    match i.src {
        Some(InputSrc::Failover(v)) => v@,
        _ => seq![],
    }
}

/// `new` is the main input `old` set after `s`: it keeps its identity,
/// takes the key and state of `s`, its endpoints are set among the old ones
/// (see [`endpoint_applied`]) and its backup inputs among the old ones (see
/// [`backup_applied`]).
pub open spec fn input_applied(old: Input, s: InputSpec, new: Input) -> bool {
    &&& new.id == old.id
    &&& new.key@ == s.key@
    &&& new.enabled == s.enabled
    &&& endpoints_applied(old.endpoints@, s.endpoints@, new.endpoints@)
    &&& match s.src {
        None => new.src is None,
        Some(InputSrcSpec::RemoteUrl(u)) => new.src == Some(InputSrc::Remote(u)),
        Some(InputSrcSpec::FailoverInputs(v)) => new.src matches Some(InputSrc::Failover(w)) && w@.len() == v@.len()
            && forall|k: int| 0 <= k < w@.len() ==> backup_applied(backups(old), v@, k, #[trigger] w@[k]),
    }
}

/// How many of `seen` are `kind`.
fn count_kind(seen: &Vec<InputEndpointKind>, kind: InputEndpointKind) -> (c: usize)
    ensures
        c == count_before(seen@, kind_is(kind), seen@.len() as int),
{
    let mut c: usize = 0;
    let mut i: usize = 0;
    while i < seen.len()
        invariant
            i <= seen@.len(),
            c == count_before(seen@, kind_is(kind), i as int),
        decreases seen.len() - i,
    {
        proof {
            lemma_count_bounded(seen@, kind_is(kind), i as int);
        }
        if seen[i] == kind {
            c = c + 1;
        }
        i = i + 1;
    }
    c
}

/// How many of `seen` are `key`.
fn count_key(seen: &Vec<String>, key: &String) -> (c: usize)
    ensures
        c == count_before(seen@, key_is(key@), seen@.len() as int),
{
    let mut c: usize = 0;
    let mut i: usize = 0;
    while i < seen.len()
        invariant
            i <= seen@.len(),
            c == count_before(seen@, key_is(key@), i as int),
        decreases seen.len() - i,
    {
        proof {
            lemma_count_bounded(seen@, key_is(key@), i as int);
        }
        if seen[i] == *key {
            c = c + 1;
        }
        i = i + 1;
    }
    c
}

/// Position of the endpoint of `es` numbered `n` among those of the kind
/// `kind`.
fn nth_of_kind(es: &Vec<InputEndpoint>, kind: InputEndpointKind, n: usize) -> (r: Option<usize>)
    ensures
        r matches Some(j) ==> j < es@.len(),
        match r {
            Some(j) => nth_index(es@, of_kind(kind), n as int) == Some(j as int),
            None => nth_index(es@, of_kind(kind), n as int) is None,
        },
{
    let mut c: usize = 0;
    let mut i: usize = 0;
    while i < es.len()
        invariant
            i <= es@.len(),
            c == count_before(es@, of_kind(kind), i as int),
            forall|j: int| 0 <= j < i ==> !is_nth(es@, of_kind(kind), n as int, j),
        decreases es.len() - i,
    {
        proof {
            lemma_count_bounded(es@, of_kind(kind), i as int);
        }
        if es[i].kind == kind {
            if c == n {
                proof {
                    lemma_nth_index(es@, of_kind(kind), i as int);
                }
                return Some(i);
            }
            c = c + 1;
        }
        i = i + 1;
    }
    proof {
        assert forall|j: int| !#[trigger] is_nth(es@, of_kind(kind), n as int, j) by {}
    }
    None
}

/// Position of the backup input of `v` numbered `n` among those of the key
/// `key`.
fn nth_with_key(v: &Vec<FailoverInput>, key: &String, n: usize) -> (r: Option<usize>)
    ensures
        r matches Some(j) ==> j < v@.len(),
        match r {
            Some(j) => nth_index(v@, has_backup_key(key@), n as int) == Some(j as int),
            None => nth_index(v@, has_backup_key(key@), n as int) is None,
        },
{
    let mut c: usize = 0;
    let mut i: usize = 0;
    while i < v.len()
        invariant
            i <= v@.len(),
            c == count_before(v@, has_backup_key(key@), i as int),
            forall|j: int| 0 <= j < i ==> !is_nth(v@, has_backup_key(key@), n as int, j),
        decreases v.len() - i,
    {
        proof {
            lemma_count_bounded(v@, has_backup_key(key@), i as int);
        }
        if v[i].key == *key {
            if c == n {
                proof {
                    lemma_nth_index(v@, has_backup_key(key@), i as int);
                }
                return Some(i);
            }
            c = c + 1;
        }
        i = i + 1;
    }
    proof {
        assert forall|j: int| !#[trigger] is_nth(v@, has_backup_key(key@), n as int, j) by {}
    }
    None
}

/// The endpoints `specs` set among the endpoints `olds` (see
/// [`endpoints_applied`]).
fn apply_endpoints(olds: &Vec<InputEndpoint>, specs: Vec<InputEndpointSpec>) -> (es: Vec<InputEndpoint>)
    ensures
        endpoints_applied(olds@, specs@, es@),
{
    let ghost s0 = specs@;
    let mut specs = specs;
    let mut es: Vec<InputEndpoint> = Vec::new();
    let mut seen: Vec<InputEndpointKind> = Vec::new();
    while specs.len() > 0
        invariant
            specs@ == s0.skip(es@.len() as int),
            es@.len() <= s0.len(),
            seen@.len() == es@.len(),
            forall|j: int| 0 <= j < seen@.len() ==> #[trigger] seen@[j] == s0[j].kind,
            forall|k: int| 0 <= k < es@.len() ==> endpoint_applied(olds@, s0, k, #[trigger] es@[k]),
        decreases specs.len(),
    {
        let ghost k = es@.len() as int;
        let s = specs.remove(0);
        assert(s == s0[k]);
        let kind = s.kind;
        let n = count_kind(&seen, kind);
        proof {
            lemma_count_same(seen@, kind_is(kind), s0, spec_of_kind(kind), k);
        }
        let e = match nth_of_kind(olds, kind, n) {
            Some(j) => InputEndpoint {
                id: olds[j].id,
                kind,
                status: olds[j].status,
                label: s.label,
                file_id: s.file_id,
            },
            None => InputEndpoint {
                id: random_id(),
                kind,
                status: Status::Offline,
                label: s.label,
                file_id: s.file_id,
            },
        };
        es.push(e);
        seen.push(kind);
        assert(specs@ =~= s0.skip(es@.len() as int));
    }
    es
}

/// The backup inputs `specs` set among the backup inputs `olds` (see
/// [`backup_applied`]).
fn apply_backups(olds: &Vec<FailoverInput>, specs: Vec<FailoverInputSpec>) -> (v: Vec<FailoverInput>)
    ensures
        v@.len() == specs@.len(),
        forall|k: int| 0 <= k < v@.len() ==> backup_applied(olds@, specs@, k, #[trigger] v@[k]),
{
    let ghost s0 = specs@;
    let mut specs = specs;
    let mut v: Vec<FailoverInput> = Vec::new();
    let mut seen: Vec<String> = Vec::new();
    let none: Vec<InputEndpoint> = Vec::new();
    while specs.len() > 0
        invariant
            specs@ == s0.skip(v@.len() as int),
            v@.len() <= s0.len(),
            seen@.len() == v@.len(),
            forall|j: int| 0 <= j < seen@.len() ==> (#[trigger] seen@[j])@ == s0[j].key@,
            none@ == Seq::<InputEndpoint>::empty(),
            forall|k: int| 0 <= k < v@.len() ==> backup_applied(olds@, s0, k, #[trigger] v@[k]),
        decreases specs.len(),
    {
        let ghost k = v@.len() as int;
        let s = specs.remove(0);
        assert(s == s0[k]);
        let n = count_key(&seen, &s.key);
        proof {
            lemma_count_same(seen@, key_is(s.key@), s0, spec_has_key(s.key@), k);
        }
        let key_copy = s.key.clone();
        let f = match nth_with_key(olds, &s.key, n) {
            Some(j) => {
                let endpoints = apply_endpoints(&olds[j].endpoints, s.endpoints);
                FailoverInput { id: olds[j].id, key: s.key, endpoints, src: s.src, enabled: s.enabled }
            },
            None => {
                let endpoints = apply_endpoints(&none, s.endpoints);
                let id = match s.id {
                    Some(x) => x,
                    None => random_id(),
                };
                FailoverInput { id, key: s.key, endpoints, src: s.src, enabled: s.enabled }
            },
        };
        v.push(f);
        seen.push(key_copy);
        assert(specs@ =~= s0.skip(v@.len() as int));
    }
    v
}

impl Input {
    /// This input set after `s` (see [`input_applied`]).
    pub fn applied(&self, s: InputSpec) -> (new: Input)
        ensures
            input_applied(*self, s, new),
    {
        let InputSpec { id: _, key, endpoints, src, enabled } = s;
        let endpoints = apply_endpoints(&self.endpoints, endpoints);
        let src = match src {
            None => None,
            Some(InputSrcSpec::RemoteUrl(u)) => Some(InputSrc::Remote(u)),
            Some(InputSrcSpec::FailoverInputs(v)) => {
                let olds: Vec<FailoverInput> = Vec::new();
                let w = match &self.src {
                    Some(InputSrc::Failover(old_backups)) => apply_backups(old_backups, v),
                    _ => apply_backups(&olds, v),
                };
                Some(InputSrc::Failover(w))
            },
        };
        Input { id: self.id, key, endpoints, src, enabled }
    }
}

/// Whether the inputs `s1` and `s2` ask for the same.
pub open spec fn inputs_alike(s1: InputSpec, s2: InputSpec) -> bool {
    &&& s1.key@ == s2.key@
    &&& s1.enabled == s2.enabled
    &&& s1.endpoints@ == s2.endpoints@
    &&& match (s1.src, s2.src) {
        (None, None) => true,
        (Some(InputSrcSpec::RemoteUrl(u1)), Some(InputSrcSpec::RemoteUrl(u2))) => u1 == u2,
        (Some(InputSrcSpec::FailoverInputs(v1)), Some(InputSrcSpec::FailoverInputs(v2))) => {
            &&& v1@.len() == v2@.len()
            &&& forall|k: int|
                0 <= k < v1@.len() ==> {
                    &&& (#[trigger] v1@[k]).key@ == v2@[k].key@
                    &&& v1@[k].endpoints@ == v2@[k].endpoints@
                    &&& v1@[k].src == v2@[k].src
                    &&& v1@[k].enabled == v2@[k].enabled
                }
        },
        _ => false,
    }
}

/// Whether the backup inputs `a` and `b` are the same: the same identity,
/// key, source, state and endpoints.
pub open spec fn same_backup(a: FailoverInput, b: FailoverInput) -> bool {
    &&& a.id == b.id
    &&& a.key@ == b.key@
    &&& a.src == b.src
    &&& a.enabled == b.enabled
    &&& a.endpoints@ == b.endpoints@
}

/// Whether the main inputs `a` and `b` are the same: the same identity,
/// key, state, endpoints and source, backup inputs included.
pub open spec fn same_input(a: Input, b: Input) -> bool {
    &&& a.id == b.id
    &&& a.key@ == b.key@
    &&& a.enabled == b.enabled
    &&& a.endpoints@ == b.endpoints@
    &&& match (a.src, b.src) {
        (Some(InputSrc::Failover(x)), Some(InputSrc::Failover(y))) => x@.len() == y@.len() && forall|k: int|
            0 <= k < x@.len() ==> same_backup(#[trigger] x@[k], y@[k]),
        (p, q) => p == q,
    }
}

/// Setting endpoints a second time after the same endpoints changes none
/// of them: each takes the place of the one it became the first time.
proof fn lemma_endpoints_again(e0: Seq<InputEndpoint>, ss: Seq<InputEndpointSpec>, e1: Seq<InputEndpoint>, e2: Seq<InputEndpoint>)
    requires
        endpoints_applied(e0, ss, e1),
        endpoints_applied(e1, ss, e2),
    ensures
        e2 == e1,
{
    assert forall|k: int| 0 <= k < e1.len() implies e2[k] == e1[k] by {
        let kind = ss[k].kind;
        assert forall|j: int| 0 <= j < k implies of_kind(kind)(#[trigger] e1[j]) == spec_of_kind(kind)(ss[j]) by {
            assert(endpoint_applied(e0, ss, j, e1[j]));
        }
        lemma_count_same(e1, of_kind(kind), ss, spec_of_kind(kind), k);
        assert(endpoint_applied(e0, ss, k, e1[k]));
        lemma_nth_index(e1, of_kind(kind), k);
        assert(matched_endpoint(e1, ss, k) == Some(k));
        assert(endpoint_applied(e1, ss, k, e2[k]));
    }
    assert(e2 =~= e1);
}

/// Setting an input a second time after an input that asks for the same
/// leaves it the same: each endpoint and backup input takes the place of
/// the one it became the first time.
pub proof fn lemma_input_applied_again(i0: Input, s1: InputSpec, i1: Input, s2: InputSpec, i2: Input)
    requires
        input_applied(i0, s1, i1),
        input_applied(i1, s2, i2),
        inputs_alike(s1, s2),
    ensures
        same_input(i1, i2),
{
    lemma_endpoints_again(i0.endpoints@, s1.endpoints@, i1.endpoints@, i2.endpoints@);
    match (s1.src, s2.src) {
        (Some(InputSrcSpec::FailoverInputs(v1)), Some(InputSrcSpec::FailoverInputs(v2))) => {
            let w1 = i1.src->Some_0->Failover_0@;
            let w2 = i2.src->Some_0->Failover_0@;
            assert(backups(i1) == w1);
            assert forall|k: int| 0 <= k < w1.len() implies same_backup(#[trigger] w1[k], w2[k]) by {
                let key = v1@[k].key@;
                assert(backup_applied(backups(i0), v1@, k, w1[k]));
                assert(backup_applied(w1, v2@, k, w2[k]));
                assert forall|j: int| 0 <= j < k implies has_backup_key(key)(#[trigger] w1[j]) == spec_has_key(key)(
                    v2@[j],
                ) by {
                    assert(backup_applied(backups(i0), v1@, j, w1[j]));
                }
                lemma_count_same(w1, has_backup_key(key), v2@, spec_has_key(key), k);
                lemma_nth_index(w1, has_backup_key(key), k);
                assert(matched_backup(w1, v2@, k) == Some(k));
                assert(v1@[k].endpoints@ == v2@[k].endpoints@);
                match matched_backup(backups(i0), v1@, k) {
                    Some(j) => {
                        lemma_endpoints_again(
                            backups(i0)[j].endpoints@,
                            v1@[k].endpoints@,
                            w1[k].endpoints@,
                            w2[k].endpoints@,
                        );
                    },
                    None => {
                        lemma_endpoints_again(seq![], v1@[k].endpoints@, w1[k].endpoints@, w2[k].endpoints@);
                    },
                }
            }
        },
        _ => {},
    }
}

} // verus!
