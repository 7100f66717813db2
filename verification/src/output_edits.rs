//! Setting an output that exists is idempotent: setting it again with the
//! same arguments leaves it as the first time did.

use vstd::prelude::*;

use crate::api_error::ApiError;
use crate::client_api::is_restream;
use crate::ffmpeg::is_output;
use crate::outputs::{
    dst_used, edited_output, is_mixin_src, mixin_of, mixins_checked, mixins_ok, output_applied,
    output_in, output_set, output_spec_of, repeats_earlier, set_output_answer,
};
use crate::seq_util::{first_index, lemma_first_index, lemma_first_index_same, lemma_first_index_some};
use crate::spec::OutputSpec;
use crate::state::{Id, Mixin, Output, Restream};

verus! {

/// Whether the mixins `a` and `b` are the same: equal but for their
/// sources, which write the same.
pub open spec fn same_mixin(a: Mixin, b: Mixin) -> bool {
    &&& b == Mixin { src: b.src, ..a }
    &&& b.src@ == a.src@
}

/// Whether the outputs `a` and `b` are the same: equal but for their
/// destinations, which write the same, and their mixins, which are the
/// same one by one.
pub open spec fn same_output(a: Output, b: Output) -> bool {
    &&& b == Output { dst: b.dst, mixins: b.mixins, ..a }
    &&& b.dst@ == a.dst@
    &&& b.mixins@.len() == a.mixins@.len()
    &&& forall|m: int| 0 <= m < a.mixins@.len() ==> same_mixin(#[trigger] a.mixins@[m], b.mixins@[m])
}

/// Whether the re-streams `a` and `b` are the same but for their outputs,
/// which are the same one by one.
pub open spec fn same_outputs(a: Seq<Restream>, b: Seq<Restream>) -> bool {
    &&& a.len() == b.len()
    &&& forall|j: int|
        0 <= j < a.len() ==> {
            &&& #[trigger] b[j] == Restream { outputs: b[j].outputs, ..a[j] }
            &&& b[j].outputs@.len() == a[j].outputs@.len()
            &&& forall|k: int|
                0 <= k < a[j].outputs@.len() ==> same_output(#[trigger] a[j].outputs@[k], b[j].outputs@[k])
        }
}

/// Re-streams are the same as themselves.
proof fn lemma_same_outputs_refl(s: Seq<Restream>)
    ensures
        same_outputs(s, s),
{
    assert forall|j: int| 0 <= j < s.len() implies {
        &&& #[trigger] s[j] == Restream { outputs: s[j].outputs, ..s[j] }
        &&& s[j].outputs@.len() == s[j].outputs@.len()
        &&& forall|k: int|
            0 <= k < s[j].outputs@.len() ==> same_output(#[trigger] s[j].outputs@[k], s[j].outputs@[k])
    } by {
        assert forall|k: int| 0 <= k < s[j].outputs@.len() implies same_output(
            #[trigger] s[j].outputs@[k],
            s[j].outputs@[k],
        ) by {
            let o = s[j].outputs@[k];
            assert forall|m: int| 0 <= m < o.mixins@.len() implies same_mixin(
                #[trigger] o.mixins@[m],
                o.mixins@[m],
            ) by {}
        }
    }
}

/// Setting an output again after the output asked for with the same
/// arguments, where the first setting edited it, leaves it the same.
proof fn lemma_output_applied_again(
    o0: Output,
    o1: Output,
    o2: Output,
    dst: Seq<char>,
    label: Option<String>,
    preview_url: Option<String>,
    mixins: Seq<String>,
    spec1: OutputSpec,
    spec2: OutputSpec,
)
    requires
        mixins_ok(mixins),
        output_spec_of(dst, label, preview_url, mixins, Some(o0), spec1),
        output_spec_of(dst, label, preview_url, mixins, Some(o1), spec2),
        output_applied(o0, spec1, o1),
        output_applied(o1, spec2, o2),
    ensures
        same_output(o1, o2),
{
    assert forall|m: int| 0 <= m < o1.mixins@.len() implies same_mixin(#[trigger] o1.mixins@[m], o2.mixins@[m]) by {
        let src = mixins[m]@;
        assert(spec2.mixins@[m].src@ == src);
        assert(spec1.mixins@[m].src@ == src);
        assert forall|j: int| 0 <= j < m implies !is_mixin_src(src)(#[trigger] o1.mixins@[j]) by {
            assert(spec1.mixins@[j].src@ == mixins[j]@);
            assert(!repeats_earlier(mixins, m));
            if o1.mixins@[j].src@ == src {
                assert(mixins[j]@ == mixins[m]@);
            }
        }
        lemma_first_index(o1.mixins@, is_mixin_src(src), m);
        assert(mixin_of(o1, src) == Some(o1.mixins@[m]));
    }
}

/// Setting the output `oid` of the re-stream `rid` twice with the same
/// arguments is idempotent: the second time answers as the first did and
/// leaves the re-streams the same.
pub proof fn lemma_set_output_idempotent(
    s0: Seq<Restream>,
    s1: Seq<Restream>,
    s2: Seq<Restream>,
    rid: Id,
    dst: Seq<char>,
    label: Option<String>,
    preview_url: Option<String>,
    mixins: Seq<String>,
    oid: Id,
    a1: Result<Option<bool>, ApiError>,
    a2: Result<Option<bool>, ApiError>,
)
    requires
        !mixins_ok(mixins) ==> a1 is Err && mixins_checked(mixins, Err(a1->Err_0)) && s1 == s0,
        mixins_ok(mixins) ==> exists|spec: OutputSpec, r: Result<Option<()>, String>|
            {
                &&& #[trigger] output_spec_of(dst, label, preview_url, mixins, edited_output(s0, rid, Some(oid)), spec)
                &&& output_set(s0, s1, rid, Some(oid), spec, r)
                &&& #[trigger] set_output_answer(r, a1)
            },
        !mixins_ok(mixins) ==> a2 is Err && mixins_checked(mixins, Err(a2->Err_0)) && s2 == s1,
        mixins_ok(mixins) ==> exists|spec: OutputSpec, r: Result<Option<()>, String>|
            {
                &&& #[trigger] output_spec_of(dst, label, preview_url, mixins, edited_output(s1, rid, Some(oid)), spec)
                &&& output_set(s1, s2, rid, Some(oid), spec, r)
                &&& #[trigger] set_output_answer(r, a2)
            },
    ensures
        a1 is Ok ==> a2 == a1,
        a1 is Err ==> a2 is Err,
        same_outputs(s1, s2),
{
    if !mixins_ok(mixins) {
        lemma_same_outputs_refl(s1);
        return;
    }
    let (spec1, r1) = choose|spec: OutputSpec, r: Result<Option<()>, String>|
        {
            &&& #[trigger] output_spec_of(dst, label, preview_url, mixins, edited_output(s0, rid, Some(oid)), spec)
            &&& output_set(s0, s1, rid, Some(oid), spec, r)
            &&& #[trigger] set_output_answer(r, a1)
        };
    let (spec2, r2) = choose|spec: OutputSpec, r: Result<Option<()>, String>|
        {
            &&& #[trigger] output_spec_of(dst, label, preview_url, mixins, edited_output(s1, rid, Some(oid)), spec)
            &&& output_set(s1, s2, rid, Some(oid), spec, r)
            &&& #[trigger] set_output_answer(r, a2)
        };
    lemma_same_outputs_refl(s1);
    match first_index(s0, is_restream(rid)) {
        None => {},
        Some(i) => {
            match first_index(s0[i].outputs@, is_output(oid)) {
                None => {},
                Some(k) => {
                    if !dst_used(s0[i].outputs@, spec1.dst@, Some(oid)) {
                        lemma_first_index_some(s0, is_restream(rid));
                        lemma_first_index_some(s0[i].outputs@, is_output(oid));
                        let o0 = s0[i].outputs@[k];
                        let o1 = s1[i].outputs@[k];
                        assert forall|j: int| 0 <= j < s0.len() implies is_restream(rid)(#[trigger] s0[j])
                            == is_restream(rid)(s1[j]) by {}
                        lemma_first_index_same(s0, is_restream(rid), s1, is_restream(rid));
                        assert forall|j: int| 0 <= j < s0[i].outputs@.len() implies is_output(oid)(
                            #[trigger] s0[i].outputs@[j],
                        ) == is_output(oid)(s1[i].outputs@[j]) by {}
                        lemma_first_index_same(s0[i].outputs@, is_output(oid), s1[i].outputs@, is_output(oid));
                        assert(!dst_used(s1[i].outputs@, spec2.dst@, Some(oid))) by {
                            if dst_used(s1[i].outputs@, spec2.dst@, Some(oid)) {
                                let j = choose|j: int|
                                    0 <= j < s1[i].outputs@.len() && (#[trigger] s1[i].outputs@[j]).dst@ == spec2.dst@
                                        && s1[i].outputs@[j].id != oid;
                                if j != k {
                                    assert(s0[i].outputs@[j] == s1[i].outputs@[j]);
                                }
                            }
                        }
                        assert(output_in(s0, rid, oid) == Some(o0));
                        assert(output_in(s1, rid, oid) == Some(o1));
                        lemma_output_applied_again(
                            o0,
                            o1,
                            s2[i].outputs@[k],
                            dst,
                            label,
                            preview_url,
                            mixins,
                            spec1,
                            spec2,
                        );
                        assert forall|j: int| 0 <= j < s1.len() implies {
                            &&& #[trigger] s2[j] == Restream { outputs: s2[j].outputs, ..s1[j] }
                            &&& s2[j].outputs@.len() == s1[j].outputs@.len()
                            &&& forall|q: int|
                                0 <= q < s1[j].outputs@.len() ==> same_output(
                                    #[trigger] s1[j].outputs@[q],
                                    s2[j].outputs@[q],
                                )
                        } by {
                            if j == i {
                                assert forall|q: int| 0 <= q < s1[j].outputs@.len() implies same_output(
                                    #[trigger] s1[j].outputs@[q],
                                    s2[j].outputs@[q],
                                ) by {
                                    if q != k {
                                        assert(s2[j].outputs@[q] == s1[j].outputs@[q]);
                                        assert(same_outputs(s1, s1));
                                        assert(same_output(s1[j].outputs@[q], s1[j].outputs@[q]));
                                    }
                                }
                            } else {
                                assert(s2[j] == s1[j]);
                                assert(same_outputs(s1, s1));
                            }
                        }
                    }
                },
            }
        },
    }
}

} // verus!
