//! Which TeamSpeak audio captures feed the mixins of the outputs: a capture
//! runs for each mixin pulled from a TeamSpeak server by an enabled output
//! of a re-stream that is enabled and serves.

use vstd::prelude::*;

use crate::client_stat::JobDecision;
use crate::ffmpeg::{is_ready_to_serve, ready_to_serve};
use crate::state::{Mixin, Output, Restream};
use crate::url_util::{has_scheme, host_of_url, scheme, url_host};

verus! {

/// Whether the mixin `m` pulls its audio from a TeamSpeak server.
pub open spec fn is_ts(m: Mixin) -> bool {
    scheme(m.src@) == "ts"@
}

/// The mixins of `ms` pulled from a TeamSpeak server, in order.
pub open spec fn ts_only(ms: Seq<Mixin>) -> Seq<Mixin>
    decreases ms.len(),
{
    if ms.len() == 0 {
        seq![]
    } else if is_ts(ms.last()) {
        ts_only(ms.drop_last()).push(ms.last())
    } else {
        ts_only(ms.drop_last())
    }
}

/// The TeamSpeak mixins of the enabled outputs of `os`, in order.
pub open spec fn ts_mixins_of_outputs(os: Seq<Output>) -> Seq<Mixin>
    decreases os.len(),
{
    if os.len() == 0 {
        seq![]
    } else {
        ts_mixins_of_outputs(os.drop_last()) + if os.last().enabled {
            ts_only(os.last().mixins@)
        } else {
            seq![]
        }
    }
}

/// The TeamSpeak mixins of the enabled outputs of the re-streams of `rs`
/// whose input is enabled and serves, in order.
pub open spec fn ts_mixins(rs: Seq<Restream>) -> Seq<Mixin>
    decreases rs.len(),
{
    if rs.len() == 0 {
        seq![]
    } else {
        ts_mixins(rs.drop_last()) + if rs.last().input.enabled && ready_to_serve(rs.last().input) {
            ts_mixins_of_outputs(rs.last().outputs@)
        } else {
            seq![]
        }
    }
}

/// The captures for the mixins `ms`, given the mixins whose capture runs:
/// a running capture keeps its connection; a new one is started where the
/// mixin's URL has a host to connect to, and none is where it has not.
pub open spec fn captures(ms: Seq<Mixin>, running: Seq<u128>) -> Seq<(u128, JobDecision)>
    decreases ms.len(),
{
    if ms.len() == 0 {
        seq![]
    } else {
        let rest = captures(ms.drop_last(), running);
        let m = ms.last();
        if running.contains(m.id) {
            rest.push((m.id, JobDecision::Keep))
        } else if url_host(m.src@) is Some {
            rest.push((m.id, JobDecision::Start))
        } else {
            rest
        }
    }
}

/// The mixins whose TeamSpeak capture runs.
#[derive(Debug)]
pub struct AudioProcessingPool {
    /// Identifiers of the mixins whose capture runs.
    pub mixin_ids: Vec<u128>,
}

/// Whether `v` holds `id`.
fn holds(v: &Vec<u128>, id: u128) -> (r: bool)
    ensures
        r == v@.contains(id),
{
    let mut k: usize = 0;
    while k < v.len()
        invariant
            k <= v@.len(),
            forall|j: int| 0 <= j < k ==> v@[j] != id,
        decreases v.len() - k,
    {
        if v[k] == id {
            assert(v@[k as int] == id);
            return true;
        }
        k = k + 1;
    }
    false
}

/// Appends the captures for the TeamSpeak mixins among `ms`.
fn push_captures(d: &mut Vec<(u128, JobDecision)>, ms: &Vec<Mixin>, running: &Vec<u128>)
    ensures
        final(d)@ == old(d)@ + captures(ts_only(ms@), running@),
{
    let mut k: usize = 0;
    while k < ms.len()
        invariant
            k <= ms@.len(),
            d@ == old(d)@ + captures(ts_only(ms@.take(k as int)), running@),
        decreases ms.len() - k,
    {
        let m = &ms[k];
        let ghost before = d@;
        assert(ms@.take(k as int + 1).drop_last() =~= ms@.take(k as int));
        assert(ms@.take(k as int + 1).last() == *m);
        if has_scheme(m.src.as_str(), "ts") {
            let ghost t = ts_only(ms@.take(k as int + 1));
            assert(t.drop_last() =~= ts_only(ms@.take(k as int)));
            if holds(running, m.id) {
                d.push((m.id, JobDecision::Keep));
            } else if host_of_url(m.src.as_str()).is_some() {
                d.push((m.id, JobDecision::Start));
            }
            assert(d@ =~= old(d)@ + captures(t, running@));
        } else {
            assert(ts_only(ms@.take(k as int + 1)) == ts_only(ms@.take(k as int)));
        }
        k = k + 1;
    }
    assert(ms@.take(ms@.len() as int) =~= ms@);
}

impl AudioProcessingPool {
    /// A pool with no capture running.
    pub fn new() -> (p: AudioProcessingPool)
        ensures
            p.mixin_ids@.len() == 0,
    {
        AudioProcessingPool { mixin_ids: Vec::new() }
    }

    /// Adjusts the pool to the re-streams `restreams` (see [`ts_mixins`]
    /// and [`captures`]): returns the capture of each mixin, which runs
    /// afterwards; the captures of other mixins stop.
    pub fn apply(&mut self, restreams: &Vec<Restream>) -> (d: Vec<(u128, JobDecision)>)
        ensures
            d@ == captures(ts_mixins(restreams@), old(self).mixin_ids@),
            final(self).mixin_ids@ == d@.map_values(|c: (u128, JobDecision)| c.0),
    {
        let mut d: Vec<(u128, JobDecision)> = Vec::new();
        let mut k: usize = 0;
        while k < restreams.len()
            invariant
                k <= restreams@.len(),
                d@ == captures(ts_mixins(restreams@.take(k as int)), self.mixin_ids@),
                self.mixin_ids == old(self).mixin_ids,
            decreases restreams.len() - k,
        {
            let r = &restreams[k];
            assert(restreams@.take(k as int + 1).drop_last() =~= restreams@.take(k as int));
            assert(restreams@.take(k as int + 1).last() == *r);
            if r.input.enabled && is_ready_to_serve(&r.input) {
                let mut j: usize = 0;
                let ghost d0 = d@;
                while j < r.outputs.len()
                    invariant
                        k < restreams@.len(),
                        *r == restreams@[k as int],
                        j <= r.outputs@.len(),
                        d@ == captures(
                            ts_mixins(restreams@.take(k as int)) + ts_mixins_of_outputs(r.outputs@.take(j as int)),
                            self.mixin_ids@,
                        ),
                        self.mixin_ids == old(self).mixin_ids,
                    decreases r.outputs.len() - j,
                {
                    let o = &r.outputs[j];
                    assert(r.outputs@.take(j as int + 1).drop_last() =~= r.outputs@.take(j as int));
                    assert(r.outputs@.take(j as int + 1).last() == *o);
                    if o.enabled {
                        push_captures(&mut d, &o.mixins, &self.mixin_ids);
                    }
                    proof {
                        lemma_captures_append(
                            ts_mixins(restreams@.take(k as int)) + ts_mixins_of_outputs(r.outputs@.take(j as int)),
                            if o.enabled {
                                ts_only(o.mixins@)
                            } else {
                                seq![]
                            },
                            self.mixin_ids@,
                        );
                        assert(ts_mixins(restreams@.take(k as int)) + ts_mixins_of_outputs(
                            r.outputs@.take(j as int + 1),
                        ) =~= ts_mixins(restreams@.take(k as int)) + ts_mixins_of_outputs(r.outputs@.take(j as int))
                            + if o.enabled {
                            ts_only(o.mixins@)
                        } else {
                            seq![]
                        });
                    }
                    j = j + 1;
                }
                assert(r.outputs@.take(r.outputs@.len() as int) =~= r.outputs@);
            } else {
                assert(ts_mixins(restreams@.take(k as int + 1)) =~= ts_mixins(restreams@.take(k as int)));
            }
            k = k + 1;
        }
        assert(restreams@.take(restreams@.len() as int) =~= restreams@);
        let mut ids: Vec<u128> = Vec::new();
        let mut j: usize = 0;
        while j < d.len()
            invariant
                j <= d@.len(),
                ids@ == d@.take(j as int).map_values(|c: (u128, JobDecision)| c.0),
            decreases d.len() - j,
        {
            ids.push(d[j].0);
            assert(d@.take(j as int + 1).map_values(|c: (u128, JobDecision)| c.0) =~= d@.take(j as int).map_values(
                |c: (u128, JobDecision)| c.0,
            ).push(d@[j as int].0));
            j = j + 1;
        }
        assert(d@.take(d@.len() as int) =~= d@);
        self.mixin_ids = ids;
        d
    }
}

/// The captures of two runs of mixins, one after the other, are those of
/// each run, one after the other.
proof fn lemma_captures_append(a: Seq<Mixin>, b: Seq<Mixin>, running: Seq<u128>)
    ensures
        captures(a + b, running) == captures(a, running) + captures(b, running),
    decreases b.len(),
{
    if b.len() == 0 {
        assert(a + b =~= a);
        assert(captures(a, running) + captures(b, running) =~= captures(a, running));
    } else {
        lemma_captures_append(a, b.drop_last(), running);
        assert((a + b).drop_last() =~= a + b.drop_last());
        assert((a + b).last() == b.last());
        let ca = captures(a, running);
        let cb = captures(b.drop_last(), running);
        let m = b.last();
        if running.contains(m.id) {
            assert(ca + cb.push((m.id, JobDecision::Keep)) =~= (ca + cb).push((m.id, JobDecision::Keep)));
        } else if url_host(m.src@) is Some {
            assert(ca + cb.push((m.id, JobDecision::Start)) =~= (ca + cb).push((m.id, JobDecision::Start)));
        }
    }
}

} // verus!
