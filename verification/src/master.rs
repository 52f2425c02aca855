//! The master: the supervisor that owns the fleet of per-site counters,
//! registers, looks up, renames and removes them, and garbage-collects the
//! idle ones.
//!
//! Eviction requires both a zero visitor count and at least one lookup
//! since registration, so a freshly registered site stays addressable at
//! least until its first use.

use vstd::prelude::*;

use crate::counter::AddVisitorResult;
use crate::counter::Counter;
use crate::counter::CounterV;
use crate::counter::apply_adds;
use crate::counter::counter_add;
use crate::counter::counter_stop;
use crate::counter::counter_sweep;
use crate::counter::lemma_counter_conservation;
use crate::counter::live_deadlines;
use crate::defense::spec_difficulty;
use crate::kv::KvPair;
use crate::kv::kv_find;
use crate::kv::kv_insert;
use crate::kv::kv_map;
use crate::kv::kv_push_fresh;
use crate::kv::kv_remove;
use crate::kv::kv_wf;
use crate::kv::lemma_kv_map_absent;
use crate::kv::lemma_kv_map_index;
use crate::kv::lemma_kv_map_remove;
use crate::messages::AddSite;
use crate::messages::AddVisitor;
use crate::messages::RemoveCaptcha;
use crate::messages::Rename;

verus! {

/// A registered site: its counter, and whether the site has been looked up
/// since registration.
pub struct SiteEntry {
    pub touched: bool,
    pub counter: Counter,
}

/// Message to get a site's counter from the master; the lookup marks the
/// site as touched.
pub struct GetSite(pub String);

/// Message to clean the master of counters with zero visitor count.
pub struct CleanUp;

/// Master transition: register a site, replacing whatever the id held.
pub open spec fn spec_add_site(
    m: Map<Seq<char>, SiteEntry>,
    id: Seq<char>,
    counter: Counter,
) -> Map<Seq<char>, SiteEntry> {
    m.insert(id, SiteEntry { touched: false, counter })
}

/// Master transition: mark a site as looked up.
pub open spec fn spec_touch(m: Map<Seq<char>, SiteEntry>, id: Seq<char>) -> Map<
    Seq<char>,
    SiteEntry,
> {
    if m.contains_key(id) {
        m.insert(id, SiteEntry { touched: true, counter: m[id].counter })
    } else {
        m
    }
}

/// Master transition: re-key `from` to `to`, moving the entry intact
/// (counter and touched flag alike) and overwriting whatever `to` held; a
/// no-op when `from` is absent.
pub open spec fn spec_rename(m: Map<Seq<char>, SiteEntry>, from: Seq<char>, to: Seq<char>) -> Map<
    Seq<char>,
    SiteEntry,
> {
    if m.contains_key(from) {
        m.remove(from).insert(to, m[from])
    } else {
        m
    }
}

/// How one garbage-collection pass transforms the site map: every site
/// whose counter has been touched and reports no live visitors at `now` is
/// evicted; every other site stays under its id, its counter's due
/// decrements processed, and nothing else appears.
pub open spec fn swept(
    om: Map<Seq<char>, SiteEntry>,
    fm: Map<Seq<char>, SiteEntry>,
    now: u64,
) -> bool {
    &&& forall|k: Seq<char>| #[trigger] fm.contains_key(k) ==> om.contains_key(k)
    &&& forall|k: Seq<char>| #[trigger] om.contains_key(k) ==> {
        let e = om[k];
        if e.touched && live_deadlines(e.counter@.pending, now).len() == 0 {
            !fm.contains_key(k)
        } else {
            fm.contains_key(k) && fm[k].touched == e.touched && fm[k].counter@ == counter_sweep(
                e.counter@,
                now,
            )
        }
    }
}

/// GC liveness: a site that has been queried at least once and has no live
/// visitor is gone after the pass.
pub proof fn lemma_gc_liveness(
    om: Map<Seq<char>, SiteEntry>,
    fm: Map<Seq<char>, SiteEntry>,
    now: u64,
    id: Seq<char>,
)
    requires
        swept(om, fm, now),
        om.contains_key(id),
        om[id].touched,
        live_deadlines(om[id].counter@.pending, now).len() == 0,
    ensures
        !fm.contains_key(id),
{
}

/// GC safety: a site with live visitors is never evicted; its counter only
/// has its due decrements processed.
pub proof fn lemma_gc_safety(
    om: Map<Seq<char>, SiteEntry>,
    fm: Map<Seq<char>, SiteEntry>,
    now: u64,
    id: Seq<char>,
)
    requires
        swept(om, fm, now),
        om.contains_key(id),
        live_deadlines(om[id].counter@.pending, now).len() > 0,
    ensures
        fm.contains_key(id),
        fm[id].counter@ == counter_sweep(om[id].counter@, now),
{
}

/// Counter conservation at the master: when a site's counter is the fold
/// of a run of increments over an idle counter — which is what each
/// forwarded increment's contract leaves in the registry — and every
/// increment happened by time `last`, then a garbage-collection pass at
/// `last + lifetime` sees no live visitor on that site: it evicts the site
/// if it was ever looked up, and otherwise keeps it reporting zero.
pub proof fn lemma_master_counter_conservation(
    om: Map<Seq<char>, SiteEntry>,
    fm: Map<Seq<char>, SiteEntry>,
    id: Seq<char>,
    c0: CounterV,
    times: Seq<u64>,
    last: u64,
)
    requires
        om.contains_key(id),
        om[id].counter@ == apply_adds(c0, times),
        c0.pending.len() == 0,
        forall|i: int| 0 <= i < times.len() ==> #[trigger] times[i] <= last,
        last + c0.visitor_lifetime <= u64::MAX,
        swept(om, fm, (last + c0.visitor_lifetime) as u64),
    ensures
        om[id].touched ==> !fm.contains_key(id),
        !om[id].touched ==> fm.contains_key(id) && fm[id].counter@.pending.len() == 0,
{
    lemma_counter_conservation(c0, times, last);
}

/// Rename: afterwards the old id is gone and the new id holds the old id's
/// entry intact.
pub proof fn lemma_rename_effect(m: Map<Seq<char>, SiteEntry>, from: Seq<char>, to: Seq<char>)
    requires
        m.contains_key(from),
        from != to,
    ensures
        !spec_rename(m, from, to).contains_key(from),
        spec_rename(m, from, to).contains_key(to),
        spec_rename(m, from, to)[to] == m[from],
{
}

/// Renaming an absent id changes nothing.
pub proof fn lemma_rename_absent(m: Map<Seq<char>, SiteEntry>, from: Seq<char>, to: Seq<char>)
    requires
        !m.contains_key(from),
    ensures
        spec_rename(m, from, to) == m,
{
}

/// A request to the master.
pub enum MasterMessage {
    AddSite(AddSite),
    AddVisitor(AddVisitor),
    Rename(Rename),
    GetSite(GetSite),
    RemoveCaptcha(RemoveCaptcha),
    CleanUp(CleanUp),
}

/// A reply from the master. Counters handed back by `Added`, `Renamed` and
/// `Removed` are the displaced ones, already stopped; `Site` carries a
/// snapshot of the looked-up counter.
pub enum MasterReply {
    Added(Option<Counter>),
    Visitor(Option<AddVisitorResult>),
    Renamed(Option<Counter>),
    Site(Option<Counter>),
    Removed(Option<Counter>),
    Cleaned(usize),
}

/// This supervisor manages the per-site counters. A service can have
/// several counters with varying defense configurations, registered each
/// under its site id.
pub struct Master {
    pub sites: Vec<KvPair<SiteEntry>>,
    pub gc: u64,
}

impl Master {
    /// The registry as a map from site ids to their entries.
    pub open spec fn sites_map(&self) -> Map<Seq<char>, SiteEntry> {
        kv_map(self.sites@)
    }

    pub open spec fn wf(&self) -> bool {
        &&& kv_wf(self.sites@)
        &&& self.gc >= 1
        &&& forall|k: Seq<char>|
            #[trigger] self.sites_map().contains_key(k) ==> self.sites_map()[k].counter.wf()
                && !self.sites_map()[k].counter@.stopped
    }

    /// A new master with an empty registry; `gc` is the garbage-collection
    /// cadence in seconds.
    pub fn new(gc: u64) -> (m: Master)
        requires
            gc >= 1,
        ensures
            m.wf(),
            m.sites_map() == Map::<Seq<char>, SiteEntry>::empty(),
            m.gc == gc,
    {
        Master { sites: Vec::new(), gc }
    }

    /// Registers `counter` under `id`. If the id exists, the new counter
    /// replaces the old one, which is returned stopped.
    pub fn add_site(&mut self, counter: Counter, id: String) -> (prev: Option<Counter>)
        requires
            old(self).wf(),
            counter.wf(),
            !counter@.stopped,
        ensures
            final(self).wf(),
            final(self).gc == old(self).gc,
            final(self).sites_map() == spec_add_site(old(self).sites_map(), id@, counter),
            match prev {
                Some(c) => old(self).sites_map().contains_key(id@) && c@ == counter_stop(
                    old(self).sites_map()[id@].counter@,
                ),
                None => !old(self).sites_map().contains_key(id@),
            },
    {
        let prev = kv_insert(&mut self.sites, id, SiteEntry { touched: false, counter });
        proof {
            assert forall|k: Seq<char>|
                #[trigger] kv_map(self.sites@).contains_key(k) implies kv_map(
                self.sites@,
            )[k].counter.wf() && !kv_map(self.sites@)[k].counter@.stopped by {
                if k != id@ {
                    assert(kv_map(self.sites@)[k] == old(self).sites_map()[k]);
                }
            }
        }
        match prev {
            Some(e) => {
                let SiteEntry { touched: _, counter: mut c } = e;
                c.stop();
                Some(c)
            },
            None => None,
        }
    }

    /// Looks a site up, marking it touched, and returns a snapshot of its
    /// counter.
    pub fn get_site(&mut self, id: &String) -> (r: Option<Counter>)
        requires
            old(self).wf(),
        ensures
            final(self).wf(),
            final(self).gc == old(self).gc,
            final(self).sites_map() == spec_touch(old(self).sites_map(), id@),
            match r {
                Some(c) => old(self).sites_map().contains_key(id@) && c@ == old(
                    self,
                ).sites_map()[id@].counter@,
                None => !old(self).sites_map().contains_key(id@),
            },
    {
        let ghost om = old(self).sites_map();
        match kv_find(&self.sites, id) {
            Some(i) => {
                proof {
                    lemma_kv_map_index(self.sites@, i as int);
                    lemma_kv_map_remove(self.sites@, i as int);
                }
                let e = self.sites.remove(i);
                let KvPair { key, val } = e;
                let SiteEntry { touched: _, counter } = val;
                let snapshot = counter.clone();
                kv_push_fresh(
                    &mut self.sites,
                    KvPair { key, val: SiteEntry { touched: true, counter } },
                );
                proof {
                    assert(kv_map(self.sites@) =~= spec_touch(om, id@));
                    assert forall|k: Seq<char>|
                        #[trigger] kv_map(self.sites@).contains_key(k) implies kv_map(
                        self.sites@,
                    )[k].counter.wf() && !kv_map(self.sites@)[k].counter@.stopped by {
                        if k != id@ {
                            assert(kv_map(self.sites@)[k] == om[k]);
                        }
                    }
                }
                Some(snapshot)
            },
            None => {
                proof {
                    lemma_kv_map_absent(self.sites@, id@);
                }
                None
            },
        }
    }

    /// Removes a site's entry, without stopping its counter.
    pub fn rm_site(&mut self, id: &String) -> (r: Option<SiteEntry>)
        requires
            old(self).wf(),
        ensures
            final(self).wf(),
            final(self).gc == old(self).gc,
            final(self).sites_map() == old(self).sites_map().remove(id@),
            match r {
                Some(e) => old(self).sites_map().contains_key(id@) && e == old(
                    self,
                ).sites_map()[id@],
                None => !old(self).sites_map().contains_key(id@),
            },
    {
        let r = kv_remove(&mut self.sites, id);
        proof {
            assert forall|k: Seq<char>|
                #[trigger] kv_map(self.sites@).contains_key(k) implies kv_map(
                self.sites@,
            )[k].counter.wf() && !kv_map(self.sites@)[k].counter@.stopped by {
                assert(kv_map(self.sites@)[k] == old(self).sites_map()[k]);
            }
        }
        r
    }

    /// Stops and drops a site's counter; idempotent. The stopped counter is
    /// returned when the id was present.
    pub fn remove_captcha(&mut self, id: &String) -> (r: Option<Counter>)
        requires
            old(self).wf(),
        ensures
            final(self).wf(),
            final(self).gc == old(self).gc,
            final(self).sites_map() == old(self).sites_map().remove(id@),
            match r {
                Some(c) => old(self).sites_map().contains_key(id@) && c@ == counter_stop(
                    old(self).sites_map()[id@].counter@,
                ),
                None => !old(self).sites_map().contains_key(id@),
            },
    {
        match self.rm_site(id) {
            Some(e) => {
                let SiteEntry { touched: _, counter: mut c } = e;
                c.stop();
                Some(c)
            },
            None => None,
        }
    }

    /// Re-keys the site under `msg.name` to `msg.rename_to`, moving the
    /// entry intact (its counter and its touched flag) and overwriting
    /// whatever the target id held; the displaced counter is returned
    /// stopped. Renaming an absent id succeeds and changes nothing.
    pub fn rename(&mut self, msg: Rename) -> (displaced: Option<Counter>)
        requires
            old(self).wf(),
        ensures
            final(self).wf(),
            final(self).gc == old(self).gc,
            final(self).sites_map() == spec_rename(
                old(self).sites_map(),
                msg.name@,
                msg.rename_to@,
            ),
            match displaced {
                Some(c) => old(self).sites_map().contains_key(msg.name@) && old(
                    self,
                ).sites_map().contains_key(msg.rename_to@) && msg.name@ != msg.rename_to@ && c@
                    == counter_stop(old(self).sites_map()[msg.rename_to@].counter@),
                None => !old(self).sites_map().contains_key(msg.name@) || !old(
                    self,
                ).sites_map().contains_key(msg.rename_to@) || msg.name@ == msg.rename_to@,
            },
    {
        match kv_remove(&mut self.sites, &msg.name) {
            Some(e) => {
                proof {
                    assert(old(self).sites_map().contains_key(msg.name@));
                }
                let prev = kv_insert(&mut self.sites, msg.rename_to, e);
                proof {
                    assert forall|k: Seq<char>|
                        #[trigger] kv_map(self.sites@).contains_key(k) implies kv_map(
                        self.sites@,
                    )[k].counter.wf() && !kv_map(self.sites@)[k].counter@.stopped by {
                        if k != msg.rename_to@ {
                            assert(kv_map(self.sites@)[k] == old(self).sites_map()[k]);
                        } else {
                            assert(kv_map(self.sites@)[k] == old(self).sites_map()[msg.name@]);
                        }
                    }
                }
                match prev {
                    Some(pe) => {
                        let SiteEntry { touched: _, counter: mut c } = pe;
                        c.stop();
                        Some(c)
                    },
                    None => None,
                }
            },
            None => {
                proof {
                    assert forall|k: Seq<char>|
                        #[trigger] kv_map(self.sites@).contains_key(k) implies kv_map(
                        self.sites@,
                    )[k].counter.wf() && !kv_map(self.sites@)[k].counter@.stopped by {
                        assert(kv_map(self.sites@)[k] == old(self).sites_map()[k]);
                    }
                }
                None
            },
        }
    }

    /// Counts a visitor of the given site in: looks the site up (marking it
    /// touched) and forwards the increment; nothing when the id is unknown.
    pub fn add_visitor(&mut self, id: &String, now: u64) -> (r: Option<AddVisitorResult>)
        requires
            old(self).wf(),
            old(self).sites_map().contains_key(id@)
                ==> old(self).sites_map()[id@].counter@.pending.len() < u32::MAX && now + old(
                self,
            ).sites_map()[id@].counter@.visitor_lifetime <= u64::MAX,
        ensures
            final(self).wf(),
            final(self).gc == old(self).gc,
            final(self).sites_map().dom() == old(self).sites_map().dom(),
            match r {
                Some(res) => old(self).sites_map().contains_key(id@) && {
                    let c0 = old(self).sites_map()[id@].counter@;
                    &&& final(self).sites_map()[id@].touched
                    &&& final(self).sites_map()[id@].counter@ == counter_add(c0, now)
                    &&& forall|k: Seq<char>|
                        #[trigger] final(self).sites_map().contains_key(k) && k != id@
                            ==> final(self).sites_map()[k] == old(self).sites_map()[k]
                    &&& res.difficulty_factor == spec_difficulty(
                        c0.defense,
                        counter_add(c0, now).pending.len() as u32,
                    )
                    &&& res.duration == c0.duration
                },
                None => !old(self).sites_map().contains_key(id@) && final(self).sites@ == old(
                    self,
                ).sites@,
            },
    {
        let ghost om = old(self).sites_map();
        match kv_find(&self.sites, id) {
            Some(i) => {
                proof {
                    lemma_kv_map_index(self.sites@, i as int);
                    lemma_kv_map_remove(self.sites@, i as int);
                }
                let e = self.sites.remove(i);
                let KvPair { key, val } = e;
                let SiteEntry { touched: _, counter: mut c } = val;
                let res = c.add_visitor(now);
                kv_push_fresh(
                    &mut self.sites,
                    KvPair { key, val: SiteEntry { touched: true, counter: c } },
                );
                proof {
                    assert(kv_map(self.sites@) =~= om.insert(
                        id@,
                        SiteEntry { touched: true, counter: c },
                    ));
                    assert(kv_map(self.sites@).dom() =~= om.dom());
                    assert forall|k: Seq<char>|
                        #[trigger] kv_map(self.sites@).contains_key(k) implies kv_map(
                        self.sites@,
                    )[k].counter.wf() && !kv_map(self.sites@)[k].counter@.stopped by {
                        if k != id@ {
                            assert(kv_map(self.sites@)[k] == om[k]);
                        }
                    }
                }
                Some(res)
            },
            None => {
                proof {
                    lemma_kv_map_absent(self.sites@, id@);
                }
                None
            },
        }
    }

    /// One garbage-collection pass: every site's due decrements are
    /// processed, and every site that has been queried at least once and
    /// reports zero visitors is evicted. Returns how many sites the pass
    /// evicted, as an observability hook.
    #[verifier::loop_isolation(false)]
    pub fn cleanup(&mut self, now: u64) -> (evicted: usize)
        requires
            old(self).wf(),
        ensures
            final(self).wf(),
            final(self).gc == old(self).gc,
            swept(old(self).sites_map(), final(self).sites_map(), now),
            evicted == old(self).sites@.len() - final(self).sites@.len(),
    {
        let ghost om = old(self).sites@;
        let orig_len = self.sites.len();
        let mut kept: Vec<KvPair<SiteEntry>> = Vec::new();
        proof {
            assert(om.subrange(0, om.len() as int) =~= om);
            assert(kv_map(om.subrange(0, 0)) =~= Map::<Seq<char>, SiteEntry>::empty());
            assert(kv_map(kept@) =~= Map::<Seq<char>, SiteEntry>::empty());
        }
        while self.sites.len() > 0
            invariant
                kv_wf(kept@),
                self.gc == old(self).gc,
                self.sites@.len() <= om.len(),
                self.sites@ == om.subrange(om.len() - self.sites@.len(), om.len() as int),
                kept@.len() <= om.len() - self.sites@.len(),
                swept(kv_map(om.subrange(0, om.len() - self.sites@.len())), kv_map(kept@), now),
                forall|k: Seq<char>|
                    #[trigger] kv_map(kept@).contains_key(k) ==> kv_map(kept@)[k].counter.wf()
                        && !kv_map(kept@)[k].counter@.stopped,
            decreases self.sites@.len(),
        {
            let ghost split = om.len() - self.sites@.len();
            let ghost prefix = om.subrange(0, split);
            proof {
                assert(om.subrange(split, om.len() as int)[0] == om[split]);
                assert(om.subrange(split, om.len() as int).remove(0) =~= om.subrange(
                    split + 1,
                    om.len() as int,
                ));
                assert(om.subrange(0, split + 1).drop_last() =~= prefix);
                assert(om.subrange(0, split + 1).last() == om[split]);
                assert(kv_wf(om));
                lemma_kv_map_index(om, split);
                assert forall|j: int| 0 <= j < prefix.len() implies #[trigger] prefix[j].key@
                    != om[split].key@ by {
                    assert(prefix[j] == om[j]);
                }
                lemma_kv_map_absent(prefix, om[split].key@);
            }
            let p = self.sites.remove(0);
            proof {
                assert(p == om[split]);
            }
            let KvPair { key, val } = p;
            let SiteEntry { touched, counter: mut c } = val;
            let ghost c0 = c;
            let ghost k0 = om[split].key@;
            let ghost pm2 = kv_map(om.subrange(0, split + 1));
            proof {
                assert(pm2 == kv_map(prefix).insert(k0, om[split].val));
                assert(!kv_map(kept@).contains_key(k0));
                assert(old(self).sites_map().contains_key(k0));
                assert(old(self).sites_map()[k0] == om[split].val);
                assert(c0.wf() && !c0@.stopped);
            }
            let count = c.get_current_visitor_count(now);
            proof {
                assert(count == 0 <==> live_deadlines(c0@.pending, now).len() == 0);
            }
            if touched && count == 0 {
                proof {
                    assert forall|k: Seq<char>| #[trigger] pm2.contains_key(k) implies ({
                        let e = pm2[k];
                        if e.touched && live_deadlines(e.counter@.pending, now).len() == 0 {
                            !kv_map(kept@).contains_key(k)
                        } else {
                            kv_map(kept@).contains_key(k) && kv_map(kept@)[k].touched == e.touched
                                && kv_map(kept@)[k].counter@ == counter_sweep(e.counter@, now)
                        }
                    }) by {
                        if k != k0 {
                            assert(pm2[k] == kv_map(prefix)[k]);
                            assert(kv_map(prefix).contains_key(k));
                        } else {
                            assert(pm2[k] == om[split].val);
                        }
                    }
                    assert(swept(pm2, kv_map(kept@), now));
                }
            } else {
                let ghost km_old = kv_map(kept@);
                kv_push_fresh(&mut kept, KvPair { key, val: SiteEntry { touched, counter: c } });
                proof {
                    let km2 = kv_map(kept@);
                    assert(km2 == km_old.insert(k0, SiteEntry { touched, counter: c }));
                    assert forall|k: Seq<char>| #[trigger] pm2.contains_key(k) implies ({
                        let e = pm2[k];
                        if e.touched && live_deadlines(e.counter@.pending, now).len() == 0 {
                            !km2.contains_key(k)
                        } else {
                            km2.contains_key(k) && km2[k].touched == e.touched
                                && km2[k].counter@ == counter_sweep(e.counter@, now)
                        }
                    }) by {
                        if k != k0 {
                            assert(pm2[k] == kv_map(prefix)[k]);
                            assert(kv_map(prefix).contains_key(k));
                            if km2.contains_key(k) {
                                assert(km2[k] == km_old[k]);
                            }
                        } else {
                            assert(pm2[k] == om[split].val);
                            assert(km2[k] == SiteEntry { touched, counter: c });
                        }
                    }
                    assert forall|k: Seq<char>| #[trigger] km2.contains_key(k) implies
                        pm2.contains_key(k) && km2[k].counter.wf()
                        && !km2[k].counter@.stopped by {
                        if k != k0 {
                            assert(km_old.contains_key(k));
                            assert(km2[k] == km_old[k]);
                            assert(kv_map(prefix).contains_key(k));
                        } else {
                            assert(km2[k] == SiteEntry { touched, counter: c });
                        }
                    }
                    assert(swept(pm2, km2, now));
                }
            }
        }
        proof {
            assert(om.subrange(0, om.len() as int) =~= om);
        }
        self.sites = kept;
        orig_len - self.sites.len()
    }

    /// One step of the master's mailbox loop: dispatches a request at time
    /// `now` (milliseconds) and returns the typed reply.
    pub fn handle(&mut self, msg: MasterMessage, now: u64) -> (reply: MasterReply)
        requires
            old(self).wf(),
            (msg matches MasterMessage::AddSite(m) ==> m.counter.wf() && !m.counter@.stopped),
            (msg matches MasterMessage::AddVisitor(m) ==> (old(self).sites_map().contains_key(
                m.0@,
            ) ==> old(self).sites_map()[m.0@].counter@.pending.len() < u32::MAX && now + old(
                self,
            ).sites_map()[m.0@].counter@.visitor_lifetime <= u64::MAX)),
        ensures
            final(self).wf(),
            final(self).gc == old(self).gc,
            match msg {
                MasterMessage::AddSite(m) => {
                    &&& final(self).sites_map() == spec_add_site(
                        old(self).sites_map(),
                        m.id@,
                        m.counter,
                    )
                    &&& match reply {
                        MasterReply::Added(Some(c)) => old(self).sites_map().contains_key(m.id@)
                            && c@ == counter_stop(old(self).sites_map()[m.id@].counter@),
                        MasterReply::Added(None) => !old(self).sites_map().contains_key(m.id@),
                        _ => false,
                    }
                },
                MasterMessage::AddVisitor(m) => {
                    &&& final(self).sites_map().dom() == old(self).sites_map().dom()
                    &&& match reply {
                        MasterReply::Visitor(Some(res)) => old(self).sites_map().contains_key(
                            m.0@,
                        ) && {
                            let c0 = old(self).sites_map()[m.0@].counter@;
                            &&& final(self).sites_map()[m.0@].touched
                            &&& final(self).sites_map()[m.0@].counter@ == counter_add(c0, now)
                            &&& forall|k: Seq<char>|
                                #[trigger] final(self).sites_map().contains_key(k) && k != m.0@
                                    ==> final(self).sites_map()[k] == old(self).sites_map()[k]
                            &&& res.difficulty_factor == spec_difficulty(
                                c0.defense,
                                counter_add(c0, now).pending.len() as u32,
                            )
                            &&& res.duration == c0.duration
                        },
                        MasterReply::Visitor(None) => !old(self).sites_map().contains_key(m.0@)
                            && final(self).sites@ == old(self).sites@,
                        _ => false,
                    }
                },
                MasterMessage::Rename(m) => {
                    &&& final(self).sites_map() == spec_rename(
                        old(self).sites_map(),
                        m.name@,
                        m.rename_to@,
                    )
                    &&& match reply {
                        MasterReply::Renamed(Some(c)) => old(self).sites_map().contains_key(
                            m.name@,
                        ) && old(self).sites_map().contains_key(m.rename_to@) && m.name@
                            != m.rename_to@ && c@ == counter_stop(
                            old(self).sites_map()[m.rename_to@].counter@,
                        ),
                        MasterReply::Renamed(None) => !old(self).sites_map().contains_key(m.name@)
                            || !old(self).sites_map().contains_key(m.rename_to@) || m.name@
                            == m.rename_to@,
                        _ => false,
                    }
                },
                MasterMessage::GetSite(m) => {
                    &&& final(self).sites_map() == spec_touch(old(self).sites_map(), m.0@)
                    &&& match reply {
                        MasterReply::Site(Some(c)) => old(self).sites_map().contains_key(m.0@)
                            && c@ == old(self).sites_map()[m.0@].counter@,
                        MasterReply::Site(None) => !old(self).sites_map().contains_key(m.0@),
                        _ => false,
                    }
                },
                MasterMessage::RemoveCaptcha(m) => {
                    &&& final(self).sites_map() == old(self).sites_map().remove(m.0@)
                    &&& match reply {
                        MasterReply::Removed(Some(c)) => old(self).sites_map().contains_key(m.0@)
                            && c@ == counter_stop(old(self).sites_map()[m.0@].counter@),
                        MasterReply::Removed(None) => !old(self).sites_map().contains_key(m.0@),
                        _ => false,
                    }
                },
                MasterMessage::CleanUp(_) => {
                    &&& swept(old(self).sites_map(), final(self).sites_map(), now)
                    &&& (reply matches MasterReply::Cleaned(n) && n == old(self).sites@.len()
                        - final(self).sites@.len())
                },
            },
    {
        match msg {
            MasterMessage::AddSite(m) => MasterReply::Added(self.add_site(m.counter, m.id)),
            MasterMessage::AddVisitor(m) => MasterReply::Visitor(self.add_visitor(&m.0, now)),
            MasterMessage::Rename(m) => MasterReply::Renamed(self.rename(m)),
            MasterMessage::GetSite(m) => MasterReply::Site(self.get_site(&m.0)),
            MasterMessage::RemoveCaptcha(m) => MasterReply::Removed(self.remove_captcha(&m.0)),
            MasterMessage::CleanUp(_) => MasterReply::Cleaned(self.cleanup(now)),
        }
    }
}

} // verus!
