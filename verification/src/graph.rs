//! The node's local view of DDS discovery: which remote writers are matched
//! to each local reader, which remote readers to each local writer, and the
//! graph entries of other participants. The spinner applies each transport
//! event to this state; a pair is recorded exactly from its matched event
//! until the loss of the remote entity.

use vstd::prelude::*;
use crate::entities::NodeEntitiesInfo;
use crate::ids::{Gid, Guid};

verus! {

/// A discovery event, reduced to what the bookkeeping reads. Events that
/// carry no graph information are only fanned out to listeners.
#[derive(Clone, Copy, PartialEq, Eq, Structural, Debug)]
pub enum DdsDiscoveryEvent {
    RemoteReaderMatched { local_writer: Guid, remote_reader: Guid },
    RemoteWriterMatched { local_reader: Guid, remote_writer: Guid },
    ReaderLost { reader: Guid },
    WriterLost { writer: Guid },
    Other,
}

/// A map from local entity GUIDs to the set of matched remote GUIDs, held
/// as an association list with unique keys.
pub struct GuidMap {
    pub entries: Vec<(Guid, Vec<Guid>)>,
}

impl GuidMap {
    pub open spec fn wf(&self) -> bool {
        forall|i: int, j: int|
            #![trigger self.entries@[i].0, self.entries@[j].0]
            0 <= i < j < self.entries@.len() ==> self.entries@[i].0 != self.entries@[j].0
    }

    pub open spec fn spec_has_key(&self, local: Guid) -> bool {
        exists|i: int| 0 <= i < self.entries@.len() && self.entries@[i].0 == local
    }

    pub open spec fn spec_key_index(&self, local: Guid) -> int {
        choose|i: int| 0 <= i < self.entries@.len() && self.entries@[i].0 == local
    }

    /// The pair (local, remote) is currently recorded as matched.
    pub open spec fn spec_matched(&self, local: Guid, remote: Guid) -> bool {
        exists|i: int|
            0 <= i < self.entries@.len() && self.entries@[i].0 == local
                && (#[trigger] self.entries@[i]).1@.contains(remote)
    }

    pub fn new() -> (r: GuidMap)
        ensures
            r.wf(),
            r.entries@.len() == 0,
            forall|l: Guid, w: Guid| !r.spec_matched(l, w),
    {
        GuidMap { entries: Vec::new() }
    }

    fn find_key(&self, local: Guid) -> (r: Option<usize>)
        requires
            self.wf(),
        ensures
            r matches Some(i) ==> (i as int) < self.entries@.len() && self.entries@[i as int].0
                == local,
            r.is_none() ==> !self.spec_has_key(local),
    {
        let mut i: usize = 0;
        while i < self.entries.len()
            invariant
                0 <= i <= self.entries@.len(),
                forall|j: int| 0 <= j < i ==> self.entries@[j].0 != local,
            decreases self.entries@.len() - i,
        {
            if self.entries[i].0 == local {
                return Some(i);
            }
            i = i + 1;
        }
        None
    }

    fn set_contains(v: &Vec<Guid>, g: Guid) -> (r: bool)
        ensures
            r == v@.contains(g),
    {
        let mut i: usize = 0;
        while i < v.len()
            invariant
                0 <= i <= v@.len(),
                forall|j: int| 0 <= j < i ==> v@[j] != g,
            decreases v@.len() - i,
        {
            if v[i] == g {
                return true;
            }
            i = i + 1;
        }
        false
    }

    /// Records that the remote entity matched the local one. After the call
    /// the pair is matched; every other pair is as before.
    pub fn insert_matched(&mut self, local: Guid, remote: Guid)
        requires
            old(self).wf(),
        ensures
            final(self).wf(),
            final(self).spec_matched(local, remote),
            forall|l: Guid, r: Guid|
                !(l == local && r == remote) ==> final(self).spec_matched(l, r) == #[trigger] old(self).spec_matched(l, r),
    {
        match self.find_key(local) {
            Some(i) => {
                let ghost pre = self.entries@;
                let already = Self::set_contains(&self.entries[i].1, remote);
                if !already {
                    let mut entry = self.entries.remove(i);
                    entry.1.push(remote);
                    let ghost entryg = entry;
                    self.entries.insert(i, entry);
                    proof {
                        let post = self.entries@;
                        assert(post =~= pre.update(i as int, entryg));
                        assert(entryg.0 == local);
                        assert(entryg.1@ == pre[i as int].1@.push(remote));
                        assert forall|a: int, b: int|
                            #![trigger post[a].0, post[b].0]
                            0 <= a < b < post.len() implies post[a].0 != post[b].0 by {
                            assert(post[a].0 == pre[a].0 && post[b].0 == pre[b].0);
                        }
                        assert(post[i as int].1@.contains(remote)) by {
                            assert(post[i as int].1@.last() == remote);
                        }
                        assert(final(self).spec_matched(local, remote));
                        assert forall|l: Guid, r: Guid|
                            !(l == local && r == remote) implies final(self).spec_matched(l, r)
                            == #[trigger] old(self).spec_matched(l, r) by {
                            if l == local {
                                // same key: the set only grew by `remote`
                                if old(self).spec_matched(l, r) {
                                    let k = choose|k: int|
                                        0 <= k < pre.len() && pre[k].0 == l && (#[trigger] pre[k]).1@.contains(
                                            r,
                                        );
                                    assert(k == i as int);
                                    let m = choose|m: int|
                                        0 <= m < pre[k].1@.len() && pre[k].1@[m] == r;
                                    assert(post[i as int].1@[m] == r);
                                    assert(post[i as int].1@.contains(r));
                                    assert(final(self).spec_matched(l, r));
                                }
                                if final(self).spec_matched(l, r) {
                                    let k = choose|k: int|
                                        0 <= k < post.len() && post[k].0 == l
                                            && (#[trigger] post[k]).1@.contains(r);
                                    assert(k == i as int);
                                    let m = choose|m: int|
                                        0 <= m < post[k].1@.len() && post[k].1@[m] == r;
                                    if m < pre[i as int].1@.len() {
                                        assert(pre[i as int].1@[m] == r);
                                        assert(pre[i as int].1@.contains(r));
                                        assert(old(self).spec_matched(l, r));
                                    } else {
                                        assert(r == remote);
                                    }
                                }
                            } else {
                                // other keys are untouched
                                if old(self).spec_matched(l, r) {
                                    let k = choose|k: int|
                                        0 <= k < pre.len() && pre[k].0 == l && (#[trigger] pre[k]).1@.contains(
                                            r,
                                        );
                                    assert(k != i as int);
                                    assert(post[k] == pre[k]);
                                    assert(final(self).spec_matched(l, r));
                                }
                                if final(self).spec_matched(l, r) {
                                    let k = choose|k: int|
                                        0 <= k < post.len() && post[k].0 == l
                                            && (#[trigger] post[k]).1@.contains(r);
                                    assert(k != i as int);
                                    assert(post[k] == pre[k]);
                                    assert(old(self).spec_matched(l, r));
                                }
                            }
                        }
                    }
                } else {
                    proof {
                        assert(pre[i as int].1@.contains(remote));
                        assert(old(self).spec_matched(local, remote));
                    }
                }
            },
            None => {
                let ghost pre = self.entries@;
                let mut set: Vec<Guid> = Vec::new();
                set.push(remote);
                let ghost setg = set@;
                self.entries.push((local, set));
                proof {
                    let post = self.entries@;
                    assert(post.len() == pre.len() + 1);
                    assert(post.last() == (local, post.last().1));
                    assert(post.last().1@ == setg);
                    assert(setg.len() == 1 && setg[0] == remote);
                    assert forall|a: int, b: int|
                        #![trigger post[a].0, post[b].0]
                        0 <= a < b < post.len() implies post[a].0 != post[b].0 by {
                        if b < pre.len() {
                            assert(post[a] == pre[a] && post[b] == pre[b]);
                        } else {
                            assert(post[a] == pre[a]);
                            assert(!old(self).spec_has_key(local) ==> pre[a].0 != local);
                        }
                    }
                    assert(post[post.len() - 1].1@.contains(remote)) by {
                        assert(post[post.len() - 1].1@[0] == remote);
                    }
                    assert(final(self).spec_matched(local, remote));
                    assert forall|l: Guid, r: Guid|
                        !(l == local && r == remote) implies final(self).spec_matched(l, r)
                        == #[trigger] old(self).spec_matched(l, r) by {
                        if old(self).spec_matched(l, r) {
                            let k = choose|k: int|
                                0 <= k < pre.len() && pre[k].0 == l && (#[trigger] pre[k]).1@.contains(
                                    r,
                                );
                            assert(post[k] == pre[k]);
                            assert(final(self).spec_matched(l, r));
                        }
                        if final(self).spec_matched(l, r) {
                            let k = choose|k: int|
                                0 <= k < post.len() && post[k].0 == l && (#[trigger] post[k]).1@.contains(
                                    r,
                                );
                            if k < pre.len() {
                                assert(pre[k] == post[k]);
                                assert(old(self).spec_matched(l, r));
                            } else {
                                assert(post[k].0 == local);
                                let m = choose|m: int|
                                    0 <= m < post[k].1@.len() && post[k].1@[m] == r;
                                assert(post[k].1@.len() == 1);
                                assert(r == remote);
                            }
                        }
                    }
                }
            },
        }
    }

    /// Records the loss of a remote entity: the remote GUID leaves every
    /// set. After the call no pair with this remote is matched; every pair
    /// with another remote is as before.
    pub fn remove_remote(&mut self, remote: Guid)
        requires
            old(self).wf(),
        ensures
            final(self).wf(),
            forall|l: Guid| !final(self).spec_matched(l, remote),
            forall|l: Guid, r: Guid|
                r != remote ==> final(self).spec_matched(l, r) == #[trigger] old(self).spec_matched(
                    l,
                    r,
                ),
    {
        let mut i: usize = 0;
        while i < self.entries.len()
            invariant
                old(self).wf(),
                0 <= i <= self.entries@.len(),
                self.entries@.len() == old(self).entries@.len(),
                forall|j: int|
                    0 <= j < self.entries@.len() ==> (#[trigger] self.entries@[j]).0 == old(self).entries@[j].0,
                forall|j: int|
                    0 <= j < i ==> !(#[trigger] self.entries@[j]).1@.contains(remote),
                forall|j: int, r: Guid|
                    #![trigger self.entries@[j].1@.contains(r)]
                    0 <= j < self.entries@.len() && r != remote ==> (self.entries@[j].1@.contains(
                        r,
                    ) == old(self).entries@[j].1@.contains(r)),
                forall|j: int|
                    i <= j < self.entries@.len() ==> (#[trigger] self.entries@[j]).1@ == old(self).entries@[j].1@,
            decreases self.entries@.len() - i,
    {
            let ghost pre_iter = self.entries@;
            let mut entry = self.entries.remove(i);
            let mut kept: Vec<Guid> = Vec::new();
            let mut k: usize = 0;
            while k < entry.1.len()
                invariant
                    0 <= k <= entry.1@.len(),
                    forall|m: int| 0 <= m < kept@.len() ==> #[trigger] kept@[m] != remote,
                    forall|r: Guid|
                        r != remote ==> (kept@.contains(r) == entry.1@.subrange(
                            0,
                            k as int,
                        ).contains(r)),
                decreases entry.1@.len() - k,
            {
                let g = entry.1[k];
                let ghost kept_pre = kept@;
                if g.hi != remote.hi || g.lo != remote.lo {
                    kept.push(g);
                }
                k = k + 1;
                proof {
                    let sub = entry.1@.subrange(0, k as int);
                    assert(sub.drop_last() =~= entry.1@.subrange(0, k as int - 1));
                    assert(sub.last() == g);
                    assert forall|r: Guid|
                        r != remote implies (kept@.contains(r) == sub.contains(r)) by {
                        if sub.contains(r) {
                            let m = choose|m: int| 0 <= m < sub.len() && sub[m] == r;
                            if m < sub.len() - 1 {
                                assert(sub.drop_last()[m] == r);
                                assert(sub.drop_last().contains(r));
                            }
                        }
                        if kept@.contains(r) {
                            let m = choose|m: int| 0 <= m < kept@.len() && kept@[m] == r;
                            if m < kept_pre.len() {
                                assert(kept_pre[m] == r);
                                assert(kept_pre.contains(r));
                            }
                        }
                        if g != remote && g == r {
                            assert(kept@.last() == g || kept@.contains(r));
                            assert(kept@.contains(r));
                        }
                        if sub.drop_last().contains(r) {
                            let m = choose|m: int|
                                0 <= m < sub.drop_last().len() && sub.drop_last()[m] == r;
                            assert(sub[m] == r);
                            assert(sub.contains(r));
                        }
                        if kept_pre.contains(r) {
                            let m = choose|m: int| 0 <= m < kept_pre.len() && kept_pre[m] == r;
                            assert(kept@[m] == r);
                            assert(kept@.contains(r));
                        }
                    }
                }
            }
            proof {
                assert(entry.1@.subrange(0, entry.1@.len() as int) =~= entry.1@);
            }
            entry.1 = kept;
            let ghost entryg = entry;
            self.entries.insert(i, entry);
            proof {
                assert(self.entries@ =~= pre_iter.update(i as int, entryg));
            }
            i = i + 1;
        }
        proof {
            let post = self.entries@;
            assert forall|a: int, b: int|
                #![trigger post[a].0, post[b].0]
                0 <= a < b < post.len() implies post[a].0 != post[b].0 by {
                assert(post[a].0 == old(self).entries@[a].0 && post[b].0 == old(self).entries@[b].0);
            }
            assert forall|l: Guid| !final(self).spec_matched(l, remote) by {
                if final(self).spec_matched(l, remote) {
                    let k = choose|k: int|
                        0 <= k < post.len() && post[k].0 == l && (#[trigger] post[k]).1@.contains(
                            remote,
                        );
                }
            }
            assert forall|l: Guid, r: Guid|
                r != remote implies final(self).spec_matched(l, r) == #[trigger] old(self).spec_matched(l, r) by {
                if old(self).spec_matched(l, r) {
                    let k = choose|k: int|
                        0 <= k < old(self).entries@.len() && old(self).entries@[k].0 == l && (
                        #[trigger] old(self).entries@[k]).1@.contains(r);
                    assert(post[k].0 == l && post[k].1@.contains(r));
                    assert(final(self).spec_matched(l, r));
                }
                if final(self).spec_matched(l, r) {
                    let k = choose|k: int|
                        0 <= k < post.len() && post[k].0 == l && (#[trigger] post[k]).1@.contains(
                            r,
                        );
                    assert(old(self).entries@[k].0 == l && old(self).entries@[k].1@.contains(r));
                    assert(old(self).spec_matched(l, r));
                }
            }
        }
    }

    /// How many remote entities are matched to the local one; zero for a
    /// local GUID the map does not know.
    pub fn count_for(&self, local: Guid) -> (r: usize)
        requires
            self.wf(),
        ensures
            self.spec_has_key(local) ==> r == self.entries@[self.spec_key_index(local)].1@.len(),
            !self.spec_has_key(local) ==> r == 0,
    {
        match self.find_key(local) {
            Some(i) => {
                proof {
                    let k = self.spec_key_index(local);
                    assert(self.spec_has_key(local));
                    assert(0 <= k < self.entries@.len() && self.entries@[k].0 == local);
                    assert(k == i as int);
                }
                self.entries[i].1.len()
            },
            None => 0,
        }
    }

    /// Whether any remote entity is matched to the local one.
    pub fn has_matches(&self, local: Guid) -> (r: bool)
        requires
            self.wf(),
        ensures
            r == exists|remote: Guid| self.spec_matched(local, remote),
    {
        let n = self.count_for(local);
        proof {
            if self.spec_has_key(local) {
                let k = self.spec_key_index(local);
                assert(0 <= k < self.entries@.len() && self.entries@[k].0 == local);
                if self.entries@[k].1@.len() > 0 {
                    let r0 = self.entries@[k].1@[0];
                    assert(self.entries@[k].1@.contains(r0));
                    assert(self.spec_matched(local, r0));
                } else {
                    assert forall|remote: Guid| !self.spec_matched(local, remote) by {
                        if self.spec_matched(local, remote) {
                            let m = choose|m: int|
                                0 <= m < self.entries@.len() && self.entries@[m].0 == local && (
                                #[trigger] self.entries@[m]).1@.contains(remote);
                            assert(m == k);
                        }
                    }
                }
            } else {
                assert forall|remote: Guid| !self.spec_matched(local, remote) by {
                    if self.spec_matched(local, remote) {
                        let m = choose|m: int|
                            0 <= m < self.entries@.len() && self.entries@[m].0 == local && (
                            #[trigger] self.entries@[m]).1@.contains(remote);
                        assert(self.spec_has_key(local));
                    }
                }
            }
        }
        n > 0
    }
}

/// The whole local discovery view one spinner maintains for its node.
pub struct GraphState {
    pub readers_to_remote_writers: GuidMap,
    pub writers_to_remote_readers: GuidMap,
    pub external_nodes: Vec<(Gid, Vec<NodeEntitiesInfo>)>,
}

/// What applying one discovery event does to the two matching maps: a
/// matched event records its pair, a lost event clears the lost entity from
/// every set, and nothing else changes.
pub open spec fn apply_event_post(pre: GraphState, post: GraphState, ev: DdsDiscoveryEvent) -> bool {
    &&& post.readers_to_remote_writers.wf()
    &&& post.writers_to_remote_readers.wf()
    &&& post.external_nodes == pre.external_nodes
    &&& (match ev {
        DdsDiscoveryEvent::RemoteWriterMatched { local_reader, remote_writer } => {
            &&& post.readers_to_remote_writers.spec_matched(local_reader, remote_writer)
            &&& (forall|l: Guid, r: Guid|
                !(l == local_reader && r == remote_writer)
                    ==> post.readers_to_remote_writers.spec_matched(l, r)
                    == #[trigger] pre.readers_to_remote_writers.spec_matched(l, r))
            &&& (forall|l: Guid, r: Guid|
                post.writers_to_remote_readers.spec_matched(l, r)
                    == #[trigger] pre.writers_to_remote_readers.spec_matched(l, r))
        },
        DdsDiscoveryEvent::RemoteReaderMatched { local_writer, remote_reader } => {
            &&& post.writers_to_remote_readers.spec_matched(local_writer, remote_reader)
            &&& (forall|l: Guid, r: Guid|
                !(l == local_writer && r == remote_reader)
                    ==> post.writers_to_remote_readers.spec_matched(l, r)
                    == #[trigger] pre.writers_to_remote_readers.spec_matched(l, r))
            &&& (forall|l: Guid, r: Guid|
                post.readers_to_remote_writers.spec_matched(l, r)
                    == #[trigger] pre.readers_to_remote_writers.spec_matched(l, r))
        },
        DdsDiscoveryEvent::WriterLost { writer } => {
            &&& (forall|l: Guid|
                !(#[trigger] post.readers_to_remote_writers.spec_matched(l, writer)))
            &&& (forall|l: Guid, r: Guid|
                r != writer ==> post.readers_to_remote_writers.spec_matched(l, r)
                    == #[trigger] pre.readers_to_remote_writers.spec_matched(l, r))
            &&& (forall|l: Guid, r: Guid|
                post.writers_to_remote_readers.spec_matched(l, r)
                    == #[trigger] pre.writers_to_remote_readers.spec_matched(l, r))
        },
        DdsDiscoveryEvent::ReaderLost { reader } => {
            &&& (forall|l: Guid|
                !(#[trigger] post.writers_to_remote_readers.spec_matched(l, reader)))
            &&& (forall|l: Guid, r: Guid|
                r != reader ==> post.writers_to_remote_readers.spec_matched(l, r)
                    == #[trigger] pre.writers_to_remote_readers.spec_matched(l, r))
            &&& (forall|l: Guid, r: Guid|
                post.readers_to_remote_writers.spec_matched(l, r)
                    == #[trigger] pre.readers_to_remote_writers.spec_matched(l, r))
        },
        DdsDiscoveryEvent::Other => {
            &&& (forall|l: Guid, r: Guid|
                post.readers_to_remote_writers.spec_matched(l, r)
                    == #[trigger] pre.readers_to_remote_writers.spec_matched(l, r))
            &&& (forall|l: Guid, r: Guid|
                post.writers_to_remote_readers.spec_matched(l, r)
                    == #[trigger] pre.writers_to_remote_readers.spec_matched(l, r))
        },
    })
}

impl GraphState {
    pub open spec fn wf(&self) -> bool {
        &&& self.readers_to_remote_writers.wf()
        &&& self.writers_to_remote_readers.wf()
        &&& (forall|i: int, j: int|
            #![trigger self.external_nodes@[i].0, self.external_nodes@[j].0]
            0 <= i < j < self.external_nodes@.len() ==> self.external_nodes@[i].0
                != self.external_nodes@[j].0)
    }

    /// A fresh view: nothing matched, no other participants known.
    pub fn new() -> (r: GraphState)
        ensures
            r.wf(),
            forall|l: Guid, w: Guid| !r.readers_to_remote_writers.spec_matched(l, w),
            forall|l: Guid, w: Guid| !r.writers_to_remote_readers.spec_matched(l, w),
            r.external_nodes@.len() == 0,
    {
        GraphState {
            readers_to_remote_writers: GuidMap::new(),
            writers_to_remote_readers: GuidMap::new(),
            external_nodes: Vec::new(),
        }
    }

    /// Applies one discovery event to the matching maps, as the spinner does
    /// for each event the transport reports.
    pub fn apply_discovery_event(&mut self, ev: &DdsDiscoveryEvent)
        requires
            old(self).wf(),
        ensures
            final(self).wf(),
            apply_event_post(*old(self), *final(self), *ev),
    {
        match ev {
            DdsDiscoveryEvent::RemoteWriterMatched { local_reader, remote_writer } => {
                self.readers_to_remote_writers.insert_matched(*local_reader, *remote_writer);
            },
            DdsDiscoveryEvent::RemoteReaderMatched { local_writer, remote_reader } => {
                self.writers_to_remote_readers.insert_matched(*local_writer, *remote_reader);
            },
            DdsDiscoveryEvent::WriterLost { writer } => {
                self.readers_to_remote_writers.remove_remote(*writer);
            },
            DdsDiscoveryEvent::ReaderLost { reader } => {
                self.writers_to_remote_readers.remove_remote(*reader);
            },
            DdsDiscoveryEvent::Other => {
            },
        }
    }

    /// Whether another participant is known under this gid.
    pub open spec fn spec_has_participant(&self, gid: Gid) -> bool {
        exists|i: int|
            0 <= i < self.external_nodes@.len() && (#[trigger] self.external_nodes@[i]).0 == gid
    }

    /// The index of the participant's entry (meaningful when the gid is
    /// known).
    pub open spec fn spec_participant_index(&self, gid: Gid) -> int {
        choose|i: int|
            0 <= i < self.external_nodes@.len() && (#[trigger] self.external_nodes@[i]).0 == gid
    }

    fn find_participant(&self, gid: Gid) -> (r: Option<usize>)
        requires
            self.wf(),
        ensures
            r matches Some(i) ==> (i as int) < self.external_nodes@.len()
                && self.external_nodes@[i as int].0 == gid && self.spec_participant_index(gid)
                == i && self.spec_has_participant(gid),
            r.is_none() ==> !self.spec_has_participant(gid),
    {
        let mut i: usize = 0;
        while i < self.external_nodes.len()
            invariant
                self.wf(),
                0 <= i <= self.external_nodes@.len(),
                forall|j: int| 0 <= j < i ==> self.external_nodes@[j].0 != gid,
            decreases self.external_nodes@.len() - i,
        {
            if self.external_nodes[i].0 == gid {
                proof {
                    assert(self.spec_has_participant(gid));
                    let k = self.spec_participant_index(gid);
                    assert(0 <= k < self.external_nodes@.len() && self.external_nodes@[k].0
                        == gid);
                    assert(k == i as int);
                }
                return Some(i);
            }
            i = i + 1;
        }
        None
    }

    /// Records one sample of the graph topic: the participant's node list
    /// replaces whatever was known under its gid, entry for entry, and no
    /// other participant's entry moves.
    pub fn update_external_nodes(&mut self, gid: Gid, nodes: Vec<NodeEntitiesInfo>)
        requires
            old(self).wf(),
        ensures
            final(self).wf(),
            final(self).readers_to_remote_writers == old(self).readers_to_remote_writers,
            final(self).writers_to_remote_readers == old(self).writers_to_remote_readers,
            old(self).spec_has_participant(gid) ==> final(self).external_nodes@ == old(
                self).external_nodes@.update(old(self).spec_participant_index(gid), (gid, nodes)),
            !old(self).spec_has_participant(gid) ==> final(self).external_nodes@ == old(
                self).external_nodes@.push((gid, nodes)),
    {
        match self.find_participant(gid) {
            Some(i) => {
                let ghost pre = self.external_nodes@;
                self.external_nodes.remove(i);
                self.external_nodes.insert(i, (gid, nodes));
                proof {
                    let post = self.external_nodes@;
                    assert(post =~= pre.update(i as int, (gid, nodes)));
                    assert forall|a: int, b: int|
                        #![trigger post[a].0, post[b].0]
                        0 <= a < b < post.len() implies post[a].0 != post[b].0 by {
                        assert(pre[i as int].0 == gid);
                        if a != i as int {
                            assert(post[a] == pre[a]);
                        }
                        if b != i as int {
                            assert(post[b] == pre[b]);
                        }
                    }
                }
            },
            None => {
                let ghost pre = self.external_nodes@;
                self.external_nodes.push((gid, nodes));
                proof {
                    let post = self.external_nodes@;
                    assert forall|a: int, b: int|
                        #![trigger post[a].0, post[b].0]
                        0 <= a < b < post.len() implies post[a].0 != post[b].0 by {
                        if b < pre.len() {
                            assert(post[a] == pre[a] && post[b] == pre[b]);
                        } else {
                            assert(post[a] == pre[a]);
                            assert(!old(self).spec_has_participant(gid) ==> pre[a].0 != gid);
                        }
                    }
                }
            },
        }
    }
}

impl GraphState {
    /// How many remote writers match a local subscription: what the node
    /// reports as its publisher count. Zero for an unknown reader.
    pub fn get_publisher_count(&self, subscription_guid: Guid) -> (r: usize)
        requires
            self.wf(),
        ensures
            self.readers_to_remote_writers.spec_has_key(subscription_guid) ==> r
                == self.readers_to_remote_writers.entries@[self.readers_to_remote_writers.spec_key_index(
                subscription_guid,
            )].1@.len(),
            !self.readers_to_remote_writers.spec_has_key(subscription_guid) ==> r == 0,
    {
        self.readers_to_remote_writers.count_for(subscription_guid)
    }

    /// How many remote readers match a local publisher: what the node
    /// reports as its subscription count. Zero for an unknown writer.
    pub fn get_subscription_count(&self, publisher_guid: Guid) -> (r: usize)
        requires
            self.wf(),
        ensures
            self.writers_to_remote_readers.spec_has_key(publisher_guid) ==> r
                == self.writers_to_remote_readers.entries@[self.writers_to_remote_readers.spec_key_index(
                publisher_guid,
            )].1@.len(),
            !self.writers_to_remote_readers.spec_has_key(publisher_guid) ==> r == 0,
    {
        self.writers_to_remote_readers.count_for(publisher_guid)
    }
}

/// The pair (reader, writer) is matched according to a history of events:
/// some matched event names it, and the writer is not lost afterwards.
pub open spec fn matched_in_history(
    events: Seq<DdsDiscoveryEvent>,
    reader: Guid,
    writer: Guid,
) -> bool {
    exists|i: int|
        0 <= i < events.len() && events[i] == (DdsDiscoveryEvent::RemoteWriterMatched {
            local_reader: reader,
            remote_writer: writer,
        }) && (forall|k: int|
            i < k < events.len() ==> #[trigger] events[k] != (DdsDiscoveryEvent::WriterLost {
                writer,
            }))
}

/// Law: starting from an empty view and applying any history of discovery
/// events, a remote writer is in a local reader's matched set exactly when
/// the history holds a matched event for the pair with no later loss of the
/// writer — between the matched and lost events, and not outside them.
pub proof fn lemma_matched_between_events(
    states: Seq<GraphState>,
    events: Seq<DdsDiscoveryEvent>,
    reader: Guid,
    writer: Guid,
    n: int,
)
    requires
        states.len() == events.len() + 1,
        forall|l: Guid, w: Guid| !states[0].readers_to_remote_writers.spec_matched(l, w),
        forall|k: int|
            0 <= k < events.len() ==> apply_event_post(#[trigger] states[k], states[k + 1],
                events[k]),
        0 <= n <= events.len(),
    ensures
        states[n].readers_to_remote_writers.spec_matched(reader, writer) == matched_in_history(
            events.subrange(0, n),
            reader,
            writer,
        ),
    decreases n,
{
    let prefix = events.subrange(0, n);
    if n == 0 {
        assert(prefix.len() == 0);
        assert(!matched_in_history(prefix, reader, writer));
    } else {
        lemma_matched_between_events(states, events, reader, writer, n - 1);
        let shorter = events.subrange(0, n - 1);
        let e = events[n - 1];
        assert(apply_event_post(states[n - 1], states[n], e));
        assert(prefix.len() == n);
        assert(prefix[n - 1] == e);
        assert(forall|k: int| 0 <= k < n - 1 ==> prefix[k] == #[trigger] shorter[k]);
        let matched_ev = DdsDiscoveryEvent::RemoteWriterMatched {
            local_reader: reader,
            remote_writer: writer,
        };
        let lost_ev = DdsDiscoveryEvent::WriterLost { writer };
        if e == matched_ev {
            assert(states[n].readers_to_remote_writers.spec_matched(reader, writer));
            assert(matched_in_history(prefix, reader, writer)) by {
                assert(prefix[n - 1] == matched_ev);
                assert(forall|k: int| n - 1 < k < prefix.len() ==> #[trigger] prefix[k] != lost_ev);
            }
        } else if e == lost_ev {
            assert(!states[n].readers_to_remote_writers.spec_matched(reader, writer)) by {
                assert(apply_event_post(states[n - 1], states[n], lost_ev));
                assert(states[n].readers_to_remote_writers.wf());
                assert(match lost_ev {
                    DdsDiscoveryEvent::WriterLost { writer: w } => w == writer,
                    _ => false,
                });
            }
            assert(!matched_in_history(prefix, reader, writer)) by {
                if matched_in_history(prefix, reader, writer) {
                    let i = choose|i: int|
                        0 <= i < prefix.len() && prefix[i] == matched_ev && (forall|k: int|
                            i < k < prefix.len() ==> #[trigger] prefix[k] != lost_ev);
                    assert(prefix[i] != prefix[n - 1]);
                    assert(i < n - 1);
                    assert(prefix[n - 1] != lost_ev);
                }
            }
        } else {
            assert(states[n].readers_to_remote_writers.spec_matched(reader, writer) == states[n
                - 1].readers_to_remote_writers.spec_matched(reader, writer));
            assert(matched_in_history(prefix, reader, writer) == matched_in_history(
                shorter,
                reader,
                writer,
            )) by {
                if matched_in_history(shorter, reader, writer) {
                    let i = choose|i: int|
                        0 <= i < shorter.len() && shorter[i] == matched_ev && (forall|k: int|
                            i < k < shorter.len() ==> #[trigger] shorter[k] != lost_ev);
                    assert(prefix[i] == matched_ev);
                    assert forall|k: int| i < k < prefix.len() implies #[trigger] prefix[k]
                        != lost_ev by {
                        if k < n - 1 {
                            assert(prefix[k] == shorter[k]);
                        } else {
                            assert(prefix[k] == e);
                        }
                    }
                    assert(matched_in_history(prefix, reader, writer));
                }
                if matched_in_history(prefix, reader, writer) {
                    let i = choose|i: int|
                        0 <= i < prefix.len() && prefix[i] == matched_ev && (forall|k: int|
                            i < k < prefix.len() ==> #[trigger] prefix[k] != lost_ev);
                    assert(i != n - 1);
                    assert(shorter[i] == matched_ev);
                    assert forall|k: int| i < k < shorter.len() implies #[trigger] shorter[k]
                        != lost_ev by {
                        assert(shorter[k] == prefix[k]);
                    }
                    assert(matched_in_history(shorter, reader, writer));
                }
            }
        }
    }
}

} // verus!
