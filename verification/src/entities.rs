//! What the graph-discovery topic carries: the entities each local node
//! owns, aggregated over the participant, and the registry the context
//! rebuilds the aggregate from whenever local membership changes.

use vstd::prelude::*;
use crate::ids::Gid;
use crate::names::{append_bytes, copy_range};

verus! {

/// A node's fully-qualified name plus the readers and writers it owns.
pub struct NodeEntitiesInfo {
    pub node_name: Vec<u8>,
    pub reader_guids: Vec<Gid>,
    pub writer_guids: Vec<Gid>,
}

fn copy_gids(v: &Vec<Gid>) -> (r: Vec<Gid>)
    ensures
        r@ == v@,
{
    let mut out: Vec<Gid> = Vec::new();
    let mut i: usize = 0;
    while i < v.len()
        invariant
            0 <= i <= v@.len(),
            out@ == v@.subrange(0, i as int),
        decreases v@.len() - i,
    {
        out.push(v[i]);
        i = i + 1;
        proof {
            assert(v@.subrange(0, i as int) =~= v@.subrange(0, i as int - 1).push(
                v@[i as int - 1],
            ));
        }
    }
    proof {
        assert(v@.subrange(0, v@.len() as int) =~= v@);
    }
    out
}

impl NodeEntitiesInfo {
    /// A fresh entry for one node: its name, no entities yet.
    pub fn new(node_name: Vec<u8>) -> (r: NodeEntitiesInfo)
        ensures
            r.node_name@ == node_name@,
            r.reader_guids@.len() == 0,
            r.writer_guids@.len() == 0,
    {
        NodeEntitiesInfo { node_name, reader_guids: Vec::new(), writer_guids: Vec::new() }
    }

    pub fn add_reader(&mut self, reader: Gid)
        ensures
            final(self).node_name@ == old(self).node_name@,
            final(self).reader_guids@ == old(self).reader_guids@.push(reader),
            final(self).writer_guids@ == old(self).writer_guids@,
    {
        self.reader_guids.push(reader);
    }

    pub fn add_writer(&mut self, writer: Gid)
        ensures
            final(self).node_name@ == old(self).node_name@,
            final(self).reader_guids@ == old(self).reader_guids@,
            final(self).writer_guids@ == old(self).writer_guids@.push(writer),
    {
        self.writer_guids.push(writer);
    }

    /// A copy carrying the same name and entity lists.
    pub fn duplicate(&self) -> (r: NodeEntitiesInfo)
        ensures
            r.node_name@ == self.node_name@,
            r.reader_guids@ == self.reader_guids@,
            r.writer_guids@ == self.writer_guids@,
    {
        NodeEntitiesInfo {
            node_name: copy_range(&self.node_name, 0, self.node_name.len()),
            reader_guids: copy_gids(&self.reader_guids),
            writer_guids: copy_gids(&self.writer_guids),
        }
    }
}

/// One sample of the graph-discovery topic: the participant and the nodes it
/// currently hosts, with their entities.
pub struct ParticipantEntitiesInfo {
    pub gid: Gid,
    pub nodes: Vec<NodeEntitiesInfo>,
}

/// Two node entries carry the same content.
pub open spec fn same_node_info(a: NodeEntitiesInfo, b: NodeEntitiesInfo) -> bool {
    &&& a.node_name@ == b.node_name@
    &&& a.reader_guids@ == b.reader_guids@
    &&& a.writer_guids@ == b.writer_guids@
}

/// The context's registry of local nodes, keyed by fully-qualified name:
/// what the participant's graph publication is rebuilt from.
pub struct ContextRegistry {
    pub participant_gid: Gid,
    pub nodes: Vec<NodeEntitiesInfo>,
}

impl ContextRegistry {
    /// No node name appears twice.
    pub open spec fn wf(&self) -> bool {
        forall|i: int, j: int|
            #![trigger self.nodes@[i].node_name, self.nodes@[j].node_name]
            0 <= i < j < self.nodes@.len() ==> self.nodes@[i].node_name@
                != self.nodes@[j].node_name@
    }

    pub open spec fn spec_has_node(&self, name: Seq<u8>) -> bool {
        exists|i: int| 0 <= i < self.nodes@.len() && self.nodes@[i].node_name@ == name
    }

    pub open spec fn spec_node_index(&self, name: Seq<u8>) -> int {
        choose|i: int| 0 <= i < self.nodes@.len() && self.nodes@[i].node_name@ == name
    }

    pub fn new(participant_gid: Gid) -> (r: ContextRegistry)
        ensures
            r.wf(),
            r.participant_gid == participant_gid,
            r.nodes@.len() == 0,
    {
        ContextRegistry { participant_gid, nodes: Vec::new() }
    }

    fn find_node(&self, name: &Vec<u8>) -> (r: Option<usize>)
        requires
            self.wf(),
        ensures
            r matches Some(i) ==> (i as int) < self.nodes@.len() && self.nodes@[i as int].node_name@
                == name@,
            r.is_none() ==> !self.spec_has_node(name@),
    {
        let mut i: usize = 0;
        while i < self.nodes.len()
            invariant
                0 <= i <= self.nodes@.len(),
                forall|j: int| 0 <= j < i ==> self.nodes@[j].node_name@ != name@,
            decreases self.nodes@.len() - i,
        {
            if self.nodes[i].node_name == *name {
                return Some(i);
            }
            i = i + 1;
        }
        None
    }

    /// Records a node's current entities, replacing any earlier entry under
    /// the same name. Called whenever a node's membership changes, before
    /// the refreshed aggregate is published.
    pub fn update_node(&mut self, info: NodeEntitiesInfo)
        requires
            old(self).wf(),
        ensures
            final(self).wf(),
            final(self).participant_gid == old(self).participant_gid,
            final(self).spec_has_node(info.node_name@),
            old(self).spec_has_node(info.node_name@) ==> final(self).nodes@ == old(
                self,
            ).nodes@.update(old(self).spec_node_index(info.node_name@), info),
            !old(self).spec_has_node(info.node_name@) ==> final(self).nodes@ == old(
                self,
            ).nodes@.push(info),
    {
        match self.find_node(&info.node_name) {
            Some(i) => {
                proof {
                    let pre = old(self).nodes@;
                    let k = old(self).spec_node_index(info.node_name@);
                    assert(old(self).spec_has_node(info.node_name@));
                    assert(0 <= k < pre.len() && pre[k].node_name@ == info.node_name@);
                    assert(k == i as int);
                }
                self.nodes.remove(i);
                self.nodes.insert(i, info);
                proof {
                    let pre = old(self).nodes@;
                    let post = self.nodes@;
                    assert(post =~= pre.update(i as int, info));
                    assert forall|a: int, b: int|
                        #![trigger post[a].node_name, post[b].node_name]
                        0 <= a < b < post.len() implies post[a].node_name@
                        != post[b].node_name@ by {
                        if a != i as int && b != i as int {
                            assert(post[a] == pre[a] && post[b] == pre[b]);
                        } else if a == i as int {
                            assert(post[b] == pre[b]);
                            assert(pre[i as int].node_name@ == info.node_name@);
                        } else {
                            assert(post[a] == pre[a]);
                            assert(pre[i as int].node_name@ == info.node_name@);
                        }
                    }
                    assert(post[i as int].node_name@ == info.node_name@);
                }
            },
            None => {
                self.nodes.push(info);
                proof {
                    let pre = old(self).nodes@;
                    let post = self.nodes@;
                    assert forall|a: int, b: int|
                        #![trigger post[a].node_name, post[b].node_name]
                        0 <= a < b < post.len() implies post[a].node_name@
                        != post[b].node_name@ by {
                        if b < pre.len() {
                            assert(post[a] == pre[a] && post[b] == pre[b]);
                        } else {
                            assert(post[a] == pre[a]);
                            assert(!old(self).spec_has_node(info.node_name@) ==> pre[a].node_name@
                                != info.node_name@);
                        }
                    }
                    assert(post[post.len() - 1].node_name@ == info.node_name@);
                }
            },
        }
    }

    /// Takes a node out of the registry. After this, no entry carries the
    /// name; the refreshed aggregate published next shows the node absent.
    pub fn remove_node(&mut self, name: &Vec<u8>)
        requires
            old(self).wf(),
        ensures
            final(self).wf(),
            final(self).participant_gid == old(self).participant_gid,
            !final(self).spec_has_node(name@),
            old(self).spec_has_node(name@) ==> final(self).nodes@ == old(self).nodes@.remove(
                old(self).spec_node_index(name@),
            ),
            !old(self).spec_has_node(name@) ==> final(self).nodes@ == old(self).nodes@,
    {
        match self.find_node(name) {
            None => {
            },
            Some(i) => {
                proof {
                    let pre = old(self).nodes@;
                    let k = old(self).spec_node_index(name@);
                    assert(old(self).spec_has_node(name@));
                    assert(0 <= k < pre.len() && pre[k].node_name@ == name@);
                    assert(k == i as int);
                }
                self.nodes.remove(i);
                proof {
                    let pre = old(self).nodes@;
                    let post = self.nodes@;
                    assert forall|a: int, b: int|
                        #![trigger post[a].node_name, post[b].node_name]
                        0 <= a < b < post.len() implies post[a].node_name@
                        != post[b].node_name@ by {
                        let pa: int = if a < i as int {
                            a
                        } else {
                            a + 1
                        };
                        let pb: int = if b < i as int {
                            b
                        } else {
                            b + 1
                        };
                        assert(post[a] == pre[pa] && post[b] == pre[pb]);
                    }
                    assert forall|k: int|
                        0 <= k < post.len() implies #[trigger] post[k].node_name@ != name@ by {
                        if k < i as int {
                            assert(post[k] == pre[k]);
                        } else {
                            assert(post[k] == pre[k + 1]);
                        }
                    }
                }
            },
        }
    }

    /// The aggregate the participant publishes on the graph topic: its gid
    /// and a copy of every registered node's entry.
    pub fn participant_info(&self) -> (r: ParticipantEntitiesInfo)
        ensures
            r.gid == self.participant_gid,
            r.nodes@.len() == self.nodes@.len(),
            forall|i: int|
                0 <= i < self.nodes@.len() ==> same_node_info(
                    #[trigger] r.nodes@[i],
                    self.nodes@[i],
                ),
    {
        let mut nodes: Vec<NodeEntitiesInfo> = Vec::new();
        let mut i: usize = 0;
        while i < self.nodes.len()
            invariant
                0 <= i <= self.nodes@.len(),
                nodes@.len() == i,
                forall|j: int|
                    0 <= j < i ==> same_node_info(#[trigger] nodes@[j], self.nodes@[j]),
            decreases self.nodes@.len() - i,
        {
            nodes.push(self.nodes[i].duplicate());
            i = i + 1;
        }
        ParticipantEntitiesInfo { gid: self.participant_gid, nodes }
    }
}

/// Law: dropping a node publishes its absence. Once the node is removed
/// from the registry, the aggregate built for publication carries no entry
/// under the node's name.
pub proof fn lemma_removed_node_absent(
    reg: ContextRegistry,
    info: ParticipantEntitiesInfo,
    name: Seq<u8>,
)
    requires
        !reg.spec_has_node(name),
        info.nodes@.len() == reg.nodes@.len(),
        forall|i: int|
            0 <= i < reg.nodes@.len() ==> same_node_info(#[trigger] info.nodes@[i], reg.nodes@[i]),
    ensures
        forall|i: int| 0 <= i < info.nodes@.len() ==> #[trigger] info.nodes@[i].node_name@ != name,
{
    assert forall|i: int|
        0 <= i < info.nodes@.len() implies #[trigger] info.nodes@[i].node_name@ != name by {
        assert(same_node_info(info.nodes@[i], reg.nodes@[i]));
        assert(!reg.spec_has_node(name) ==> reg.nodes@[i].node_name@ != name);
    }
}

impl ParticipantEntitiesInfo {
    /// A copy carrying the same participant and node entries.
    pub fn duplicate(&self) -> (r: ParticipantEntitiesInfo)
        ensures
            r.gid == self.gid,
            r.nodes@.len() == self.nodes@.len(),
            forall|i: int|
                0 <= i < self.nodes@.len() ==> same_node_info(#[trigger] r.nodes@[i],
                    self.nodes@[i]),
    {
        let mut nodes: Vec<NodeEntitiesInfo> = Vec::new();
        let mut i: usize = 0;
        while i < self.nodes.len()
            invariant
                0 <= i <= self.nodes@.len(),
                nodes@.len() == i,
                forall|j: int|
                    0 <= j < i ==> same_node_info(#[trigger] nodes@[j], self.nodes@[j]),
            decreases self.nodes@.len() - i,
        {
            nodes.push(self.nodes[i].duplicate());
            i = i + 1;
        }
        ParticipantEntitiesInfo { gid: self.gid, nodes }
    }
}

} // verus!
