//! What a node knows: its name and its recent spots.

use vstd::prelude::*;
use crate::cache::{newest_first, pushed, spot_views, SpotCache};
use crate::ids::NodeId;
use crate::spot::{clone_node, node_view, Spot, SpotModel};

verus! {

/// The number of spots that a node keeps.
pub const CACHE_CAPACITY: usize = 256;

/// The news of one stored spot, with the peer from which it came; a spot
/// minted on this node has no source.
#[derive(Debug)]
pub struct SpotAnnouncement {
    pub spot: Spot,
    pub source: Option<NodeId>,
}

/// What an announcement says, as mathematical values.
pub struct AnnouncementModel {
    pub spot: SpotModel,
    pub source: Option<Seq<char>>,
}

impl View for SpotAnnouncement {
    type V = AnnouncementModel;

    open spec fn view(&self) -> AnnouncementModel {
        AnnouncementModel { spot: self.spot@, source: node_view(self.source) }
    }
}

impl Clone for SpotAnnouncement {
    fn clone(&self) -> (out: Self)
        ensures
            out@ == self@,
    {
        SpotAnnouncement { spot: self.spot.clone(), source: clone_node(&self.source) }
    }
}

/// The state that all sessions of a node share: every spot enters the node
/// through `insert_with_source`, which stores it and hands back the
/// announcement that the sessions are then told of.
#[derive(Debug)]
pub struct NodeState {
    node_id: NodeId,
    cache: SpotCache,
}

impl NodeState {
    /// The name of the node.
    pub closed spec fn id(&self) -> Seq<char> {
        self.node_id@
    }

    /// The stored spots, oldest first.
    pub closed spec fn spots(&self) -> Seq<SpotModel> {
        self.cache@
    }

    /// The node keeps no more spots than its cache holds.
    pub closed spec fn wf(&self) -> bool {
        self.cache.wf() && self.cache.capacity() == CACHE_CAPACITY
    }

    /// The state of a node named `node_id`, with no spot stored.
    pub fn new(node_id: NodeId) -> (state: Self)
        ensures
            state.wf(),
            state.id() == node_id@,
            state.spots().len() == 0,
    {
        NodeState { node_id, cache: SpotCache::new(CACHE_CAPACITY) }
    }

    /// Stores a spot minted on this node.
    pub fn insert(&mut self, spot: Spot) -> (news: SpotAnnouncement)
        requires
            old(self).wf(),
        ensures
            final(self).wf(),
            final(self).id() == old(self).id(),
            final(self).spots() == pushed(old(self).spots(), CACHE_CAPACITY as nat, spot@),
            news@ == (AnnouncementModel { spot: spot@, source: None }),
    {
        self.insert_with_source(spot, None)
    }

    /// Stores `spot` as the newest and returns the one announcement of it,
    /// which names the peer `source` from which the spot came.
    pub fn insert_with_source(&mut self, spot: Spot, source: Option<NodeId>) -> (news:
        SpotAnnouncement)
        requires
            old(self).wf(),
        ensures
            final(self).wf(),
            final(self).id() == old(self).id(),
            final(self).spots() == pushed(old(self).spots(), CACHE_CAPACITY as nat, spot@),
            news@ == (AnnouncementModel { spot: spot@, source: node_view(source) }),
    {
        self.cache.push(spot.clone());
        SpotAnnouncement { spot, source }
    }

    /// The `n` newest spots, newest first.
    pub fn recent(&self, n: usize) -> (out: Vec<Spot>)
        ensures
            spot_views(out@) == newest_first(self.spots(), n as nat),
    {
        self.cache.recent(n)
    }

    /// The name of the node.
    pub fn node_id(&self) -> (id: &NodeId)
        ensures
            id@ == self.id(),
    {
        &self.node_id
    }

    /// A node never keeps more spots than its cache holds.
    pub proof fn lemma_bounded(&self)
        requires
            self.wf(),
        ensures
            self.spots().len() <= CACHE_CAPACITY,
    {
    }
}

} // verus!
