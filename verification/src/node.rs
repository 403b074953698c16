//! Putting a node together from its configuration and its upstreams.

use vstd::prelude::*;
use crate::config::{NodeConfig, UpstreamConfig, UpstreamModel};
use crate::state::NodeState;
use crate::upstream::{peer_upstreams, peers_only, upstream_views};

verus! {

/// A node: its shared state and the upstreams that it dials.
#[derive(Debug)]
pub struct Node {
    state: NodeState,
    upstreams: Vec<UpstreamConfig>,
}

/// A node in the making.
#[derive(Debug)]
pub struct NodeBuilder {
    config: NodeConfig,
    upstreams: Vec<UpstreamConfig>,
}

impl Node {
    /// Starts a node in the making, with no upstream yet.
    pub fn builder(config: NodeConfig) -> (builder: NodeBuilder)
        ensures
            builder.configuration() == config,
            builder.upstream_list().len() == 0,
    {
        NodeBuilder { config, upstreams: Vec::new() }
    }

    /// The shared state of the node.
    pub closed spec fn shared(&self) -> NodeState {
        self.state
    }

    /// The upstreams that the node dials.
    pub closed spec fn dialled(&self) -> Seq<UpstreamModel> {
        upstream_views(self.upstreams@)
    }

    /// The state that the sessions of the node share.
    pub fn state(&self) -> (state: &NodeState)
        ensures
            *state == self.shared(),
    {
        &self.state
    }

    /// Takes the node apart: its state, and the upstreams to dial.
    pub fn into_parts(self) -> (parts: (NodeState, Vec<UpstreamConfig>))
        ensures
            parts.0 == self.shared(),
            upstream_views(parts.1@) == self.dialled(),
    {
        (self.state, self.upstreams)
    }
}

impl NodeBuilder {
    /// The configuration that the node is made from.
    pub closed spec fn configuration(&self) -> NodeConfig {
        self.config
    }

    /// The upstreams added so far, in their order.
    pub closed spec fn upstream_list(&self) -> Seq<UpstreamModel> {
        upstream_views(self.upstreams@)
    }

    /// Adds an upstream.
    pub fn with_upstream(self, upstream: UpstreamConfig) -> (builder: Self)
        ensures
            builder.configuration() == self.configuration(),
            builder.upstream_list() == self.upstream_list().push(upstream@),
    {
        let mut builder = self;
        let ghost before = upstream_views(builder.upstreams@);
        builder.upstreams.push(upstream);
        assert(upstream_views(builder.upstreams@) =~= before.push(upstream@));
        builder
    }

    /// The configuration that the node is made from.
    pub fn config(&self) -> (config: &NodeConfig)
        ensures
            *config == self.configuration(),
    {
        &self.config
    }

    /// The node: its state is new and holds no spot, and it dials the
    /// upstreams that speak the peer protocol, in the order in which they
    /// were added.
    pub fn build(self) -> (node: Node)
        ensures
            node.shared().wf(),
            node.shared().id() == self.configuration().node_id@,
            node.shared().spots().len() == 0,
            node.dialled() == peers_only(self.upstream_list()),
    {
        let state = NodeState::new(self.config.node_id.clone());
        let upstreams = peer_upstreams(self.upstreams.as_slice());
        Node { state, upstreams }
    }
}

} // verus!
