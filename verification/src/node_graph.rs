//! Routing table of the audio node graph.
//!
//! The graph's nodes and their scratch buffers belong to the renderer; this
//! module keeps the connections between them and decides which of them the
//! renderer follows when it processes a block.

use vstd::prelude::*;

verus! {

/// A connection from a channel of one node to a channel of another, with gain.
#[derive(Clone, Copy, Debug)]
pub struct AudioConnection<G> {
    /// Node whose output is read.
    pub from_node: usize,
    /// Channel of that node's output.
    pub from_channel: u16,
    /// Node that receives the signal.
    pub to_node: usize,
    /// Channel of the receiving node's input.
    pub to_channel: u16,
    /// Gain applied on the way.
    pub gain: G,
}

/// Whether a connection leaves from or arrives at `node`.
pub open spec fn touches<G>(c: AudioConnection<G>, node: usize) -> bool {
    c.from_node == node || c.to_node == node
}

/// The connections that neither leave from nor arrive at `node`.
pub open spec fn avoids_node<G>(node: usize) -> spec_fn(AudioConnection<G>) -> bool {
    |c: AudioConnection<G>| !touches(c, node)
}

/// Whether the renderer follows a connection in a graph of `node_count`
/// nodes: both of its ends exist. Other connections are skipped silently.
pub fn connection_routable<G>(c: &AudioConnection<G>, node_count: usize) -> (r: bool)
    ensures
        r == (c.from_node < node_count && c.to_node < node_count),
{
    c.from_node < node_count && c.to_node < node_count
}

/// Channel count of the scratch buffer kept for a node with
/// `output_channels` outputs: its own count, or stereo for a node with none.
pub fn scratch_channels(output_channels: u16) -> (r: u16)
    ensures
        r == (if output_channels > 0 { output_channels } else { 2 }),
{
    if output_channels > 0 {
        output_channels
    } else {
        2
    }
}

/// The connections of an audio node graph, in the order they were made.
pub struct AudioConnections<G> {
    list: Vec<AudioConnection<G>>,
}

impl<G> View for AudioConnections<G> {
    type V = Seq<AudioConnection<G>>;

    closed spec fn view(&self) -> Seq<AudioConnection<G>> {
        self.list@
    }
}

impl<G: Copy> AudioConnections<G> {
    /// A graph without connections.
    pub fn new() -> (r: Self)
        ensures
            r@ == Seq::<AudioConnection<G>>::empty(),
    {
        AudioConnections { list: Vec::new() }
    }

    /// Connect `from_ch` of node `from` to `to_ch` of node `to` with `gain`.
    pub fn connect(&mut self, from: usize, from_ch: u16, to: usize, to_ch: u16, gain: G)
        ensures
            final(self)@ == old(self)@.push(
                AudioConnection { from_node: from, from_channel: from_ch, to_node: to, to_channel: to_ch, gain },
            ),
    {
        self.list.push(AudioConnection { from_node: from, from_channel: from_ch, to_node: to, to_channel: to_ch, gain });
    }

    /// Remove every connection that leaves from or arrives at `node`,
    /// keeping the others in order.
    pub fn disconnect_node(&mut self, node: usize)
        ensures
            final(self)@ == old(self)@.filter(avoids_node::<G>(node)),
    {
        let ghost old_list = self.list@;
        let mut kept: Vec<AudioConnection<G>> = Vec::new();
        let mut i: usize = 0;
        while i < self.list.len()
            invariant
                self.list@ == old_list,
                i <= old_list.len(),
                kept@ == old_list.take(i as int).filter(avoids_node::<G>(node)),
            decreases old_list.len() - i,
        {
            let c = self.list[i];
            proof {
                let t = old_list.take(i + 1);
                reveal_with_fuel(Seq::filter, 1);
                assert(t.drop_last() =~= old_list.take(i as int));
                assert(t.last() == c);
                assert(t.filter(avoids_node::<G>(node)) == (if avoids_node::<G>(node)(c) {
                    old_list.take(i as int).filter(avoids_node::<G>(node)).push(c)
                } else {
                    old_list.take(i as int).filter(avoids_node::<G>(node))
                }));
            }
            if c.from_node != node && c.to_node != node {
                kept.push(c);
            }
            i += 1;
        }
        assert(old_list.take(old_list.len() as int) =~= old_list);
        self.list = kept;
    }

    /// Number of connections.
    pub fn connection_count(&self) -> (r: usize)
        ensures
            r == self@.len(),
    {
        self.list.len()
    }

    /// The connection at position `i`.
    pub fn get(&self, i: usize) -> (r: &AudioConnection<G>)
        requires
            i < self@.len(),
        ensures
            *r == self@[i as int],
    {
        &self.list[i]
    }
}

/// After a node is disconnected no connection touches it, and every
/// connection that did not touch it is kept.
pub proof fn lemma_disconnect_isolates<G>(conns: Seq<AudioConnection<G>>, node: usize)
    ensures
        forall|j: int| 0 <= j < conns.filter(avoids_node::<G>(node)).len()
            ==> !touches(#[trigger] conns.filter(avoids_node::<G>(node))[j], node),
        forall|c: AudioConnection<G>| #[trigger] conns.contains(c) && !touches(c, node)
            ==> conns.filter(avoids_node::<G>(node)).contains(c),
{
    let keep = avoids_node::<G>(node);
    let kept = conns.filter(keep);
    broadcast use vstd::seq_lib::group_filter_ensures;
    assert forall|j: int| 0 <= j < kept.len() implies !touches(#[trigger] kept[j], node) by {
        assert(keep(kept[j]));
    }
    assert forall|c: AudioConnection<G>| #[trigger] conns.contains(c) && !touches(c, node) implies kept.contains(c) by {
        assert(keep(c));
    }
}

} // verus!
