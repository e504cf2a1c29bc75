//! Ordered, lazy traversal of the graph store: all stored (role, sequence
//! number, template) triples in ascending role order, then ascending
//! sequence order within a role. Roles without entries are skipped, and the
//! traversal ends only when no role has any further entry. A fresh
//! traversal is had by constructing a new iterator.

use vstd::prelude::*;
use crate::graph::TxGraph;
use crate::psbt::Psbt;

verus! {

/// A traversal in progress: the graph it walks and how many triples it has
/// yielded so far.
pub struct GraphIter<'iter, 'channel> {
    /// The graph being traversed; the iterator never changes it.
    pub graph: &'iter TxGraph<'channel>,
    /// How many triples were already yielded.
    pub pos: usize,
}

impl<'iter, 'channel> GraphIter<'iter, 'channel> {
    fn with(graph: &'iter TxGraph<'channel>) -> (it: GraphIter<'iter, 'channel>)
        ensures
            it.graph == graph,
            it.pos == 0,
    {
        GraphIter { graph, pos: 0 }
    }

    /// Yields the next stored (role code, sequence number, template)
    /// triple, or nothing once every stored entry has been yielded.
    pub fn next(&mut self) -> (r: Option<(u16, u64, &'iter Psbt)>)
        requires
            old(self).graph.wf(),
        ensures
            final(self).graph == old(self).graph,
            ({
                let s = old(self).graph.store_seq();
                if old(self).pos < s.len() {
                    &&& final(self).pos == old(self).pos + 1
                    &&& match r {
                        Some(t) => t.0 == s[old(self).pos as int].role && t.1 == s[old(
                            self,
                        ).pos as int].index && *t.2 == s[old(self).pos as int].psbt,
                        None => false,
                    }
                } else {
                    &&& final(self).pos == old(self).pos
                    &&& r is None
                }
            }),
    {
        let g = self.graph;
        if self.pos < g.graph.len() {
            let e = &g.graph[self.pos];
            self.pos = self.pos + 1;
            Some((e.role, e.index, &e.psbt))
        } else {
            None
        }
    }
}

impl<'channel> TxGraph<'channel> {
    /// Starts an ordered traversal of all stored entries.
    pub fn iter(&self) -> (it: GraphIter<'_, 'channel>)
        ensures
            it.graph == self,
            it.pos == 0,
    {
        GraphIter::with(self)
    }
}

} // verus!
