//! The funding collaborator, as the graph consumes it: the outpoint that
//! capitalizes the channel, the funding transaction template it comes from,
//! and the index of the capitalizing output.

use vstd::prelude::*;
use crate::psbt::Outpoint;
use crate::psbt::Psbt;

verus! {

/// Read-only funding data the graph is bound to for its whole life. The
/// graph never mutates it; the commitment renderer reads the outpoint and
/// copies value, script and derivation hints out of the capitalizing output.
pub struct Funding {
    /// The outpoint spent by the commitment transaction's sole input.
    pub outpoint: Outpoint,
    /// The funding transaction template the outpoint refers to.
    pub psbt: Psbt,
    /// Which output of the funding transaction capitalizes the channel.
    pub output: usize,
}

impl Funding {
    /// Valid funding data: the capitalizing output exists.
    pub open spec fn wf(self) -> bool {
        self.output < self.psbt.outputs@.len()
    }

    /// The outpoint spent by the commitment transaction's sole input.
    pub fn outpoint(&self) -> (r: Outpoint)
        ensures
            r == self.outpoint,
    {
        self.outpoint
    }

    /// The funding transaction template underlying the outpoint.
    pub fn psbt(&self) -> (r: &Psbt)
        ensures
            *r == self.psbt,
    {
        &self.psbt
    }

    /// The index of the capitalizing output.
    pub fn output(&self) -> (r: usize)
        ensures
            r == self.output,
    {
        self.output
    }
}

} // verus!
