//! How a run is cut into chunks. Rows are generated in chunks of a fixed size
//! so that the text held in memory stays bounded: first the full chunks, then
//! one last chunk with the rows that remain, which may be none. The writer
//! performs each step and reports when a chunk has reached the output.

use vstd::prelude::*;

verus! {

/// The number of rows in a full chunk.
pub const CHUNK_SIZE: u64 = 10_000;

/// The number of full chunks in a run of `rows` rows.
pub open spec fn full_chunks(rows: nat) -> nat {
    rows / (CHUNK_SIZE as nat)
}

/// The number of chunks in a run of `rows` rows: the full ones and the last
/// one. It is also the number of units of progress.
pub open spec fn chunk_total(rows: nat) -> nat {
    full_chunks(rows) + 1
}

/// The number of rows in chunk `k` of a run of `rows` rows, counting chunks
/// from zero.
pub open spec fn chunk_rows(rows: nat, k: nat) -> nat {
    if k < full_chunks(rows) {
        CHUNK_SIZE as nat
    } else if k == full_chunks(rows) {
        rows % (CHUNK_SIZE as nat)
    } else {
        0
    }
}

/// The number of rows in the first `k` chunks of a run of `rows` rows.
pub open spec fn rows_through(rows: nat, k: nat) -> nat
    decreases k,
{
    if k == 0 {
        0
    } else {
        rows_through(rows, (k - 1) as nat) + chunk_rows(rows, (k - 1) as nat)
    }
}

/// What the writer is to do next.
#[derive(Clone, Copy, Debug, PartialEq, Eq, Structural)]
pub enum Step {
    /// Generate a chunk of this many rows, append it to the output in a single
    /// write, and report it as flushed.
    WriteChunk { rows: u64 },
    /// Every chunk is in the output: report the size of the output.
    Finish,
}

/// The step to take when `flushed` chunks of a run of `rows` rows are in the
/// output.
pub open spec fn step_at(rows: nat, flushed: nat) -> Step {
    if flushed < chunk_total(rows) {
        Step::WriteChunk { rows: chunk_rows(rows, flushed) as u64 }
    } else {
        Step::Finish
    }
}

/// The state of a run: how many rows it is to produce, and how many of its
/// chunks are in the output.
#[derive(Clone, Copy, Debug)]
pub struct Plan {
    rows: u64,
    flushed: u64,
}

impl Plan {
    /// The number of rows that the run is to produce.
    pub closed spec fn target(&self) -> nat {
        self.rows as nat
    }

    /// The number of chunks that are in the output.
    pub closed spec fn done(&self) -> nat {
        self.flushed as nat
    }

    /// No more chunks are in the output than the run has.
    pub open spec fn wf(&self) -> bool {
        self.done() <= chunk_total(self.target())
    }

    /// The plan of a run of `rows` rows, with nothing written yet.
    pub fn new(rows: u64) -> (plan: Plan)
        ensures
            plan.target() == rows,
            plan.done() == 0,
            plan.wf(),
    {
        Plan { rows, flushed: 0 }
    }

    /// The number of rows that the run is to produce.
    pub fn rows(&self) -> (rows: u64)
        ensures
            rows == self.target(),
    {
        self.rows
    }

    /// The number of chunks that are in the output.
    pub fn flushed(&self) -> (flushed: u64)
        ensures
            flushed == self.done(),
    {
        self.flushed
    }

    /// The number of chunks of the run, which is the length of the progress
    /// indicator.
    pub fn total_chunks(&self) -> (total: u64)
        ensures
            total == chunk_total(self.target()),
    {
        self.rows / CHUNK_SIZE + 1
    }

    /// The step to take in this state.
    pub fn next_step(&self) -> (step: Step)
        ensures
            step == step_at(self.target(), self.done()),
    {
        let full = self.rows / CHUNK_SIZE;
        if self.flushed < full {
            Step::WriteChunk { rows: CHUNK_SIZE }
        } else if self.flushed == full {
            Step::WriteChunk { rows: self.rows % CHUNK_SIZE }
        } else {
            Step::Finish
        }
    }

    /// Records that the chunk of the current step is in the output. Once the
    /// run is finished the state no longer changes.
    pub fn chunk_flushed(&mut self)
        ensures
            final(self).target() == old(self).target(),
            final(self).done() == if old(self).done() < chunk_total(old(self).target()) {
                old(self).done() + 1
            } else {
                old(self).done()
            },
            old(self).wf() ==> final(self).wf(),
    {
        if self.flushed <= self.rows / CHUNK_SIZE {
            self.flushed = self.flushed + 1;
        }
    }
}

/// The first `k` chunks of a run hold `k` full chunks' worth of rows while `k`
/// does not exceed the number of full chunks, and all the rows once it does.
pub proof fn lemma_rows_through(rows: nat, k: nat)
    ensures
        k <= full_chunks(rows) ==> rows_through(rows, k) == k * CHUNK_SIZE,
        k > full_chunks(rows) ==> rows_through(rows, k) == rows,
    decreases k,
{
    if k > 0 {
        lemma_rows_through(rows, (k - 1) as nat);
        if k - 1 == full_chunks(rows) {
            assert(rows == (CHUNK_SIZE as nat) * (rows / (CHUNK_SIZE as nat)) + rows % (
            CHUNK_SIZE as nat)) by {
                vstd::arithmetic::div_mod::lemma_fundamental_div_mod(
                    rows as int,
                    CHUNK_SIZE as int,
                );
            }
        }
    }
}

/// The chunks of a run hold exactly as many rows as the run is to produce.
pub proof fn law_chunks_cover_rows(rows: nat)
    ensures
        rows_through(rows, chunk_total(rows)) == rows,
{
    lemma_rows_through(rows, chunk_total(rows));
}

} // verus!
