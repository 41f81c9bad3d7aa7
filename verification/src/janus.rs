//! A pipeline of byte-processing stages run in order over one buffer: each stage works on the
//! bytes in place and says how many of them to keep.
//!
//! The stages are kept as a chain of types, each link holding the stages before it and one
//! more, so that what a pipeline runs is known from how it was built.

use bytes::BytesMut;
use vstd::math::min;
use vstd::prelude::*;

verus! {

#[verifier::external_type_specification]
#[verifier::external_body]
pub struct ExBytesMut(BytesMut);

/// The bytes a `BytesMut` holds, in order.
pub uninterp spec fn bytes_contents(b: BytesMut) -> Seq<u8>;

/// `BytesMut::truncate(len)`: keeps the first `len` bytes, or all of them when there are
/// fewer.
#[verifier::external_body]
fn truncate_bytes(data: &mut BytesMut, len: usize)
    ensures
        bytes_contents(*final(data)) == bytes_contents(*old(data)).take(
            min(len as int, bytes_contents(*old(data)).len() as int),
        ),
{
    data.truncate(len)
}

/// One step of a pipeline, written by the user.
pub trait Stage {
    /// The bytes the stage leaves and the length it returns, given the bytes it is handed: a
    /// function of the stage's state and those bytes.
    ///
    /// An implementation defines this to say what its exec method computes; where it does not,
    /// the contracts that speak of it say nothing of that implementation.
    open spec fn spec_process(&self, data: Seq<u8>) -> (Seq<u8>, usize) {
        vstd::pervasive::arbitrary()
    }

    /// Processes `data` in place and returns the length of the data to keep.
    fn process(&mut self, data: &mut BytesMut) -> (n: usize)
        ensures
            (bytes_contents(*final(data)), n) == old(self).spec_process(bytes_contents(*old(data))),
    ;
}

/// The bytes after one stage: what it leaves, cut to the length it returns.
pub open spec fn stage_step<S: Stage>(stage: S, data: Seq<u8>) -> Seq<u8> {
    let (out, n) = stage.spec_process(data);
    out.take(min(n as int, out.len() as int))
}

/// A sequence of stages that runs first to last.
pub trait StageList {
    /// The bytes after every stage, given the bytes handed to the first.
    spec fn spec_run(&self, data: Seq<u8>) -> Seq<u8>;

    /// The number of stages.
    spec fn spec_len(&self) -> nat;

    /// Runs every stage over `data`, first to last, cutting the data after each to the length
    /// that stage returns.
    fn run(&mut self, data: &mut BytesMut)
        ensures
            bytes_contents(*final(data)) == old(self).spec_run(bytes_contents(*old(data))),
            final(self).spec_len() == old(self).spec_len(),
    ;
}

/// No stages.
pub struct NoStages;

impl StageList for NoStages {
    open spec fn spec_run(&self, data: Seq<u8>) -> Seq<u8> {
        data
    }

    open spec fn spec_len(&self) -> nat {
        0
    }

    fn run(&mut self, data: &mut BytesMut) {
    }
}

/// The stages `before`, then `last`.
pub struct Then<L, S> {
    pub before: L,
    pub last: S,
}

impl<L: StageList, S: Stage> StageList for Then<L, S> {
    open spec fn spec_run(&self, data: Seq<u8>) -> Seq<u8> {
        stage_step(self.last, self.before.spec_run(data))
    }

    open spec fn spec_len(&self) -> nat {
        self.before.spec_len() + 1
    }

    fn run(&mut self, data: &mut BytesMut) {
        self.before.run(data);
        let n = self.last.process(data);
        truncate_bytes(data, n);
    }
}

/// Stages applied in the order they were added.
pub struct Pipeline<L> {
    stages: L,
}

impl<L> Pipeline<L> {
    /// The stages, first to last.
    pub closed spec fn spec_stages(&self) -> L {
        self.stages
    }
}

impl Pipeline<NoStages> {
    /// No stages.
    pub fn new() -> (p: Self)
        ensures
            p.spec_stages() == NoStages,
    {
        Pipeline { stages: NoStages }
    }
}

impl<L: StageList> Pipeline<L> {
    /// The pipeline with `stage` added after the others.
    pub fn add_stage<S: Stage + 'static>(self, stage: S) -> (p: Pipeline<Then<L, S>>)
        ensures
            p.spec_stages() == (Then { before: self.spec_stages(), last: stage }),
    {
        Pipeline { stages: Then { before: self.stages, last: stage } }
    }

    /// Runs every stage over `data`, first to last, cutting the data after each to the length
    /// that stage returns.
    pub fn run_on_buf(&mut self, data: &mut BytesMut)
        ensures
            bytes_contents(*final(data)) == old(self).spec_stages().spec_run(
                bytes_contents(*old(data)),
            ),
            final(self).spec_stages().spec_len() == old(self).spec_stages().spec_len(),
    {
        self.stages.run(data);
    }
}

impl Default for Pipeline<NoStages> {
    /// No stages.
    fn default() -> (p: Self)
        ensures
            p.spec_stages() == NoStages,
    {
        Self::new()
    }
}

/// A pipeline built from two stages runs the first, cuts the data to the length it returns,
/// then runs the second on what is left and cuts again.
pub proof fn law_stages_run_in_order<A: Stage, B: Stage>(a: A, b: B, data: Seq<u8>)
    ensures
        (Then { before: Then { before: NoStages, last: a }, last: b }).spec_run(data)
            == stage_step(b, stage_step(a, data)),
{
}

} // verus!
