//! The profilers that a session has registered.

use vstd::prelude::*;

use crate::text;
use crate::types::ProfilerMetadata;

verus! {

/// What a profiler is, abstractly: its key and its collectors.
pub type Description = (Seq<char>, Seq<(Seq<char>, Seq<char>, nat)>);

/// The profilers that a session has registered, in the order of their registration.
#[derive(Debug)]
pub struct ProfilerRegistry {
    profilers: Vec<ProfilerMetadata>,
}

impl View for ProfilerRegistry {
    type V = Seq<Description>;

    closed spec fn view(&self) -> Seq<Description> {
        text::views(self.profilers@)
    }
}

impl Default for ProfilerRegistry {
    fn default() -> (r: Self)
        ensures
            r@ == Seq::<Description>::empty(),
    {
        let r = ProfilerRegistry { profilers: Vec::new() };
        assert(r@ =~= Seq::<Description>::empty());
        r
    }
}

impl ProfilerRegistry {
    /// Registers a profiler.
    pub fn register(&mut self, metadata: ProfilerMetadata)
        ensures
            final(self)@ == old(self)@.push(metadata@),
    {
        broadcast use text::lemma_views_push;

        self.profilers.push(metadata);
    }

    /// Forgets all profilers.
    pub fn clear(&mut self)
        ensures
            final(self)@ == Seq::<Description>::empty(),
    {
        self.profilers = Vec::new();
        assert(self@ =~= Seq::<Description>::empty());
    }

    /// The registered profilers.
    pub fn profilers(&self) -> (r: &[ProfilerMetadata])
        ensures
            text::views(r@) == self@,
    {
        self.profilers.as_slice()
    }
}

} // verus!
