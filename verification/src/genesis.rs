//! What a ledger starts with.

use vstd::prelude::*;
use crate::bytes::bytes_copy;
use crate::pallet::Pallet;
use crate::table::views;

verus! {

/// What a ledger starts with: tags, each with its name and its metadata.
#[derive(Debug, PartialEq, Eq)]
pub struct GenesisConfig {
    pub interpretation_tags: Vec<(Vec<u8>, Vec<u8>)>,
}

impl GenesisConfig {
    /// A start with the tags of a list.
    pub fn new(interpretation_tags: Vec<(Vec<u8>, Vec<u8>)>) -> (r: Self)
        ensures
            r.interpretation_tags == interpretation_tags,
    {
        GenesisConfig { interpretation_tags }
    }

    /// Registers the tags in a ledger.
    pub fn build(&self, ledger: &mut Pallet)
        ensures
            final(ledger)@ == old(ledger)@.with_tags(views(self.interpretation_tags@)),
    {
        let ghost list = views(self.interpretation_tags@);
        let n = self.interpretation_tags.len();
        let mut i: usize = 0;
        assert(list.take(0).len() == 0);
        while i < n
            invariant
                n == self.interpretation_tags.len(),
                list == views(self.interpretation_tags@),
                i <= n,
                ledger@ == old(ledger)@.with_tags(list.take(i as int)),
            decreases n - i,
        {
            let tag = bytes_copy(&self.interpretation_tags[i].0);
            let metadata = bytes_copy(&self.interpretation_tags[i].1);
            ledger.put_tag(tag, metadata);
            proof {
                assert(list.take(i + 1).drop_last() =~= list.take(i as int));
                assert(list.take(i + 1).last() == list[i as int]);
            }
            i += 1;
        }
        assert(list.take(n as int) =~= list);
    }
}

impl Default for GenesisConfig {
    fn default() -> (r: Self)
        ensures
            r.interpretation_tags@.len() == 0,
    {
        GenesisConfig { interpretation_tags: Vec::new() }
    }
}

} // verus!
