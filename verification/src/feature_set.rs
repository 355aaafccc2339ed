use crate::pubkey::Pubkey;
use vstd::prelude::*;

verus! {

/// The runtime features that are active in a session.
#[derive(Debug)]
pub struct FeatureSet {
    pub active: Vec<Pubkey>,
}

impl View for FeatureSet {
    type V = Set<Pubkey>;

    open spec fn view(&self) -> Set<Pubkey> {
        self.active@.to_set()
    }
}

impl Default for FeatureSet {
    /// No feature is active.
    fn default() -> (features: FeatureSet)
        ensures
            features@ == Set::<Pubkey>::empty(),
    {
        let features = FeatureSet { active: Vec::new() };
        assert(features@ =~= Set::<Pubkey>::empty());
        features
    }
}

impl FeatureSet {
    /// The set in which exactly the features of `active` are active.
    pub fn new(active: Vec<Pubkey>) -> (features: FeatureSet)
        ensures
            features@ == active@.to_set(),
    {
        FeatureSet { active }
    }

    /// Whether `feature_id` is active.
    pub fn is_active(&self, feature_id: &Pubkey) -> (active: bool)
        ensures
            active == self@.contains(*feature_id),
    {
        let mut i: usize = 0;
        while i < self.active.len()
            invariant
                i <= self.active@.len(),
                forall|j: int| 0 <= j < i ==> self.active@[j] != *feature_id,
            decreases self.active@.len() - i,
        {
            if self.active[i] == *feature_id {
                assert(self.active@.contains(*feature_id));
                return true;
            }
            i += 1;
        }
        assert(!self.active@.contains(*feature_id));
        false
    }

    /// Makes `feature_id` active.
    pub fn activate(&mut self, feature_id: Pubkey)
        ensures
            final(self)@ == old(self)@.insert(feature_id),
    {
        self.active.push(feature_id);
        proof {
            let before = old(self).active@;
            let after = self.active@;
            assert(after =~= before.push(feature_id));
            assert forall|k: Pubkey| after.contains(k) == (before.contains(k) || k == feature_id) by {
                if after.contains(k) {
                    let i = choose|i: int| 0 <= i < after.len() && after[i] == k;
                    if i < before.len() {
                        assert(before[i] == k);
                    }
                }
                if before.contains(k) {
                    let i = choose|i: int| 0 <= i < before.len() && before[i] == k;
                    assert(after[i] == k);
                }
                if k == feature_id {
                    assert(after[before.len() as int] == k);
                }
            }
            assert(after.to_set() =~= before.to_set().insert(feature_id));
        }
    }
}

} // verus!
