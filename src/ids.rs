use vstd::prelude::*;

verus! {

/// The identity that a feature timeline assigns to a feature.
pub type FeatureId = u64;

/// One step of an atom's lineage: the feature that produced it, and which
/// instantiation of that feature (for duplicated sub-structures).
#[derive(Clone, Copy, Debug, PartialEq, Eq, Hash, Structural)]
pub struct FeatureCopyId {
    pub feature_id: FeatureId,
    pub copy_index: u64,
}

/// A structural identity for an atom, independent of where the atom is stored.
///
/// `feature_path` records the lineage of features that produced the atom and
/// `child_index` tells apart the atoms that one feature invocation created.
#[derive(Debug, Hash)]
pub struct AtomSpecifier {
    pub feature_path: Vec<FeatureCopyId>,
    pub child_index: usize,
}

/// The mathematical value of a specifier: its path and its local index.
pub type SpecifierView = (Seq<FeatureCopyId>, usize);

impl View for AtomSpecifier {
    type V = SpecifierView;

    open spec fn view(&self) -> SpecifierView {
        (self.feature_path@, self.child_index)
    }
}

/// The specifier of the `child`-th atom created by the first instantiation of
/// feature `id`, directly under the root of the lineage.
pub open spec fn spec_child_of(id: FeatureId, child: usize) -> SpecifierView {
    (seq![FeatureCopyId { feature_id: id, copy_index: 0 }], child)
}

/// The specifier of the seed atom of every molecule.
pub open spec fn seed_specifier() -> SpecifierView {
    spec_child_of(0, 0)
}

impl AtomSpecifier {
    /// The specifier of the `child`-th atom that feature `id` creates in its
    /// first instantiation.
    pub fn child_of(id: FeatureId, child: usize) -> (r: AtomSpecifier)
        ensures
            r@ == spec_child_of(id, child),
    {
        let mut path: Vec<FeatureCopyId> = Vec::new();
        path.push(FeatureCopyId { feature_id: id, copy_index: 0 });
        proof {
            assert(path@ =~= seq![FeatureCopyId { feature_id: id, copy_index: 0 }]);
        }
        AtomSpecifier { feature_path: path, child_index: child }
    }

    /// The specifier of the seed atom: path `[(0, 0)]`, local index 0.
    pub fn seed() -> (r: AtomSpecifier)
        ensures
            r@ == seed_specifier(),
    {
        AtomSpecifier::child_of(0, 0)
    }

    /// A specifier equal to this one.
    pub fn duplicate(&self) -> (r: AtomSpecifier)
        ensures
            r@ == self@,
    {
        let mut path: Vec<FeatureCopyId> = Vec::new();
        let mut i: usize = 0;
        while i < self.feature_path.len()
            invariant
                i <= self.feature_path@.len(),
                path@ =~= self.feature_path@.subrange(0, i as int),
            decreases self.feature_path@.len() - i,
        {
            path.push(self.feature_path[i]);
            i += 1;
        }
        proof {
            assert(path@ =~= self.feature_path@);
        }
        AtomSpecifier { feature_path: path, child_index: self.child_index }
    }

    /// Structural equality: the same path, entry by entry, and the same local
    /// index.
    pub fn same_as(&self, other: &AtomSpecifier) -> (r: bool)
        ensures
            r == (self@ == other@),
    {
        if self.child_index != other.child_index {
            return false;
        }
        if self.feature_path.len() != other.feature_path.len() {
            return false;
        }
        let mut i: usize = 0;
        while i < self.feature_path.len()
            invariant
                i <= self.feature_path@.len(),
                self.feature_path@.len() == other.feature_path@.len(),
                forall|j: int| 0 <= j < i ==> self.feature_path@[j] == other.feature_path@[j],
            decreases self.feature_path@.len() - i,
        {
            if self.feature_path[i] != other.feature_path[i] {
                return false;
            }
            i += 1;
        }
        proof {
            assert(self.feature_path@ =~= other.feature_path@);
        }
        true
    }
}

impl Clone for AtomSpecifier {
    fn clone(&self) -> (r: AtomSpecifier)
        ensures
            r@ == self@,
    {
        self.duplicate()
    }
}

impl PartialEq for AtomSpecifier {
    fn eq(&self, other: &AtomSpecifier) -> (r: bool) {
        self.same_as(other)
    }
}

impl vstd::std_specs::cmp::PartialEqSpecImpl for AtomSpecifier {
    open spec fn obeys_eq_spec() -> bool {
        true
    }

    open spec fn eq_spec(&self, other: &AtomSpecifier) -> bool {
        self@ == other@
    }
}

impl Eq for AtomSpecifier {
}

} // verus!
