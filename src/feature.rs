//! Replayable design operations and the timeline that orders them.

use vstd::prelude::*;
use ultraviolet::Vec3;
use crate::element::Element;
use crate::ids::{spec_child_of, AtomSpecifier, FeatureId};
use crate::molecule::{AtomView, BondOrder, MoleculeRepr, ReprView, MAX_GRAPH_SIZE};

verus! {

/// A group of atoms and of bonds among them, added by one feature.
///
/// Each bond names its two ends by their positions in `atoms`, and has a
/// positive order.
pub struct Fragment {
    atoms: Vec<(Element, Vec3)>,
    bonds: Vec<(usize, usize, BondOrder)>,
}

/// Whether every bond joins two atoms of a fragment of `n` atoms and has a
/// positive order.
pub open spec fn bonds_valid(n: nat, bonds: Seq<(usize, usize, BondOrder)>) -> bool {
    forall|j: int|
        0 <= j < bonds.len() ==> (#[trigger] bonds[j]).0 < n && bonds[j].1 < n && bonds[j].2 >= 1
}

impl Fragment {
    #[verifier::type_invariant]
    closed spec fn inv(self) -> bool {
        bonds_valid(self.atoms@.len(), self.bonds@)
    }

    pub closed spec fn spec_atoms(self) -> Seq<(Element, Vec3)> {
        self.atoms@
    }

    pub closed spec fn spec_bonds(self) -> Seq<(usize, usize, BondOrder)> {
        self.bonds@
    }

    /// A fragment of the given atoms and bonds; `None` where a bond names an
    /// atom that the fragment does not have, or has order 0.
    pub fn new(atoms: Vec<(Element, Vec3)>, bonds: Vec<(usize, usize, BondOrder)>) -> (r: Option<
        Fragment,
    >)
        ensures
            r is Some <==> bonds_valid(atoms@.len(), bonds@),
            r matches Some(f) ==> f.spec_atoms() == atoms@ && f.spec_bonds() == bonds@,
    {
        let mut j: usize = 0;
        while j < bonds.len()
            invariant
                j <= bonds@.len(),
                bonds_valid(atoms@.len(), bonds@.subrange(0, j as int)),
            decreases bonds@.len() - j,
        {
            let (a, b, order) = bonds[j];
            if a >= atoms.len() || b >= atoms.len() || order < 1 {
                assert(!bonds_valid(atoms@.len(), bonds@)) by {
                    assert(bonds@[j as int] == (a, b, order));
                }
                return None;
            }
            proof {
                let next = bonds@.subrange(0, j + 1);
                assert forall|k: int| 0 <= k < next.len() implies (#[trigger] next[k]).0
                    < atoms@.len() && next[k].1 < atoms@.len() && next[k].2 >= 1 by {
                    if k < j {
                        assert(next[k] == bonds@.subrange(0, j as int)[k]);
                    }
                }
            }
            j += 1;
        }
        proof {
            assert(bonds@.subrange(0, bonds@.len() as int) =~= bonds@);
        }
        Some(Fragment { atoms, bonds })
    }

    pub fn atoms(&self) -> (r: &Vec<(Element, Vec3)>)
        ensures
            r@ == self.spec_atoms(),
    {
        &self.atoms
    }

    pub fn bonds(&self) -> (r: &Vec<(usize, usize, BondOrder)>)
        ensures
            r@ == self.spec_bonds(),
    {
        &self.bonds
    }
}

/// A replayable operation. Applied with its own identity, it adds atoms and
/// bonds to a molecule graph, each new atom under a specifier derived from
/// that identity.
pub enum Feature {
    /// Creates the single seed atom of a molecule.
    Root { element: Element, pos: Vec3 },
    /// Adds a fragment of atoms and the bonds among them.
    Fragment(Fragment),
}

/// The atoms that fragment atoms `atoms` become when feature `id` adds them.
pub open spec fn fragment_atoms(id: FeatureId, atoms: Seq<(Element, Vec3)>) -> Seq<AtomView> {
    Seq::new(atoms.len(), |i: int| (spec_child_of(id, i as usize), atoms[i].0, atoms[i].1))
}

/// The bonds that fragment bonds `bonds` become when the fragment's atoms
/// start at node index `base`.
pub open spec fn fragment_bonds(base: nat, bonds: Seq<(usize, usize, BondOrder)>) -> Seq<
    (usize, usize, BondOrder),
> {
    Seq::new(
        bonds.len(),
        |j: int| ((base + bonds[j].0) as usize, (base + bonds[j].1) as usize, bonds[j].2),
    )
}

/// The graph after feature `f`, with identity `id`, is applied to `m`.
pub open spec fn apply_spec(f: Feature, id: FeatureId, m: ReprView) -> ReprView {
    match f {
        Feature::Root { element, pos } => m.with_atom((spec_child_of(id, 0), element, pos)),
        Feature::Fragment(fr) => ReprView {
            atoms: m.atoms + fragment_atoms(id, fr.spec_atoms()),
            bonds: m.bonds + fragment_bonds(m.atoms.len(), fr.spec_bonds()),
        },
    }
}

/// No atom of `m` carries a specifier that feature `id` would create.
pub open spec fn fresh_for(m: ReprView, id: FeatureId) -> bool {
    forall|i: int|
        0 <= i < m.atoms.len() ==> (#[trigger] m.atoms[i]).0.0.len() > 0 && m.atoms[i].0.0[0].feature_id
            != id
}

/// The graph after the features at positions `from` up to `to` (excluded) of
/// timeline `fs` are applied to `m` in order, each with its position as
/// identity.
pub open spec fn replay(m: ReprView, fs: Seq<Feature>, from: nat, to: nat) -> ReprView
    decreases to - from,
{
    if to <= from {
        m
    } else {
        apply_spec(fs[to - 1], (to - 1) as FeatureId, replay(m, fs, from, (to - 1) as nat))
    }
}

impl Feature {
    /// Applies this feature, with identity `id`, to the graph.
    pub fn apply(&self, id: FeatureId, repr: &mut MoleculeRepr)
        requires
            old(repr).wf(),
            fresh_for(old(repr)@, id),
            apply_spec(*self, id, old(repr)@).atoms.len() <= MAX_GRAPH_SIZE,
            apply_spec(*self, id, old(repr)@).bonds.len() <= MAX_GRAPH_SIZE,
        ensures
            final(repr).wf(),
            final(repr)@ == apply_spec(*self, id, old(repr)@),
            final(repr)@ != old(repr)@ ==> !final(repr).spec_synced(),
            final(repr).spec_synced() ==> old(repr).spec_synced(),
    {
        match self {
            Feature::Root { element, pos } => {
                let spec = AtomSpecifier::child_of(id, 0);
                proof {
                    assert(!old(repr)@.resolves(spec@)) by {
                        if old(repr)@.resolves(spec@) {
                            let k = choose|k: int| 0 <= k < old(repr)@.atoms.len() && (#[trigger] old(repr)@.atoms[k]).0 == spec@;
                            assert(old(repr)@.atoms[k].0.0[0].feature_id == id);
                        }
                    }
                }
                repr.add_atom(*element, *pos, spec);
            },
            Feature::Fragment(fr) => {
                proof {
                    use_type_invariant(fr);
                }
                let ghost m0 = repr@;
                let base = repr.atom_count();
                let atoms = fr.atoms();
                let mut i: usize = 0;
                while i < atoms.len()
                    invariant
                        repr.wf(),
                        fresh_for(m0, id),
                        base == m0.atoms.len(),
                        i <= atoms@.len(),
                        atoms@ == fr.spec_atoms(),
                        repr@.atoms == m0.atoms + fragment_atoms(id, atoms@.subrange(0, i as int)),
                        repr@.bonds == m0.bonds,
                        base + atoms@.len() <= MAX_GRAPH_SIZE,
                        repr@ != m0 ==> !repr.spec_synced(),
                        repr.spec_synced() ==> old(repr).spec_synced(),
                        m0 == old(repr)@,
                    decreases atoms@.len() - i,
                {
                    let spec = AtomSpecifier::child_of(id, i);
                    let ghost before = repr@;
                    proof {
                        assert(!before.resolves(spec@)) by {
                            if before.resolves(spec@) {
                                let k = choose|k: int| 0 <= k < before.atoms.len() && (#[trigger] before.atoms[k]).0 == spec@;
                                if k < m0.atoms.len() {
                                    assert(before.atoms[k] == m0.atoms[k]);
                                    assert(m0.atoms[k].0.0[0].feature_id == id);
                                } else {
                                    let c = k - m0.atoms.len();
                                    assert(before.atoms[k] == fragment_atoms(id, atoms@.subrange(0, i as int))[c]);
                                    assert(before.atoms[k].0.1 == c as usize);
                                }
                            }
                        }
                    }
                    let (element, pos) = atoms[i];
                    repr.add_atom(element, pos, spec);
                    proof {
                        assert(repr@.atoms =~= m0.atoms + fragment_atoms(id, atoms@.subrange(0, i + 1)));
                    }
                    i += 1;
                }
                proof {
                    assert(atoms@.subrange(0, atoms@.len() as int) =~= atoms@);
                    repr.lemma_unique();
                }
                let ghost m1 = repr@;
                let bonds = fr.bonds();
                let mut j: usize = 0;
                while j < bonds.len()
                    invariant
                        repr.wf(),
                        j <= bonds@.len(),
                        bonds@ == fr.spec_bonds(),
                        bonds_valid(atoms@.len(), bonds@),
                        base == m0.atoms.len(),
                        m1.atoms == m0.atoms + fragment_atoms(id, atoms@),
                        repr@.atoms == m1.atoms,
                        repr@.bonds == m0.bonds + fragment_bonds(base as nat, bonds@.subrange(0, j as int)),
                        m0.bonds.len() + bonds@.len() <= MAX_GRAPH_SIZE,
                        repr@ != m0 ==> !repr.spec_synced(),
                        repr.spec_synced() ==> old(repr).spec_synced(),
                        m0 == old(repr)@,
                    decreases bonds@.len() - j,
                {
                    let (a, b, order) = bonds[j];
                    let s1 = AtomSpecifier::child_of(id, a);
                    let s2 = AtomSpecifier::child_of(id, b);
                    proof {
                        repr.lemma_unique();
                        let ia = base + a;
                        let ib = base + b;
                        assert(repr@.atoms[ia as int] == fragment_atoms(id, atoms@)[a as int]);
                        assert(repr@.atoms[ib as int] == fragment_atoms(id, atoms@)[b as int]);
                        repr@.lemma_index_of(ia as int);
                        repr@.lemma_index_of(ib as int);
                    }
                    repr.create_bond(&s1, &s2, order);
                    proof {
                        assert(repr@.bonds =~= m0.bonds + fragment_bonds(base as nat, bonds@.subrange(0, j + 1)));
                    }
                    j += 1;
                }
                proof {
                    assert(bonds@.subrange(0, bonds@.len() as int) =~= bonds@);
                }
            },
        }
    }
}

/// An append-only registry of features. Each feature gets the next identity
/// in sequence, and the replay order lists the identities in insertion order.
pub struct FeatureList {
    features: Vec<Feature>,
    order: Vec<FeatureId>,
}

impl FeatureList {
    /// The internal invariant: the replay order lists identity `k` at
    /// position `k`, one for each registered feature.
    pub closed spec fn wf(self) -> bool {
        &&& self.order@.len() == self.features@.len()
        &&& forall|k: int| 0 <= k < self.order@.len() ==> self.order@[k] == k
    }

    /// The registered features, by identity.
    pub closed spec fn spec_features(self) -> Seq<Feature> {
        self.features@
    }

    /// The replay order.
    pub closed spec fn spec_order(self) -> Seq<FeatureId> {
        self.order@
    }

    /// An empty timeline.
    pub fn new() -> (r: FeatureList)
        ensures
            r.wf(),
            r.spec_features() == Seq::<Feature>::empty(),
    {
        FeatureList { features: Vec::new(), order: Vec::new() }
    }

    /// Registers a feature at the end of the timeline and returns its
    /// identity, the number of features registered before it.
    pub fn push_back(&mut self, feature: Feature) -> (r: FeatureId)
        requires
            old(self).wf(),
            old(self).spec_features().len() < u64::MAX,
        ensures
            final(self).wf(),
            r == old(self).spec_features().len(),
            final(self).spec_features() == old(self).spec_features().push(feature),
            final(self).spec_order() == old(self).spec_order().push(r),
    {
        let ghost before = self.order@;
        let id = self.features.len() as FeatureId;
        self.features.push(feature);
        self.order.push(id);
        proof {
            assert forall|k: int| 0 <= k < self.order@.len() implies self.order@[k] == k by {
                if k < before.len() {
                    assert(self.order@[k] == before[k]);
                }
            }
        }
        id
    }

    /// The feature with identity `id`, if there is one.
    pub fn get(&self, id: FeatureId) -> (r: Option<&Feature>)
        ensures
            match r {
                Some(f) => id < self.spec_features().len() && *f == self.spec_features()[id as int],
                None => id >= self.spec_features().len(),
            },
    {
        if id < self.features.len() as FeatureId {
            Some(&self.features[id as usize])
        } else {
            None
        }
    }

    /// The replay order: the identities of all features, in replay order.
    pub fn order(&self) -> (r: &Vec<FeatureId>)
        requires
            self.wf(),
        ensures
            r@ == self.spec_order(),
            r@.len() == self.spec_features().len(),
            forall|k: int| 0 <= k < r@.len() ==> r@[k] == k,
    {
        &self.order
    }

    /// The number of registered features, applied or not.
    pub fn len(&self) -> (r: usize)
        requires
            self.wf(),
        ensures
            r == self.spec_features().len(),
            r == self.spec_order().len(),
    {
        self.features.len()
    }
}

} // verus!
