//! The materialized molecule graph and the orchestrator that replays a
//! feature timeline into it.

use vstd::prelude::*;
use ultraviolet::Vec3;
use crate::element::Element;
use crate::graph::{
    all_live, graph_add_edge, graph_add_node, graph_edge_count, graph_edge_endpoints,
    graph_edge_weight, graph_edges, graph_new, graph_node_weight, graph_nodes, AtomGraph,
};
use crate::feature::{apply_spec, fragment_atoms, replay, Feature, FeatureList};
use crate::ids::{seed_specifier, AtomSpecifier, FeatureId, SpecifierView};
use crate::space::origin;

verus! {

/// The order of a bond: a small positive integer.
pub type BondOrder = u8;

/// The index of an atom's node in the graph.
pub type AtomIndex = usize;

/// The index of a bond's edge in the graph.
pub type BondIndex = usize;

/// The payload of a graph vertex.
pub struct AtomNode {
    pub element: Element,
    pub pos: Vec3,
    pub spec: AtomSpecifier,
}

/// The value of an atom: its specifier, its element and its position.
pub type AtomView = (SpecifierView, Element, Vec3);

impl View for AtomNode {
    type V = AtomView;

    open spec fn view(&self) -> AtomView {
        (self.spec@, self.element, self.pos)
    }
}

/// An atom as the rendering collaborator reads it.
#[derive(Clone, Copy)]
pub struct AtomRepr {
    pub element: Element,
    pub pos: Vec3,
}

/// The value of a materialized graph: its atoms in node order, and its bonds
/// in edge order, each as the node indices of its two ends and its order.
pub struct ReprView {
    pub atoms: Seq<AtomView>,
    pub bonds: Seq<(AtomIndex, AtomIndex, BondOrder)>,
}

impl ReprView {
    /// Whether some atom of the graph carries specifier `s`.
    pub open spec fn resolves(self, s: SpecifierView) -> bool {
        exists|i: int| 0 <= i < self.atoms.len() && (#[trigger] self.atoms[i]).0 == s
    }

    /// The node index of the atom that carries specifier `s`.
    pub open spec fn index_of(self, s: SpecifierView) -> int {
        choose|i: int| 0 <= i < self.atoms.len() && (#[trigger] self.atoms[i]).0 == s
    }

    /// No two atoms carry the same specifier.
    pub open spec fn unique_specifiers(self) -> bool {
        forall|i: int, j: int|
            0 <= i < self.atoms.len() && 0 <= j < self.atoms.len() && i != j ==> (
            #[trigger] self.atoms[i]).0 != (#[trigger] self.atoms[j]).0
    }

    /// Where no two atoms share a specifier, the specifier of atom `i` leads
    /// back to `i`.
    pub proof fn lemma_index_of(self, i: int)
        requires
            self.unique_specifiers(),
            0 <= i < self.atoms.len(),
        ensures
            self.resolves(self.atoms[i].0),
            self.index_of(self.atoms[i].0) == i,
    {
        let k = self.index_of(self.atoms[i].0);
        assert(0 <= k < self.atoms.len() && self.atoms[k].0 == self.atoms[i].0);
    }

    /// The specifier map: each specifier in the graph, to its node index.
    pub open spec fn specifier_map(self) -> Map<SpecifierView, int> {
        Map::new(|s: SpecifierView| self.resolves(s), |s: SpecifierView| self.index_of(s))
    }

    /// The graph after adding one atom.
    pub open spec fn with_atom(self, a: AtomView) -> ReprView {
        ReprView { atoms: self.atoms.push(a), bonds: self.bonds }
    }

    /// The graph after adding one bond between the atoms of two specifiers.
    pub open spec fn with_bond(self, a: SpecifierView, b: SpecifierView, order: BondOrder) -> ReprView {
        ReprView {
            atoms: self.atoms,
            bonds: self.bonds.push((self.index_of(a) as usize, self.index_of(b) as usize, order)),
        }
    }
}

/// The concrete representation of the molecule at some step of its feature
/// history.
pub struct MoleculeRepr {
    atom_map: Vec<(AtomSpecifier, AtomIndex)>,
    gpu_atoms: Vec<AtomRepr>,
    graph: AtomGraph,
    gpu_synced: bool,
}

/// Errors of the checked graph mutations.
#[derive(Debug, PartialEq, Eq, Clone, Copy, Structural)]
pub enum GraphError {
    /// The specifier of a new atom is already in the graph.
    DuplicateSpecifier,
    /// A bond endpoint's specifier is not in the graph.
    UnresolvedSpecifier,
    /// The graph has reached the largest size that its indices can address.
    CapacityExceeded,
}

/// The largest number of atoms, and of bonds, that a graph can hold.
pub const MAX_GRAPH_SIZE: usize = 4294967294;

impl MoleculeRepr {
    /// The internal invariant: the graph has no vacant slot, every bond joins
    /// two atoms, the specifier map holds one entry per atom, in node order,
    /// and no two atoms share a specifier.
    pub closed spec fn wf(self) -> bool {
        &&& all_live(graph_nodes(self.graph))
        &&& all_live(graph_edges(self.graph))
        &&& graph_nodes(self.graph).len() <= MAX_GRAPH_SIZE
        &&& graph_edges(self.graph).len() <= MAX_GRAPH_SIZE
        &&& self.atom_map@.len() == graph_nodes(self.graph).len()
        &&& forall|i: int|
            0 <= i < self.atom_map@.len() ==> {
                &&& (#[trigger] self.atom_map@[i]).1 == i
                &&& graph_nodes(self.graph)[i]->Some_0.spec@ == self.atom_map@[i].0@
            }
        &&& forall|e: int|
            0 <= e < graph_edges(self.graph).len() ==> {
                &&& (#[trigger] graph_edges(self.graph)[e])->Some_0.0 < self.atom_map@.len()
                &&& graph_edges(self.graph)[e]->Some_0.1 < self.atom_map@.len()
            }
        &&& self@.unique_specifiers()
    }

    /// No two atoms of a well-formed graph share a specifier.
    pub proof fn lemma_unique(self)
        requires
            self.wf(),
        ensures
            self@.unique_specifiers(),
    {
    }

    /// Whether the render buffer reflects every mutation of the graph.
    pub closed spec fn spec_synced(self) -> bool {
        self.gpu_synced
    }

    /// The render buffer, as it was last uploaded.
    pub closed spec fn spec_render_buffer(self) -> Seq<AtomRepr> {
        self.gpu_atoms@
    }
}

impl View for MoleculeRepr {
    type V = ReprView;

    closed spec fn view(&self) -> ReprView {
        ReprView {
            atoms: Seq::new(
                graph_nodes(self.graph).len(),
                |i: int| graph_nodes(self.graph)[i]->Some_0@,
            ),
            bonds: Seq::new(
                graph_edges(self.graph).len(),
                |e: int| graph_edges(self.graph)[e]->Some_0,
            ),
        }
    }
}

impl MoleculeRepr {
    /// A graph with no atom and no bond, for features to be applied to. A
    /// molecule never stays empty: its root feature adds the seed atom at once.
    pub fn new() -> (r: MoleculeRepr)
        ensures
            r.wf(),
            r@.atoms.len() == 0,
            r@.bonds.len() == 0,
            !r.spec_synced(),
    {
        let r = MoleculeRepr {
            atom_map: Vec::new(),
            gpu_atoms: Vec::new(),
            graph: graph_new(),
            gpu_synced: false,
        };
        proof {
            assert(r@.atoms =~= Seq::<AtomView>::empty());
        }
        r
    }

    /// The node index of the atom that carries `spec`, if any.
    fn locate(&self, spec: &AtomSpecifier) -> (r: Option<AtomIndex>)
        requires
            self.wf(),
        ensures
            match r {
                Some(i) => self@.resolves(spec@) && i == self@.index_of(spec@) && i
                    < self@.atoms.len(),
                None => !self@.resolves(spec@),
            },
    {
        let mut i: usize = 0;
        while i < self.atom_map.len()
            invariant
                self.wf(),
                i <= self.atom_map@.len(),
                forall|j: int| 0 <= j < i ==> (#[trigger] self@.atoms[j]).0 != spec@,
            decreases self.atom_map@.len() - i,
        {
            if self.atom_map[i].0.same_as(spec) {
                proof {
                    assert(self@.atoms[i as int].0 == spec@);
                    let k = self@.index_of(spec@);
                    assert(0 <= k < self@.atoms.len() && self@.atoms[k].0 == spec@);
                }
                return Some(i);
            }
            i += 1;
        }
        None
    }

    /// Inserts a vertex for a new atom.
    pub fn add_atom(&mut self, element: Element, pos: Vec3, spec: AtomSpecifier)
        requires
            old(self).wf(),
            !old(self)@.resolves(spec@),
            old(self)@.atoms.len() < MAX_GRAPH_SIZE,
        ensures
            final(self).wf(),
            final(self)@ == old(self)@.with_atom((spec@, element, pos)),
            !final(self).spec_synced(),
            final(self).spec_render_buffer() == old(self).spec_render_buffer(),
    {
        let ghost before = self@;
        let node = AtomNode { element, pos, spec: spec.duplicate() };
        let index = graph_add_node(&mut self.graph, node);
        self.atom_map.push((spec, index));
        self.gpu_synced = false;
        proof {
            assert(self@.atoms =~= before.atoms.push((spec@, element, pos)));
            assert(self@.bonds =~= before.bonds);
            assert forall|i: int, j: int|
                0 <= i < self@.atoms.len() && 0 <= j < self@.atoms.len() && i != j implies (
                #[trigger] self@.atoms[i]).0 != (#[trigger] self@.atoms[j]).0 by {
                if i < before.atoms.len() && j < before.atoms.len() {
                    assert(before.atoms[i] == self@.atoms[i]);
                    assert(before.atoms[j] == self@.atoms[j]);
                } else if i < before.atoms.len() {
                    assert(before.atoms[i] == self@.atoms[i]);
                } else {
                    assert(before.atoms[j] == self@.atoms[j]);
                }
            }
        }
    }

    /// Inserts a vertex for a new atom, or fails, leaving the graph as it was,
    /// where the specifier is already in the graph or the graph is full.
    pub fn try_add_atom(&mut self, element: Element, pos: Vec3, spec: AtomSpecifier) -> (r:
        Result<AtomIndex, GraphError>)
        requires
            old(self).wf(),
        ensures
            final(self).wf(),
            match r {
                Ok(i) => !old(self)@.resolves(spec@) && old(self)@.atoms.len() < MAX_GRAPH_SIZE
                    && i == old(self)@.atoms.len() && final(self)@ == old(self)@.with_atom(
                    (spec@, element, pos),
                ) && !final(self).spec_synced(),
                Err(e) => *final(self) == *old(self) && (e == GraphError::DuplicateSpecifier
                    <==> old(self)@.resolves(spec@)) && (e == GraphError::CapacityExceeded
                    <==> !old(self)@.resolves(spec@) && old(self)@.atoms.len() >= MAX_GRAPH_SIZE)
                    && e != GraphError::UnresolvedSpecifier,
            },
    {
        if self.locate(&spec).is_some() {
            return Err(GraphError::DuplicateSpecifier);
        }
        let n = self.atom_map.len();
        if n >= MAX_GRAPH_SIZE {
            return Err(GraphError::CapacityExceeded);
        }
        self.add_atom(element, pos, spec);
        Ok(n)
    }

    /// Inserts an edge of the given order between the atoms of two specifiers.
    pub fn create_bond(&mut self, a1: &AtomSpecifier, a2: &AtomSpecifier, order: BondOrder)
        requires
            old(self).wf(),
            old(self)@.resolves(a1@),
            old(self)@.resolves(a2@),
            old(self)@.bonds.len() < MAX_GRAPH_SIZE,
        ensures
            final(self).wf(),
            final(self)@ == old(self)@.with_bond(a1@, a2@, order),
            final(self)@.bonds.len() == old(self)@.bonds.len() + 1,
            final(self)@.bonds.last() == (
                old(self)@.index_of(a1@) as usize,
                old(self)@.index_of(a2@) as usize,
                order,
            ),
            final(self)@.specifier_map() == old(self)@.specifier_map(),
            !final(self).spec_synced(),
            final(self).spec_render_buffer() == old(self).spec_render_buffer(),
    {
        let ghost before = self@;
        let i1 = self.locate(a1).unwrap();
        let i2 = self.locate(a2).unwrap();
        graph_add_edge(&mut self.graph, i1, i2, order);
        self.gpu_synced = false;
        proof {
            assert(self@.atoms =~= before.atoms);
            assert(self@.bonds =~= before.bonds.push((i1, i2, order)));
        }
    }

    /// Inserts an edge between the atoms of two specifiers, or fails, leaving
    /// the graph as it was, where either specifier does not resolve or the
    /// graph is full.
    pub fn try_create_bond(&mut self, a1: &AtomSpecifier, a2: &AtomSpecifier, order: BondOrder)
        -> (r: Result<BondIndex, GraphError>)
        requires
            old(self).wf(),
        ensures
            final(self).wf(),
            match r {
                Ok(e) => old(self)@.resolves(a1@) && old(self)@.resolves(a2@) && old(
                    self,
                )@.bonds.len() < MAX_GRAPH_SIZE && e == old(self)@.bonds.len() && final(self)@
                    == old(self)@.with_bond(a1@, a2@, order) && !final(self).spec_synced(),
                Err(e) => *final(self) == *old(self) && (e == GraphError::UnresolvedSpecifier
                    <==> !(old(self)@.resolves(a1@) && old(self)@.resolves(a2@))) && (e
                    == GraphError::CapacityExceeded <==> old(self)@.resolves(a1@) && old(
                    self,
                )@.resolves(a2@) && old(self)@.bonds.len() >= MAX_GRAPH_SIZE) && e
                    != GraphError::DuplicateSpecifier,
            },
    {
        if self.locate(a1).is_none() || self.locate(a2).is_none() {
            return Err(GraphError::UnresolvedSpecifier);
        }
        let n = graph_edge_count(&self.graph);
        if n >= MAX_GRAPH_SIZE {
            return Err(GraphError::CapacityExceeded);
        }
        self.create_bond(a1, a2, order);
        Ok(n)
    }

    /// The atom that carries `spec`, if there is one.
    pub fn find_atom(&self, spec: &AtomSpecifier) -> (r: Option<&AtomNode>)
        requires
            self.wf(),
        ensures
            match r {
                Some(n) => self@.resolves(spec@) && n@ == self@.atoms[self@.index_of(spec@)],
                None => !self@.resolves(spec@),
            },
    {
        match self.locate(spec) {
            Some(i) => graph_node_weight(&self.graph, i),
            None => None,
        }
    }

    /// Flattens the current atoms into the render buffer and marks it synced.
    pub fn reupload_atoms(&mut self)
        requires
            old(self).wf(),
        ensures
            final(self).wf(),
            final(self)@ == old(self)@,
            final(self).spec_synced(),
            final(self).spec_render_buffer().map_values(|a: AtomRepr| (a.element, a.pos))
                == render_entries(old(self)@.atoms),
    {
        let mut buffer: Vec<AtomRepr> = Vec::new();
        let n = self.atom_map.len();
        let mut i: usize = 0;
        while i < n
            invariant
                self.wf(),
                n == self@.atoms.len(),
                i <= n,
                buffer@.len() == i,
                forall|j: int|
                    0 <= j < i ==> (#[trigger] buffer@[j]).element == self@.atoms[j].1
                        && buffer@[j].pos == self@.atoms[j].2,
            decreases n - i,
        {
            let node = graph_node_weight(&self.graph, i).unwrap();
            buffer.push(AtomRepr { element: node.element, pos: node.pos });
            i += 1;
        }
        self.gpu_atoms = buffer;
        self.gpu_synced = true;
        proof {
            assert(self.spec_render_buffer().map_values(|a: AtomRepr| (a.element, a.pos))
                =~= render_entries(self@.atoms));
        }
    }

    /// The render buffer, as it was last uploaded.
    pub fn atoms(&self) -> (r: &Vec<AtomRepr>)
        ensures
            r@ == self.spec_render_buffer(),
    {
        &self.gpu_atoms
    }

    /// Whether the render buffer reflects every mutation of the graph.
    pub fn is_synced(&self) -> (r: bool)
        ensures
            r == self.spec_synced(),
    {
        self.gpu_synced
    }

    /// The number of atoms.
    pub fn atom_count(&self) -> (r: usize)
        requires
            self.wf(),
        ensures
            r == self@.atoms.len(),
    {
        self.atom_map.len()
    }

    /// The number of bonds.
    pub fn bond_count(&self) -> (r: usize)
        requires
            self.wf(),
        ensures
            r == self@.bonds.len(),
    {
        graph_edge_count(&self.graph)
    }

    /// The bond with index `i`: the node indices of its two ends, and its
    /// order.
    pub fn bond(&self, i: BondIndex) -> (r: Option<(AtomIndex, AtomIndex, BondOrder)>)
        requires
            self.wf(),
        ensures
            match r {
                Some(b) => i < self@.bonds.len() && b == self@.bonds[i as int],
                None => i >= self@.bonds.len(),
            },
    {
        if i >= graph_edge_count(&self.graph) {
            return None;
        }
        let (a, b) = graph_edge_endpoints(&self.graph, i).unwrap();
        let order = graph_edge_weight(&self.graph, i).unwrap();
        Some((a, b, order))
    }
}

/// Every atom of `m` was created by a feature whose identity is below `step`.
pub open spec fn created_before(m: ReprView, step: nat) -> bool {
    forall|i: int|
        0 <= i < m.atoms.len() ==> (#[trigger] m.atoms[i]).0.0.len() > 0 && m.atoms[i].0.0[0].feature_id
            < step
}

/// Applying a feature keeps every atom and bond already there, in place, and
/// every atom it adds carries a specifier rooted at the feature's identity.
pub proof fn lemma_apply_extends(f: Feature, id: FeatureId, m: ReprView)
    ensures
        apply_spec(f, id, m).atoms.len() >= m.atoms.len(),
        apply_spec(f, id, m).bonds.len() >= m.bonds.len(),
        apply_spec(f, id, m).atoms.subrange(0, m.atoms.len() as int) == m.atoms,
        forall|i: int|
            m.atoms.len() <= i < apply_spec(f, id, m).atoms.len() ==> (#[trigger] apply_spec(
                f,
                id,
                m,
            ).atoms[i]).0.0.len() > 0 && apply_spec(f, id, m).atoms[i].0.0[0].feature_id == id,
{
    let r = apply_spec(f, id, m);
    assert(r.atoms.subrange(0, m.atoms.len() as int) =~= m.atoms);
    match f {
        Feature::Root { .. } => {},
        Feature::Fragment(fr) => {
            assert forall|i: int| m.atoms.len() <= i < r.atoms.len() implies (
            #[trigger] r.atoms[i]).0.0.len() > 0 && r.atoms[i].0.0[0].feature_id == id by {
                let c = i - m.atoms.len();
                assert(r.atoms[i] == fragment_atoms(id, fr.spec_atoms())[c]);
            }
        },
    }
}

/// Replaying more of a timeline never shrinks the graph.
pub proof fn lemma_replay_grows(m: ReprView, fs: Seq<Feature>, from: nat, mid: nat, to: nat)
    requires
        from <= mid <= to,
    ensures
        replay(m, fs, from, mid).atoms.len() <= replay(m, fs, from, to).atoms.len(),
        replay(m, fs, from, mid).bonds.len() <= replay(m, fs, from, to).bonds.len(),
    decreases to - mid,
{
    if mid < to {
        lemma_replay_grows(m, fs, from, mid, (to - 1) as nat);
        lemma_apply_extends(fs[to - 1], (to - 1) as FeatureId, replay(m, fs, from, (to - 1) as nat));
    }
}

/// Replaying a timeline from `from` to `mid`, then on from `mid` to `to`,
/// gives the same graph as replaying it from `from` to `to` at once.
pub proof fn lemma_replay_split(m: ReprView, fs: Seq<Feature>, from: nat, mid: nat, to: nat)
    requires
        from <= mid <= to,
    ensures
        replay(replay(m, fs, from, mid), fs, mid, to) == replay(m, fs, from, to),
    decreases to - mid,
{
    if mid < to {
        lemma_replay_split(m, fs, from, mid, (to - 1) as nat);
    }
}

/// The graph after a replay to each of `targets` in turn, starting at step
/// `from`.
pub open spec fn replay_in_steps(m: ReprView, fs: Seq<Feature>, from: nat, targets: Seq<nat>) -> ReprView
    decreases targets.len(),
{
    if targets.len() == 0 {
        m
    } else {
        let prev = if targets.len() == 1 {
            from
        } else {
            targets[targets.len() - 2]
        };
        replay(replay_in_steps(m, fs, from, targets.drop_last()), fs, prev, targets.last())
    }
}

/// Whether `targets` rises strictly, starting above `from`.
pub open spec fn strictly_rising_from(from: nat, targets: Seq<nat>) -> bool {
    &&& targets.len() > 0 ==> from < targets[0]
    &&& forall|k: int| 0 < k < targets.len() ==> targets[k - 1] < #[trigger] targets[k]
}

/// Advancing the history through any strictly rising sequence of
/// intermediate steps yields the same graph (same atoms, bonds and
/// specifiers) as advancing to the last of them in one call.
pub proof fn lemma_replay_in_steps(m: ReprView, fs: Seq<Feature>, from: nat, targets: Seq<nat>)
    requires
        targets.len() > 0,
        strictly_rising_from(from, targets),
    ensures
        replay_in_steps(m, fs, from, targets) == replay(m, fs, from, targets.last()),
    decreases targets.len(),
{
    if targets.len() > 1 {
        let init = targets.drop_last();
        assert(strictly_rising_from(from, init)) by {
            assert forall|k: int| 0 < k < init.len() implies init[k - 1] < #[trigger] init[k] by {
                assert(init[k] == targets[k] && init[k - 1] == targets[k - 1]);
            }
        }
        lemma_replay_in_steps(m, fs, from, init);
        assert forall|k: int| 0 <= k < targets.len() implies from < #[trigger] targets[k] by {
            lemma_rising_above(from, targets, k);
        }
        assert(init.last() == targets[targets.len() - 2]);
        assert(targets[targets.len() - 2] < targets[targets.len() - 1]);
        lemma_replay_split(m, fs, from, init.last(), targets.last());
    } else {
        assert(replay_in_steps(m, fs, from, targets.drop_last()) == m);
    }
}

proof fn lemma_rising_above(from: nat, targets: Seq<nat>, k: int)
    requires
        strictly_rising_from(from, targets),
        0 <= k < targets.len(),
    ensures
        from < targets[k],
    decreases k,
{
    if k > 0 {
        lemma_rising_above(from, targets, k - 1);
    }
}

/// The render buffer entries for a sequence of atoms.
pub open spec fn render_entries(atoms: Seq<AtomView>) -> Seq<(Element, Vec3)> {
    atoms.map_values(|a: AtomView| (a.1, a.2))
}

} // verus!

verus! {

/// Why a history step was refused.
#[derive(Debug, PartialEq, Eq, Clone, Copy, Structural)]
pub enum HistoryError {
    /// The target is the current step or an earlier one.
    NotForward,
    /// The target is past the end of the timeline.
    BeyondTimeline,
}

/// A molecule: a feature timeline, the graph materialized from it, and the
/// history step, the number of timeline entries applied so far.
pub struct Molecule {
    repr: MoleculeRepr,
    features: FeatureList,
    history_step: usize,
}

impl Molecule {
    /// The internal invariant: the step lies within the timeline, and every
    /// atom comes from a feature that is already applied.
    pub closed spec fn wf(self) -> bool {
        &&& self.repr.wf()
        &&& self.features.wf()
        &&& self.history_step <= self.features.spec_features().len()
        &&& created_before(self.repr@, self.history_step as nat)
    }

    pub closed spec fn spec_repr(self) -> MoleculeRepr {
        self.repr
    }

    pub closed spec fn spec_features(self) -> FeatureList {
        self.features
    }

    pub closed spec fn spec_history_step(self) -> nat {
        self.history_step as nat
    }

    /// The graph that advancing to step `target` gives.
    pub open spec fn replayed_to(self, target: nat) -> ReprView {
        replay(
            self.spec_repr()@,
            self.spec_features().spec_features(),
            self.spec_history_step(),
            target,
        )
    }

    /// Whether advancing to step `target` keeps the graph within the size
    /// that its indices can address.
    pub open spec fn fits(self, target: nat) -> bool {
        &&& self.replayed_to(target).atoms.len() <= MAX_GRAPH_SIZE
        &&& self.replayed_to(target).bonds.len() <= MAX_GRAPH_SIZE
    }

    /// A molecule of a single atom of element `first_atom` at the origin: the
    /// timeline holds the root feature alone, and it is applied.
    pub fn from_first_atom(first_atom: Element) -> (r: Molecule)
        ensures
            r.wf(),
            r.spec_history_step() == 1,
            r.spec_features().spec_features().len() == 1,
            r.spec_features().spec_features()[0] is Root,
            r.spec_features().spec_features()[0]->Root_element == first_atom,
            r.spec_repr()@.atoms == seq![
                (seed_specifier(), first_atom, r.spec_features().spec_features()[0]->Root_pos),
            ],
            r.spec_repr()@.bonds.len() == 0,
            r.spec_repr()@.specifier_map() == map![seed_specifier() => 0int],
            r.spec_repr()@.resolves(seed_specifier()),
            r.spec_repr()@.index_of(seed_specifier()) == 0,
    {
        let mut features = FeatureList::new();
        let pos = origin();
        features.push_back(Feature::Root { element: first_atom, pos });
        let mut r = Molecule { repr: MoleculeRepr::new(), features, history_step: 0 };
        proof {
            assert(replay(r.repr@, r.features.spec_features(), 0, 0) == r.repr@);
            assert(r.replayed_to(1) == apply_spec(r.features.spec_features()[0], 0, r.repr@));
        }
        r.set_history_step(1);
        proof {
            let m = r.repr@;
            assert(m.atoms =~= seq![(seed_specifier(), first_atom, pos)]);
            m.lemma_index_of(0);
            assert(m.specifier_map() =~= map![seed_specifier() => 0int]);
        }
        r
    }

    /// The history step of a well-formed molecule lies within its timeline.
    pub proof fn lemma_step_within_timeline(self)
        requires
            self.wf(),
        ensures
            self.spec_history_step() <= self.spec_features().spec_features().len(),
    {
    }

    /// The timeline.
    pub fn features(&self) -> (r: &FeatureList)
        ensures
            *r == self.spec_features(),
    {
        &self.features
    }

    /// The materialized graph.
    pub fn repr(&self) -> (r: &MoleculeRepr)
        requires
            self.wf(),
        ensures
            *r == self.spec_repr(),
            r.wf(),
    {
        &self.repr
    }

    /// The number of timeline entries applied so far.
    pub fn history_step(&self) -> (r: usize)
        ensures
            r == self.spec_history_step(),
    {
        self.history_step
    }

    /// Flattens the current atoms into the render buffer.
    pub fn reupload_atoms(&mut self)
        requires
            old(self).wf(),
        ensures
            final(self).wf(),
            final(self).spec_repr()@ == old(self).spec_repr()@,
            final(self).spec_features() == old(self).spec_features(),
            final(self).spec_history_step() == old(self).spec_history_step(),
            final(self).spec_repr().spec_synced(),
            final(self).spec_repr().spec_render_buffer().map_values(
                |a: AtomRepr| (a.element, a.pos),
            ) == render_entries(old(self).spec_repr()@.atoms),
    {
        self.repr.reupload_atoms();
    }

    /// Hands the timeline to `func` for editing, and keeps what it returns.
    /// The graph is not recomputed: the caller advances the history
    /// afterwards. `func` must keep the timeline well formed and at least as
    /// long as the current history step.
    pub fn with_features<F: FnOnce(FeatureList) -> FeatureList>(&mut self, func: F)
        requires
            old(self).wf(),
            func.requires((old(self).spec_features(),)),
            forall|r: FeatureList|
                func.ensures((old(self).spec_features(),), r) ==> r.wf()
                    && r.spec_features().len() >= old(self).spec_history_step(),
        ensures
            final(self).wf(),
            func.ensures((old(self).spec_features(),), final(self).spec_features()),
            final(self).spec_repr() == old(self).spec_repr(),
            final(self).spec_history_step() == old(self).spec_history_step(),
    {
        let ghost before = self.features;
        let mut features = FeatureList::new();
        std::mem::swap(&mut features, &mut self.features);
        let edited = func(features);
        proof {
            assert(before == old(self).spec_features());
            assert(func.ensures((old(self).spec_features(),), edited));
            assert(edited.wf());
        }
        self.features = edited;
    }

    /// Advances the history to step `target`, replaying in timeline order
    /// each feature from the current step up to `target`, each with its own
    /// identity.
    pub fn set_history_step(&mut self, target: usize)
        requires
            old(self).wf(),
            old(self).spec_history_step() < target,
            target <= old(self).spec_features().spec_features().len(),
            old(self).fits(target as nat),
        ensures
            final(self).wf(),
            final(self).spec_repr()@ == old(self).replayed_to(target as nat),
            final(self).spec_features() == old(self).spec_features(),
            final(self).spec_history_step() == target,
            final(self).spec_repr()@ != old(self).spec_repr()@ ==> !final(self).spec_repr().spec_synced(),
    {
        let ghost m0 = self.repr@;
        let ghost fs = self.features.spec_features();
        let ghost start = self.history_step as nat;
        let ghost f0 = self.features;
        let mut step = self.history_step;
        while step < target
            invariant
                self.repr.wf(),
                self.features.wf(),
                self.features == f0,
                f0.spec_features() == fs,
                start <= step <= target,
                target <= fs.len(),
                self.repr@ == replay(m0, fs, start, step as nat),
                created_before(self.repr@, step as nat),
                replay(m0, fs, start, target as nat).atoms.len() <= MAX_GRAPH_SIZE,
                replay(m0, fs, start, target as nat).bonds.len() <= MAX_GRAPH_SIZE,
                self.repr@ != m0 ==> !self.repr.spec_synced(),
            decreases target - step,
        {
            let id = self.features.order()[step];
            let feature = self.features.get(id).unwrap();
            proof {
                lemma_replay_grows(m0, fs, start, (step + 1) as nat, target as nat);
                assert(replay(m0, fs, start, (step + 1) as nat) == apply_spec(
                    fs[step as int],
                    id,
                    self.repr@,
                ));
                lemma_apply_extends(fs[step as int], id, self.repr@);
            }
            feature.apply(id, &mut self.repr);
            proof {
                let before = replay(m0, fs, start, step as nat);
                assert forall|i: int| 0 <= i < self.repr@.atoms.len() implies (
                #[trigger] self.repr@.atoms[i]).0.0.len() > 0 && self.repr@.atoms[i].0.0[0].feature_id
                    < step + 1 by {
                    if i < before.atoms.len() {
                        assert(self.repr@.atoms.subrange(0, before.atoms.len() as int)[i]
                            == before.atoms[i]);
                    }
                }
            }
            step += 1;
        }
        self.history_step = target;
    }

    /// Advances the history to step `target` as `set_history_step` does, or
    /// refuses, applying nothing and changing nothing, where `target` is not
    /// past the current step or lies beyond the timeline.
    pub fn try_set_history_step(&mut self, target: usize) -> (r: Result<(), HistoryError>)
        requires
            old(self).wf(),
            old(self).spec_history_step() < target <= old(
                self,
            ).spec_features().spec_features().len() ==> old(self).fits(target as nat),
        ensures
            final(self).wf(),
            match r {
                Ok(()) => old(self).spec_history_step() < target && target <= old(
                    self,
                ).spec_features().spec_features().len() && final(self).spec_repr()@ == old(
                    self,
                ).replayed_to(target as nat) && final(self).spec_features() == old(
                    self,
                ).spec_features() && final(self).spec_history_step() == target,
                Err(e) => *final(self) == *old(self) && (e == HistoryError::NotForward <==> target
                    <= old(self).spec_history_step()) && (e == HistoryError::BeyondTimeline
                    <==> old(self).spec_history_step() < target && target > old(
                    self,
                ).spec_features().spec_features().len()),
            },
    {
        if target <= self.history_step {
            return Err(HistoryError::NotForward);
        }
        if target > self.features.len() {
            return Err(HistoryError::BeyondTimeline);
        }
        self.set_history_step(target);
        Ok(())
    }

    /// Applies every feature of the timeline that is not applied yet.
    pub fn apply_all_features(&mut self)
        requires
            old(self).wf(),
            old(self).spec_history_step() < old(self).spec_features().spec_features().len(),
            old(self).fits(old(self).spec_features().spec_features().len()),
        ensures
            final(self).wf(),
            final(self).spec_repr()@ == old(self).replayed_to(
                old(self).spec_features().spec_features().len(),
            ),
            final(self).spec_features() == old(self).spec_features(),
            final(self).spec_history_step() == old(self).spec_features().spec_features().len(),
    {
        let n = self.features.len();
        self.set_history_step(n);
    }
}

} // verus!
