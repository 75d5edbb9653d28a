use atomcad_scene::element::Element;
use atomcad_scene::feature::{Feature, FeatureList, Fragment};
use atomcad_scene::ids::{AtomSpecifier, FeatureCopyId};
use atomcad_scene::molecule::{GraphError, HistoryError, Molecule, MoleculeRepr};
use ultraviolet::Vec3;

fn spec(feature_id: u64, child_index: usize) -> AtomSpecifier {
    AtomSpecifier {
        feature_path: vec![FeatureCopyId { feature_id, copy_index: 0 }],
        child_index,
    }
}

fn element(n: u8) -> Element {
    Element::from_atomic_number(n).unwrap()
}

fn water_like() -> Fragment {
    Fragment::new(
        vec![(element(1), Vec3::new(1.0, 0.0, 0.0)), (element(8), Vec3::new(0.0, 1.0, 0.0))],
        vec![(0, 1, 1)],
    )
    .unwrap()
}

fn chain(n: usize) -> Fragment {
    let mut atoms = Vec::new();
    let mut bonds = Vec::new();
    for i in 0..n {
        atoms.push((element(6), Vec3::new(i as f32, 2.0, 0.0)));
        if i > 0 {
            bonds.push((i - 1, i, 1 + (i % 3) as u8));
        }
    }
    Fragment::new(atoms, bonds).unwrap()
}

fn push(m: &mut Molecule, f: Fragment) {
    m.with_features(move |mut list: FeatureList| {
        list.push_back(Feature::Fragment(f));
        list
    });
}

#[test]
fn seed_molecule_has_one_carbon_at_origin() {
    let m = Molecule::from_first_atom(Element::carbon());
    assert_eq!(m.repr().atom_count(), 1);
    assert_eq!(m.repr().bond_count(), 0);
    assert_eq!(m.features().len(), 1);
    assert_eq!(m.features().order(), &vec![0u64]);
    assert!(matches!(m.features().get(0), Some(Feature::Root { .. })));
    assert_eq!(m.history_step(), 1);
    let seed = AtomSpecifier::seed();
    assert!(seed == spec(0, 0));
    let atom = m.repr().find_atom(&seed).unwrap();
    assert_eq!(atom.element, Element::carbon());
    assert_eq!(atom.element.atomic_number(), 6);
    assert_eq!(atom.pos, Vec3::zero());
    assert!(atom.spec == spec(0, 0));
    assert!(m.repr().find_atom(&spec(0, 1)).is_none());
    assert!(m.repr().find_atom(&spec(1, 0)).is_none());
}

#[test]
fn second_feature_adds_two_atoms_and_a_bond() {
    let mut m = Molecule::from_first_atom(Element::carbon());
    push(&mut m, water_like());
    assert_eq!(m.features().len(), 2);
    // Editing the timeline does not recompute the graph.
    assert_eq!(m.repr().atom_count(), 1);
    assert_eq!(m.history_step(), 1);
    m.set_history_step(2);
    assert_eq!(m.history_step(), 2);
    assert_eq!(m.repr().atom_count(), 3);
    assert_eq!(m.repr().bond_count(), 1);
    let h = m.repr().find_atom(&spec(1, 0)).unwrap();
    assert_eq!(h.element.atomic_number(), 1);
    assert_eq!(h.pos, Vec3::new(1.0, 0.0, 0.0));
    let o = m.repr().find_atom(&spec(1, 1)).unwrap();
    assert_eq!(o.element.atomic_number(), 8);
    assert_eq!(m.repr().bond(0), Some((1, 2, 1)));
    assert_eq!(m.repr().bond(1), None);
    assert!(m.repr().find_atom(&spec(1, 2)).is_none());
}

#[test]
fn stepping_to_current_step_is_rejected() {
    let mut m = Molecule::from_first_atom(Element::carbon());
    assert_eq!(m.try_set_history_step(1), Err(HistoryError::NotForward));
    assert_eq!(m.history_step(), 1);
    assert_eq!(m.repr().atom_count(), 1);
    assert_eq!(m.repr().bond_count(), 0);
    assert!(m.repr().find_atom(&spec(0, 0)).is_some());
}

#[test]
fn stepping_backwards_is_rejected_without_applying() {
    let mut m = Molecule::from_first_atom(Element::carbon());
    push(&mut m, water_like());
    push(&mut m, chain(2));
    m.set_history_step(2);
    assert_eq!(m.try_set_history_step(1), Err(HistoryError::NotForward));
    assert_eq!(m.try_set_history_step(0), Err(HistoryError::NotForward));
    assert_eq!(m.try_set_history_step(2), Err(HistoryError::NotForward));
    assert_eq!(m.history_step(), 2);
    assert_eq!(m.repr().atom_count(), 3);
    assert_eq!(m.repr().bond_count(), 1);
}

#[test]
fn stepping_beyond_timeline_is_rejected() {
    let mut m = Molecule::from_first_atom(Element::carbon());
    push(&mut m, water_like());
    assert_eq!(m.try_set_history_step(3), Err(HistoryError::BeyondTimeline));
    assert_eq!(m.history_step(), 1);
    assert_eq!(m.repr().atom_count(), 1);
    assert_eq!(m.try_set_history_step(2), Ok(()));
    assert_eq!(m.history_step(), 2);
    assert_eq!(m.repr().atom_count(), 3);
}

#[test]
fn apply_all_features_reaches_timeline_end() {
    let mut m = Molecule::from_first_atom(Element::carbon());
    push(&mut m, water_like());
    push(&mut m, chain(4));
    m.apply_all_features();
    assert_eq!(m.history_step(), 3);
    assert_eq!(m.repr().atom_count(), 7);
    assert_eq!(m.repr().bond_count(), 4);
    assert_eq!(m.repr().bond(1), Some((3, 4, 2)));
    assert_eq!(m.repr().bond(3), Some((5, 6, 1)));
    for c in 0..4 {
        assert!(m.repr().find_atom(&spec(2, c)).is_some());
    }
}

fn snapshot(m: &Molecule) -> (Vec<(usize, u8, [f32; 3])>, Vec<(usize, usize, u8)>) {
    let repr = m.repr();
    let mut atoms = Vec::new();
    for f in 0..m.features().len() as u64 {
        for c in 0..10 {
            if let Some(a) = repr.find_atom(&spec(f, c)) {
                atoms.push((c, a.element.atomic_number(), [a.pos.x, a.pos.y, a.pos.z]));
            }
        }
    }
    let mut bonds = Vec::new();
    for i in 0..repr.bond_count() {
        bonds.push(repr.bond(i).unwrap());
    }
    (atoms, bonds)
}

#[test]
fn stepwise_replay_matches_single_replay() {
    let build = || {
        let mut m = Molecule::from_first_atom(Element::carbon());
        push(&mut m, water_like());
        push(&mut m, chain(3));
        push(&mut m, chain(5));
        push(&mut m, water_like());
        m
    };
    let mut stepwise = build();
    stepwise.set_history_step(2);
    stepwise.set_history_step(3);
    stepwise.set_history_step(5);
    let mut at_once = build();
    at_once.set_history_step(5);
    assert_eq!(stepwise.history_step(), at_once.history_step());
    assert_eq!(snapshot(&stepwise), snapshot(&at_once));
    assert_eq!(stepwise.repr().atom_count(), 1 + 2 + 3 + 5 + 2);
    assert_eq!(stepwise.repr().bond_count(), 1 + 2 + 4 + 1);
}

#[test]
fn add_atom_with_present_specifier_fails_and_leaves_graph() {
    let mut g = MoleculeRepr::new();
    assert_eq!(g.try_add_atom(Element::carbon(), Vec3::zero(), spec(0, 0)), Ok(0));
    assert_eq!(g.try_add_atom(element(7), Vec3::one(), spec(0, 1)), Ok(1));
    assert_eq!(
        g.try_add_atom(element(8), Vec3::one(), spec(0, 0)),
        Err(GraphError::DuplicateSpecifier)
    );
    assert_eq!(g.atom_count(), 2);
    assert_eq!(g.find_atom(&spec(0, 0)).unwrap().element, Element::carbon());
    assert_eq!(g.find_atom(&spec(0, 1)).unwrap().element.atomic_number(), 7);
}

#[test]
fn create_bond_needs_resolved_endpoints() {
    let mut g = MoleculeRepr::new();
    g.add_atom(Element::carbon(), Vec3::zero(), spec(0, 0));
    g.add_atom(element(8), Vec3::one(), spec(0, 1));
    assert_eq!(g.try_create_bond(&spec(0, 0), &spec(3, 0), 1), Err(GraphError::UnresolvedSpecifier));
    assert_eq!(g.try_create_bond(&spec(3, 0), &spec(0, 1), 1), Err(GraphError::UnresolvedSpecifier));
    assert_eq!(g.bond_count(), 0);
    assert_eq!(g.try_create_bond(&spec(0, 1), &spec(0, 0), 2), Ok(0));
    assert_eq!(g.bond_count(), 1);
    assert_eq!(g.bond(0), Some((1, 0, 2)));
    assert_eq!(g.atom_count(), 2);
    assert!(g.find_atom(&spec(0, 0)).is_some());
    assert!(g.find_atom(&spec(0, 1)).is_some());
    g.create_bond(&spec(0, 0), &spec(0, 1), 3);
    assert_eq!(g.bond(1), Some((0, 1, 3)));
}

#[test]
fn mutations_clear_synced_flag_and_reupload_sets_it() {
    let mut g = MoleculeRepr::new();
    g.add_atom(Element::carbon(), Vec3::new(1.0, 2.0, 3.0), spec(0, 0));
    assert!(!g.is_synced());
    assert!(g.atoms().is_empty());
    g.reupload_atoms();
    assert!(g.is_synced());
    assert_eq!(g.atoms().len(), 1);
    assert_eq!(g.atoms()[0].element, Element::carbon());
    assert_eq!(g.atoms()[0].pos, Vec3::new(1.0, 2.0, 3.0));
    g.add_atom(element(1), Vec3::zero(), spec(0, 1));
    assert!(!g.is_synced());
    assert_eq!(g.atoms().len(), 1);
    g.reupload_atoms();
    g.create_bond(&spec(0, 0), &spec(0, 1), 1);
    assert!(!g.is_synced());
    g.reupload_atoms();
    assert_eq!(g.atoms().len(), 2);
    assert_eq!(g.atoms()[1].element.atomic_number(), 1);
}

#[test]
fn molecule_reupload_mirrors_atoms() {
    let mut m = Molecule::from_first_atom(element(14));
    push(&mut m, water_like());
    m.set_history_step(2);
    m.reupload_atoms();
    assert!(m.repr().is_synced());
    let buffer = m.repr().atoms();
    assert_eq!(buffer.len(), 3);
    assert_eq!(buffer[0].element.atomic_number(), 14);
    assert_eq!(buffer[2].element.atomic_number(), 8);
    assert_eq!(buffer[1].pos, Vec3::new(1.0, 0.0, 0.0));
    push(&mut m, chain(1));
    m.set_history_step(3);
    assert!(!m.repr().is_synced());
    assert_eq!(m.repr().atoms().len(), 3);
    m.reupload_atoms();
    assert_eq!(m.repr().atoms().len(), 4);
}

#[test]
fn root_feature_applies_seed_atom() {
    let mut g = MoleculeRepr::new();
    let root = Feature::Root { element: element(5), pos: Vec3::zero() };
    root.apply(0, &mut g);
    assert_eq!(g.atom_count(), 1);
    assert_eq!(g.find_atom(&AtomSpecifier::seed()).unwrap().element.atomic_number(), 5);
    water_like_feature().apply(1, &mut g);
    assert_eq!(g.atom_count(), 3);
    assert_eq!(g.bond(0), Some((1, 2, 1)));
}

fn water_like_feature() -> Feature {
    Feature::Fragment(water_like())
}
