use atomcad_scene::element::{Element, ELEMENT_COUNT};
use atomcad_scene::feature::{Feature, FeatureList, Fragment};
use atomcad_scene::ids::{AtomSpecifier, FeatureCopyId};
use std::collections::hash_map::DefaultHasher;
use std::hash::{Hash, Hasher};
use ultraviolet::Vec3;

fn hash_of(s: &AtomSpecifier) -> u64 {
    let mut h = DefaultHasher::new();
    s.hash(&mut h);
    h.finish()
}

#[test]
fn specifier_equality_is_structural() {
    let a = AtomSpecifier {
        feature_path: vec![
            FeatureCopyId { feature_id: 3, copy_index: 0 },
            FeatureCopyId { feature_id: 7, copy_index: 2 },
        ],
        child_index: 4,
    };
    let mut path = Vec::with_capacity(16);
    path.push(FeatureCopyId { feature_id: 3, copy_index: 0 });
    path.push(FeatureCopyId { feature_id: 7, copy_index: 2 });
    let b = AtomSpecifier { feature_path: path, child_index: 4 };
    assert!(a == b);
    assert!(a.same_as(&b));
    assert_eq!(hash_of(&a), hash_of(&b));
    let c = a.clone();
    assert!(c == a);
    assert_eq!(hash_of(&c), hash_of(&a));
    let d = a.duplicate();
    assert!(d == b);
}

#[test]
fn specifiers_differ_by_path_or_index() {
    let a = AtomSpecifier::child_of(2, 1);
    assert!(a != AtomSpecifier::child_of(2, 0));
    assert!(a != AtomSpecifier::child_of(1, 1));
    let copied = AtomSpecifier {
        feature_path: vec![FeatureCopyId { feature_id: 2, copy_index: 1 }],
        child_index: 1,
    };
    assert!(a != copied);
    let longer = AtomSpecifier {
        feature_path: vec![
            FeatureCopyId { feature_id: 2, copy_index: 0 },
            FeatureCopyId { feature_id: 0, copy_index: 0 },
        ],
        child_index: 1,
    };
    assert!(a != longer);
    assert!(!a.same_as(&longer));
}

#[test]
fn seed_specifier_is_first_feature_first_child() {
    let s = AtomSpecifier::seed();
    assert_eq!(s.feature_path, vec![FeatureCopyId { feature_id: 0, copy_index: 0 }]);
    assert_eq!(s.child_index, 0);
}

#[test]
fn elements_are_numbered_one_to_max() {
    assert!(Element::from_atomic_number(0).is_none());
    assert!(Element::from_atomic_number(ELEMENT_COUNT + 1).is_none());
    assert_eq!(Element::from_atomic_number(118).unwrap().atomic_number(), 118);
    assert_eq!(Element::from_atomic_number(1).unwrap().atomic_number(), 1);
    assert_eq!(Element::from_atomic_number(6), Some(Element::carbon()));
}

#[test]
fn fragment_rejects_bad_bonds() {
    let c = Element::carbon();
    let atoms = || vec![(c, Vec3::zero()), (c, Vec3::one())];
    assert!(Fragment::new(atoms(), vec![(0, 2, 1)]).is_none());
    assert!(Fragment::new(atoms(), vec![(2, 0, 1)]).is_none());
    assert!(Fragment::new(atoms(), vec![(0, 1, 1), (0, 1, 0)]).is_none());
    let f = Fragment::new(atoms(), vec![(0, 1, 2), (1, 1, 1)]).unwrap();
    assert_eq!(f.atoms().len(), 2);
    assert_eq!(f.bonds(), &vec![(0, 1, 2), (1, 1, 1)]);
    assert!(Fragment::new(Vec::new(), Vec::new()).is_some());
}

#[test]
fn timeline_assigns_sequential_identities() {
    let mut list = FeatureList::new();
    assert_eq!(list.len(), 0);
    assert!(list.get(0).is_none());
    let c = Element::carbon();
    assert_eq!(list.push_back(Feature::Root { element: c, pos: Vec3::zero() }), 0);
    let frag = Fragment::new(vec![(c, Vec3::one())], Vec::new()).unwrap();
    assert_eq!(list.push_back(Feature::Fragment(frag)), 1);
    assert_eq!(list.len(), 2);
    assert_eq!(list.order(), &vec![0u64, 1]);
    assert!(matches!(list.get(0), Some(Feature::Root { .. })));
    assert!(matches!(list.get(1), Some(Feature::Fragment(_))));
    assert!(list.get(2).is_none());
}
