use rust_tracer::aabb::Aabb;
use rust_tracer::bvh::{BvhNode, Primitive};
use rust_tracer::hittable_list::{closest_hit, HittableList};
use rust_tracer::integrator::{radiance_step, RadianceStep};
use rust_tracer::materials::{
    dielectric_choice, scatters, DielectricChoice, MaterialKind,
};
use rust_tracer::ray::Vec3;
use rust_tracer::rng::rand_int;
use rust_tracer::texture::{clamp_index, ImageTexture};

fn boxed(id: usize, lo: u64, hi: u64) -> Primitive {
    Primitive {
        id,
        bbox: Aabb::new(Vec3::new(lo, lo, lo), Vec3::new(hi, hi, hi)),
    }
}

fn collect_leaf_ids(t: &BvhNode, out: &mut Vec<usize>) {
    match t {
        BvhNode::Leaf(p) => out.push(p.id),
        BvhNode::Node { left, right, .. } => {
            collect_leaf_ids(left, out);
            collect_leaf_ids(right, out);
        }
    }
}

fn check_boxes(t: &BvhNode) -> Aabb {
    match t {
        BvhNode::Leaf(p) => p.bbox,
        BvhNode::Node { left, right, bbox } => {
            let lb = check_boxes(left);
            let rb = check_boxes(right);
            let expect = Aabb::surrounding_box(lb, rb);
            assert_eq!(*bbox, expect);
            *bbox
        }
    }
}

#[test]
fn bvh_build_keeps_every_primitive() {
    let prims: Vec<Primitive> =
        (0..7).map(|k| boxed(k, 10 * k as u64, 10 * k as u64 + 5)).collect();
    let tree = BvhNode::build(prims.clone());
    let mut ids = Vec::new();
    collect_leaf_ids(&tree, &mut ids);
    ids.sort();
    ids.dedup();
    assert_eq!(ids, (0..7).collect::<Vec<usize>>());
}

#[test]
fn bvh_build_boxes_are_unions() {
    let prims: Vec<Primitive> = vec![
        boxed(0, 3, 9),
        boxed(1, 50, 60),
        boxed(2, 0, 2),
        boxed(3, 20, 31),
        boxed(4, 7, 8),
    ];
    let tree = BvhNode::build(prims);
    let root = check_boxes(&tree);
    assert_eq!(root.min, Vec3::new(0, 0, 0));
    assert_eq!(root.max, Vec3::new(60, 60, 60));
    assert_eq!(tree.get_bounding_box(), Some(root));
}

#[test]
fn bvh_single_primitive_doubles_as_both_children() {
    let p = boxed(42, 5, 6);
    let tree = BvhNode::build(vec![p]);
    match &tree {
        BvhNode::Node { left, right, bbox } => {
            assert!(matches!(**left, BvhNode::Leaf(q) if q.id == 42));
            assert!(matches!(**right, BvhNode::Leaf(q) if q.id == 42));
            assert_eq!(*bbox, p.bbox);
        }
        BvhNode::Leaf(_) => panic!("one primitive still builds an inner node"),
    }
    let mut ids = Vec::new();
    collect_leaf_ids(&tree, &mut ids);
    assert_eq!(ids, vec![42, 42]);
}

#[test]
fn bvh_pair_is_ordered_along_some_axis() {
    // Both primitives ordered the same way on every axis, so whatever axis
    // the build drew, the left child is the smaller one.
    let small = boxed(0, 0, 1);
    let large = boxed(1, 100, 101);
    let tree = BvhNode::build(vec![large, small]);
    match &tree {
        BvhNode::Node { left, right, .. } => {
            assert!(matches!(**left, BvhNode::Leaf(q) if q.id == 0));
            assert!(matches!(**right, BvhNode::Leaf(q) if q.id == 1));
        }
        BvhNode::Leaf(_) => panic!("two primitives build an inner node"),
    }
}

#[test]
fn closest_hit_takes_earliest_minimum() {
    let cands: Vec<Option<u64>> = vec![None, Some(9), Some(4), None, Some(4), Some(7)];
    assert_eq!(closest_hit(&cands), Some((2, 4)));
    let none: Vec<Option<u64>> = vec![None, None];
    assert_eq!(closest_hit(&none), None);
    let empty: Vec<Option<u64>> = vec![];
    assert_eq!(closest_hit(&empty), None);
}

#[test]
fn list_bounding_box_folds_unions() {
    let mut list = HittableList::new();
    assert_eq!(list.bounding_box(), None);
    list.add(Some(Aabb::new(Vec3::new(4, 4, 4), Vec3::new(6, 6, 6))));
    list.add(None);
    list.add(Some(Aabb::new(Vec3::new(1, 5, 5), Vec3::new(5, 9, 5))));
    assert_eq!(list.len(), 3);
    let bb = list.bounding_box().unwrap();
    assert_eq!(bb.min, Vec3::new(1, 4, 4));
    assert_eq!(bb.max, Vec3::new(6, 9, 6));
}

#[test]
fn list_of_boxless_objects_reports_placeholder() {
    // The fold starts from the zero placeholder and never replaces
    // it when no object reported a box.
    let mut list = HittableList::new();
    list.add(None);
    list.add(None);
    let bb = list.bounding_box().unwrap();
    assert_eq!(bb, Aabb::blank());
}

#[test]
fn lambertian_always_scatters() {
    assert!(scatters(MaterialKind::Lambertian, false));
    assert!(scatters(MaterialKind::Lambertian, true));
}

#[test]
fn metal_absorbs_inward_reflections() {
    assert!(scatters(MaterialKind::Metal, true));
    assert!(!scatters(MaterialKind::Metal, false));
}

#[test]
fn dielectric_never_absorbs() {
    assert!(scatters(MaterialKind::Dielectric, false));
    assert!(scatters(MaterialKind::Dielectric, true));
}

#[test]
fn diffuse_light_never_scatters() {
    assert!(!scatters(MaterialKind::DiffuseLight, false));
    assert!(!scatters(MaterialKind::DiffuseLight, true));
}

#[test]
fn dielectric_branch_choice() {
    assert_eq!(dielectric_choice(true, false), DielectricChoice::Reflect);
    assert_eq!(dielectric_choice(true, true), DielectricChoice::Reflect);
    assert_eq!(dielectric_choice(false, true), DielectricChoice::Reflect);
    assert_eq!(dielectric_choice(false, false), DielectricChoice::Refract);
}

#[test]
fn radiance_cases() {
    assert_eq!(radiance_step(0, true, true), RadianceStep::Cutoff);
    assert_eq!(radiance_step(-3, false, false), RadianceStep::Cutoff);
    assert_eq!(radiance_step(5, false, false), RadianceStep::Miss);
    assert_eq!(radiance_step(5, true, false), RadianceStep::EmitOnly);
    assert_eq!(radiance_step(5, true, true), RadianceStep::Bounce);
    assert_eq!(radiance_step(1, true, true), RadianceStep::Bounce);
}

#[test]
fn image_texture_texels() {
    // A 2 by 2 raster with one color per pixel.
    let bytes: Vec<u8> = vec![
        10, 11, 12, 255, // (0, 0)
        20, 21, 22, 255, // (1, 0)
        30, 31, 32, 255, // (0, 1)
        40, 41, 42, 255, // (1, 1)
    ];
    let t = ImageTexture::new(2, 2, bytes);
    assert_eq!(t.width(), 2);
    assert_eq!(t.height(), 2);
    assert_eq!(t.texel(0, 0), (10, 11, 12, 255));
    assert_eq!(t.texel(1, 0), (20, 21, 22, 255));
    assert_eq!(t.texel(0, 1), (30, 31, 32, 255));
    assert_eq!(t.texel(1, 1), (40, 41, 42, 255));
}

#[test]
fn clamp_index_pulls_rounded_index_back() {
    assert_eq!(clamp_index(0, 4), 0);
    assert_eq!(clamp_index(3, 4), 3);
    assert_eq!(clamp_index(4, 4), 3);
    assert_eq!(clamp_index(1, 1), 0);
}

#[test]
fn rand_int_stays_in_range() {
    for _ in 0..200 {
        let v = rand_int(0, 2);
        assert!(v <= 2);
    }
    for _ in 0..50 {
        let v = rand_int(7, 7);
        assert_eq!(v, 7);
    }
}
