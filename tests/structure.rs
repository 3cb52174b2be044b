use raytracer::bvh::{BoxKey, BvhChild, BvhNode};
use raytracer::perlin::{perlin_generate_perm, permute, Perlin, POINT_COUNT};
use raytracer::texture::{checker_is_even, ImageTexture};

fn key(id: usize, x: i64, y: i64, z: i64) -> BoxKey {
    BoxKey { id, x, y, z }
}

fn leaves(c: &BvhChild, out: &mut Vec<usize>) {
    match c {
        BvhChild::Leaf(id) => out.push(*id),
        BvhChild::Node(n) => {
            leaves(&n.left, out);
            leaves(&n.right, out);
        }
    }
}

#[test]
fn bvh_single_primitive_fills_both_children() {
    let mut objects = vec![key(4, 1, 2, 3)];
    let node = BvhNode::new(&mut objects);
    assert!(matches!(node.left, BvhChild::Leaf(4)));
    assert!(matches!(node.right, BvhChild::Leaf(4)));
    assert_eq!(objects, vec![key(4, 1, 2, 3)]);
}

#[test]
fn bvh_two_primitives_one_each_in_order() {
    let mut objects = vec![key(0, 9, 9, 9), key(1, 0, 0, 0)];
    let node = BvhNode::new(&mut objects);
    assert!(matches!(node.left, BvhChild::Leaf(0)));
    assert!(matches!(node.right, BvhChild::Leaf(1)));
}

#[test]
fn bvh_three_primitives_split_sorted() {
    // The same order on every axis, so any chosen axis gives the same tree.
    let mut objects = vec![key(2, 20, 20, 20), key(0, 0, 0, 0), key(1, 10, 10, 10)];
    let node = BvhNode::new(&mut objects);
    let ids: Vec<usize> = objects.iter().map(|k| k.id).collect();
    assert_eq!(ids, vec![0, 1, 2]);
    match (&node.left, &node.right) {
        (BvhChild::Node(l), BvhChild::Node(r)) => {
            assert!(matches!(l.left, BvhChild::Leaf(0)));
            assert!(matches!(l.right, BvhChild::Leaf(0)));
            assert!(matches!(r.left, BvhChild::Leaf(1)));
            assert!(matches!(r.right, BvhChild::Leaf(2)));
        }
        _ => panic!("three primitives make two inner children"),
    }
}

#[test]
fn bvh_many_primitives_keep_every_leaf() {
    let n = 37;
    let mut objects: Vec<BoxKey> = (0..n)
        .map(|i| key(i, ((i * 7) % 11) as i64 - 5, ((i * 5) % 13) as i64, -(i as i64)))
        .collect();
    let node = BvhNode::new(&mut objects);
    let mut ids: Vec<usize> = objects.iter().map(|k| k.id).collect();
    ids.sort();
    assert_eq!(ids, (0..n).collect::<Vec<usize>>());
    let mut found = Vec::new();
    leaves(&node.left, &mut found);
    leaves(&node.right, &mut found);
    found.sort();
    found.dedup();
    assert_eq!(found, (0..n).collect::<Vec<usize>>());
}

#[test]
fn bvh_sorted_axis_separates_halves() {
    let mut objects: Vec<BoxKey> = (0..8).rev().map(|i| key(i, i as i64, i as i64, i as i64)).collect();
    BvhNode::new(&mut objects);
    let first: Vec<usize> = objects[..4].iter().map(|k| k.id).collect();
    for id in first {
        assert!(id < 4);
    }
}

fn is_permutation(p: &[usize]) -> bool {
    let mut s = p.to_vec();
    s.sort();
    s == (0..POINT_COUNT).collect::<Vec<usize>>()
}

#[test]
fn generated_table_is_a_permutation() {
    let mut p = vec![0usize; POINT_COUNT];
    perlin_generate_perm(&mut p);
    assert!(is_permutation(&p));
}

#[test]
fn permute_keeps_elements() {
    let mut p = vec![5usize, 5, 1, 9];
    permute(&mut p);
    p.sort();
    assert_eq!(p, vec![1, 5, 5, 9]);
    let mut empty: Vec<usize> = Vec::new();
    permute(&mut empty);
    assert!(empty.is_empty());
}

#[test]
fn corner_index_stays_in_table_and_wraps() {
    let perlin = Perlin::new();
    for &(i, j, k) in &[(0, 0, 0), (-1, -1, -1), (255, 256, -257), (i32::MAX, i32::MIN, 7)] {
        for d in 0..2 {
            let r = perlin.corner_index(i, j, k, d, d, d);
            assert!(r < POINT_COUNT);
        }
    }
    // Coordinates 256 apart land on the same table entries.
    assert_eq!(perlin.corner_index(3, 4, 5, 1, 0, 1), perlin.corner_index(259, -252, 517, 1, 0, 1));
    // The top coordinate wraps to zero.
    assert_eq!(perlin.corner_index(255, 0, 0, 1, 0, 0), perlin.corner_index(0, 0, 0, 0, 0, 0));
    assert_eq!(perlin.corner_index(i32::MAX, 0, 0, 1, 0, 0), perlin.corner_index(0, 0, 0, 0, 0, 0));
}

#[test]
fn corner_index_at_origin_is_xor_of_first_entries() {
    let perlin = Perlin::new();
    // With all three tables permutations, the values at the origin are distinct
    // across corners along a single axis.
    let a = perlin.corner_index(0, 0, 0, 0, 0, 0);
    let b = perlin.corner_index(0, 0, 0, 1, 0, 0);
    assert_ne!(a, b);
}

#[test]
fn checker_parity_alternates_along_each_axis() {
    for x in -3..3 {
        for y in -3..3 {
            for z in -3..3 {
                let here = checker_is_even(x, y, z);
                assert_ne!(here, checker_is_even(x + 1, y, z));
                assert_ne!(here, checker_is_even(x, y + 1, z));
                assert_ne!(here, checker_is_even(x, y, z + 1));
            }
        }
    }
}

#[test]
fn checker_parity_values() {
    assert!(checker_is_even(0, 0, 0));
    assert!(!checker_is_even(1, 0, 0));
    assert!(!checker_is_even(-1, 0, 0));
    assert!(checker_is_even(-1, -1, 0));
    assert!(checker_is_even(i32::MAX, i32::MAX, 0));
    assert!(!checker_is_even(i32::MIN, i32::MIN, -1));
}

#[test]
fn image_texture_rejects_bad_sizes() {
    assert!(ImageTexture::new(0, 1, vec![]).is_none());
    assert!(ImageTexture::new(1, 0, vec![]).is_none());
    assert!(ImageTexture::new(2, 1, vec![1, 2, 3]).is_none());
    assert!(ImageTexture::new(1, 1, vec![1, 2, 3]).is_some());
}

#[test]
fn image_texture_texels_row_major() {
    let data: Vec<u8> = (0..18).collect();
    let t = ImageTexture::new(3, 2, data).unwrap();
    assert_eq!(t.width(), 3);
    assert_eq!(t.height(), 2);
    assert_eq!(t.texel(0, 0), (0, 1, 2));
    assert_eq!(t.texel(2, 0), (6, 7, 8));
    assert_eq!(t.texel(0, 1), (9, 10, 11));
    assert_eq!(t.texel(2, 1), (15, 16, 17));
}
