use doubling_prg::one_to_two_prg::OneToTwoPRG;
use doubling_prg::seed::SeedU8x16;
use doubling_prg::tree_index::{depth_supported, internal_node_count};

#[test]
fn concrete_scenario_of_depth_one() {
    let prg = OneToTwoPRG::new(&[10u8; 16]);
    let seed: SeedU8x16 = [255u8; 16];
    let pair = prg.generate_double(&seed);
    assert_eq!(pair.0.len(), 16);
    assert_eq!(pair.1.len(), 16);
    assert_eq!(prg.generate_double(&seed), pair);
    let tree = prg.generate_ggm_tree(&seed, 1);
    assert_eq!(tree.len(), 3);
    assert_eq!(tree[0], seed);
    assert_eq!(tree[1], pair.0);
    assert_eq!(tree[2], pair.1);
}

#[test]
fn tree_of_depth_zero_is_the_seed_alone() {
    let prg = OneToTwoPRG::new(&[10u8; 16]);
    let seed: SeedU8x16 = [255u8; 16];
    assert_eq!(prg.generate_ggm_tree(&seed, 0), vec![seed]);
    let seed: SeedU8x16 = [0u8; 16];
    assert_eq!(prg.generate_ggm_tree(&seed, 0), vec![seed]);
}

#[test]
fn tree_size_by_depth() {
    let prg = OneToTwoPRG::new(&[1u8; 16]);
    let seed: SeedU8x16 = [2u8; 16];
    let sizes: [usize; 11] = [1, 3, 7, 15, 31, 63, 127, 255, 511, 1023, 2047];
    for depth in 0u8..=10 {
        assert_eq!(prg.generate_ggm_tree(&seed, depth).len(), sizes[depth as usize]);
    }
}

#[test]
fn tree_root_is_the_seed() {
    let prg = OneToTwoPRG::new(&[1u8; 16]);
    let seed: SeedU8x16 = [9, 8, 7, 6, 5, 4, 3, 2, 1, 0, 1, 2, 3, 4, 5, 6];
    for depth in 0u8..=8 {
        assert_eq!(prg.generate_ggm_tree(&seed, depth)[0], seed);
    }
}

#[test]
fn tree_children_are_the_expansion_of_their_parent() {
    let prg = OneToTwoPRG::new(&[77u8; 16]);
    let seed: SeedU8x16 = [5u8; 16];
    let tree = prg.generate_ggm_tree(&seed, 6);
    assert_eq!(tree.len(), 127);
    for i in 0..63 {
        let pair = prg.generate_double(&tree[i]);
        assert_eq!((tree[2 * i + 1], tree[2 * i + 2]), pair);
    }
}

#[test]
fn tree_of_depth_two_exact_values() {
    let prg = OneToTwoPRG::new(&[10u8; 16]);
    let tree = prg.generate_ggm_tree(&[255u8; 16], 2);
    let expected: Vec<SeedU8x16> = vec![
        [255, 255, 255, 255, 255, 255, 255, 255, 255, 255, 255, 255, 255, 255, 255, 255],
        [244, 2, 21, 237, 124, 162, 136, 139, 112, 144, 147, 218, 40, 94, 49, 83],
        [161, 142, 50, 109, 178, 2, 254, 162, 169, 217, 104, 234, 55, 147, 49, 232],
        [237, 229, 94, 224, 252, 133, 151, 123, 26, 220, 166, 250, 103, 50, 150, 152],
        [26, 190, 119, 56, 241, 185, 168, 46, 246, 219, 9, 86, 193, 222, 189, 243],
        [167, 207, 116, 202, 46, 47, 37, 242, 97, 227, 204, 3, 81, 190, 159, 54],
        [180, 154, 151, 147, 252, 241, 73, 155, 152, 18, 133, 189, 158, 2, 138, 2],
    ];
    assert_eq!(tree, expected);
}

#[test]
fn tree_is_the_same_when_grown_twice() {
    let seed: SeedU8x16 = [42u8; 16];
    let first = OneToTwoPRG::new(&[3u8; 16]).generate_ggm_tree(&seed, 5);
    let second = OneToTwoPRG::new(&[3u8; 16]).generate_ggm_tree(&seed, 5);
    assert_eq!(first, second);
}

#[test]
fn tree_nodes_below_the_root_are_not_left_zero() {
    let prg = OneToTwoPRG::new(&[10u8; 16]);
    let tree = prg.generate_ggm_tree(&[255u8; 16], 4);
    assert_eq!(tree.len(), 31);
    for node in tree.iter() {
        assert_ne!(*node, [0u8; 16]);
    }
}

#[test]
fn internal_node_count_by_depth() {
    assert_eq!(internal_node_count(0), 0);
    assert_eq!(internal_node_count(1), 1);
    assert_eq!(internal_node_count(2), 3);
    assert_eq!(internal_node_count(3), 7);
    assert_eq!(internal_node_count(10), 1023);
    assert_eq!(internal_node_count(31), 2147483647);
}

#[test]
fn leaves_start_at_the_internal_node_count() {
    let prg = OneToTwoPRG::new(&[10u8; 16]);
    let depth: u8 = 3;
    let tree = prg.generate_ggm_tree(&[255u8; 16], depth);
    let first_leaf = internal_node_count(depth);
    assert_eq!(first_leaf, 7);
    assert_eq!(tree.len() - first_leaf, 8);
    assert_eq!(2 * (first_leaf - 1) + 2, tree.len() - 1);
}

#[test]
fn depth_supported_up_to_the_width_of_usize() {
    assert!(depth_supported(0));
    assert!(depth_supported(1));
    assert!(depth_supported(31));
    assert_eq!(depth_supported(32), usize::BITS > 32);
    assert_eq!(depth_supported(63), usize::BITS > 63);
    assert!(!depth_supported(64));
    assert!(!depth_supported(200));
    assert!(!depth_supported(255));
}
