use voxtree::cube::{cube_from_path, octant_of, octant_path, root_cube, child_cube, NormPoint, NORM_ONE};

#[test]
fn octant_bits_follow_the_center() {
    let root = root_cube();
    let low = NormPoint { x: 1, y: 2, z: 3 };
    assert_eq!(octant_of(&root, &low), 0);
    let hi_x = NormPoint { x: 0x8000_0000, y: 0, z: 0 };
    assert_eq!(octant_of(&root, &hi_x), 1);
    let hi_y = NormPoint { x: 0, y: 0x8000_0000, z: 0 };
    assert_eq!(octant_of(&root, &hi_y), 2);
    let hi_z = NormPoint { x: 0, y: 0, z: 0x8000_0000 };
    assert_eq!(octant_of(&root, &hi_z), 4);
    let hi_all = NormPoint { x: u32::MAX, y: u32::MAX, z: u32::MAX };
    assert_eq!(octant_of(&root, &hi_all), 7);
}

#[test]
fn child_cube_halves_and_offsets() {
    let root = root_cube();
    let c0 = child_cube(&root, 0);
    assert_eq!((c0.x, c0.y, c0.z, c0.edge), (0, 0, 0, NORM_ONE / 2));
    let c7 = child_cube(&root, 7);
    assert_eq!((c7.x, c7.y, c7.z, c7.edge), (NORM_ONE / 2, NORM_ONE / 2, NORM_ONE / 2, NORM_ONE / 2));
    let c5 = child_cube(&root, 5);
    assert_eq!((c5.x, c5.y, c5.z, c5.edge), (NORM_ONE / 2, 0, NORM_ONE / 2, NORM_ONE / 2));
}

#[test]
fn path_roundtrip_reproduces_a_containing_cube() {
    // a point an eighth of the way along each axis, descended three levels
    let p = NormPoint { x: 1 << 29, y: 1 << 29, z: 1 << 29 };
    let path = octant_path(&p, 3);
    assert_eq!(path, vec![0, 0, 7]);
    let cube = cube_from_path(&path);
    // edge is the root edge over 2^3, and the cube still contains p
    assert_eq!(cube.edge, NORM_ONE >> 3);
    assert!(cube.x <= p.x as u64 && (p.x as u64) < cube.x + cube.edge);
    assert!(cube.y <= p.y as u64 && (p.y as u64) < cube.y + cube.edge);
    assert!(cube.z <= p.z as u64 && (p.z as u64) < cube.z + cube.edge);
}

#[test]
fn deep_path_roundtrip() {
    let p = NormPoint { x: 0xDEAD_BEEF, y: 0x1234_5678, z: 0x8000_0001 };
    for depth in [1u32, 5, 16, 32] {
        let path = octant_path(&p, depth);
        assert_eq!(path.len() as u32, depth);
        let cube = cube_from_path(&path);
        assert_eq!(cube.edge, NORM_ONE >> depth);
        assert!(cube.x <= p.x as u64 && (p.x as u64) < cube.x + cube.edge);
        assert!(cube.y <= p.y as u64 && (p.y as u64) < cube.y + cube.edge);
        assert!(cube.z <= p.z as u64 && (p.z as u64) < cube.z + cube.edge);
    }
}
