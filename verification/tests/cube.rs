use minestar::client::{append_indices, cube_corners, cube_indices};

#[test]
fn cube_has_four_corners_per_face_and_two_triangles_per_face() {
    assert_eq!(cube_corners().len(), 24);
    assert_eq!(cube_indices().len(), 36);
}

#[test]
fn cube_top_face_layout() {
    let corners = cube_corners();
    assert_eq!(corners[0].offset, [-1, -1, 1]);
    assert_eq!(corners[0].tex_coord, [0, 0]);
    assert_eq!(corners[2].offset, [1, 1, 1]);
    assert_eq!(corners[2].tex_coord, [1, 1]);
    assert_eq!(&cube_indices()[0..6], &[0, 1, 2, 2, 3, 0]);
}

#[test]
fn cube_faces_are_planar() {
    let corners = cube_corners();
    let axes = [2usize, 2, 0, 0, 1, 1];
    let sides = [1i8, -1, 1, -1, 1, -1];
    for face in 0..6 {
        for k in 0..4 {
            assert_eq!(corners[4 * face + k].offset[axes[face]], sides[face]);
        }
    }
}

#[test]
fn cube_triangles_stay_on_their_face() {
    let indices = cube_indices();
    for t in 0..12usize {
        let tri = &indices[3 * t..3 * t + 3];
        for &i in tri {
            assert_eq!(i as usize / 4, t / 2);
        }
        assert!(tri[0] != tri[1] && tri[0] != tri[2] && tri[1] != tri[2]);
    }
}

#[test]
fn append_indices_shifts_second_cube() {
    let cube = cube_indices();
    let mut index_data: Vec<u32> = Vec::new();
    append_indices(&mut index_data, 0, &cube);
    append_indices(&mut index_data, 24, &cube);
    assert_eq!(index_data.len(), 72);
    assert_eq!(&index_data[0..36], &cube[..]);
    assert_eq!(index_data[36], 24);
    assert_eq!(index_data[37], 25);
    assert_eq!(index_data[71], 44);
}

#[test]
fn append_indices_of_nothing_changes_nothing() {
    let mut index_data: Vec<u32> = vec![3, 4];
    append_indices(&mut index_data, 7, &Vec::new());
    assert_eq!(index_data, vec![3, 4]);
}

#[test]
fn cube_triangles_wind_outward() {
    let corners = cube_corners();
    let indices = cube_indices();
    for t in 0..12usize {
        let p = |k: usize| {
            let o = corners[indices[3 * t + k] as usize].offset;
            [o[0] as i32, o[1] as i32, o[2] as i32]
        };
        let (a, b, c) = (p(0), p(1), p(2));
        let u = [b[0] - a[0], b[1] - a[1], b[2] - a[2]];
        let v = [c[0] - a[0], c[1] - a[1], c[2] - a[2]];
        let n = [u[1] * v[2] - u[2] * v[1], u[2] * v[0] - u[0] * v[2], u[0] * v[1] - u[1] * v[0]];
        assert!(n[0] * a[0] + n[1] * a[1] + n[2] * a[2] > 0);
    }
}
