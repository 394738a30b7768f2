use raster::model::{resolve_index, MeshError, Model};

fn sample_mesh() -> Model<(i32, i32, i32), (i32, i32), char> {
    Model::from_parts(
        vec![(0, 0, 0), (1, 0, 0), (0, 1, 0), (1, 1, 0)],
        vec![(0, 0), (1, 1)],
        vec!['a'],
        vec![1, 2, 3, 2, 4, 3],
        vec![1, 0, 2, 0, 0, 0],
        vec![0, 1, 1, 0, 0, 1],
    )
    .unwrap()
}

#[test]
fn lookups_resolve_one_based_indices() {
    let m = sample_mesh();
    assert_eq!(m.nfaces(), 2);
    assert_eq!(*m.vert(0, 0), (0, 0, 0));
    assert_eq!(*m.vert(1, 1), (1, 1, 0));
    assert_eq!(m.uv(0, 0), Some(&(0, 0)));
    assert_eq!(m.uv(0, 1), None);
    assert_eq!(m.uv(0, 2), Some(&(1, 1)));
    assert_eq!(m.normal(0, 0), None);
    assert_eq!(m.normal(0, 1), Some(&'a'));
    assert_eq!(m.normal(1, 2), Some(&'a'));
}

#[test]
fn empty_mesh_has_no_faces() {
    let m: Model<u8, u8, u8> = Model::new();
    assert_eq!(m.nfaces(), 0);
}

#[test]
fn partial_face_is_not_counted() {
    let m: Model<u8, u8, u8> =
        Model::from_parts(vec![1, 2], vec![], vec![], vec![1, 2, 1, 2], vec![0; 4], vec![0; 4]).unwrap();
    assert_eq!(m.nfaces(), 1);
}

#[test]
fn rejects_out_of_range_indices() {
    let r = Model::<u8, u8, u8>::from_parts(vec![1], vec![], vec![], vec![1, 2, 1], vec![0; 3], vec![0; 3]);
    assert_eq!(r.err(), Some(MeshError::VertexIndex(1)));
    let r = Model::<u8, u8, u8>::from_parts(vec![1], vec![], vec![], vec![1, 0, 1], vec![0; 3], vec![0; 3]);
    assert_eq!(r.err(), Some(MeshError::VertexIndex(1)));
    let r = Model::<u8, u8, u8>::from_parts(vec![1], vec![5], vec![], vec![1, 1, 1], vec![0, 0, 2], vec![0; 3]);
    assert_eq!(r.err(), Some(MeshError::UvIndex(2)));
    let r = Model::<u8, u8, u8>::from_parts(vec![1], vec![], vec![], vec![1, 1, 1], vec![0; 3], vec![0, -1, 0]);
    assert_eq!(r.err(), Some(MeshError::NormalIndex(1)));
    let r = Model::<u8, u8, u8>::from_parts(vec![1], vec![], vec![], vec![1, 1, 1], vec![0; 2], vec![0; 3]);
    assert_eq!(r.err(), Some(MeshError::CornerCountMismatch));
}

#[test]
fn first_faulty_corner_is_reported() {
    let r = Model::<u8, u8, u8>::from_parts(vec![1], vec![], vec![], vec![1, 1, 9], vec![0, 3, 0], vec![0; 3]);
    assert_eq!(r.err(), Some(MeshError::UvIndex(1)));
}

#[test]
fn negative_indices_count_from_the_end() {
    assert_eq!(resolve_index(-1, 4), 4);
    assert_eq!(resolve_index(-4, 4), 1);
    assert_eq!(resolve_index(3, 4), 3);
    assert_eq!(resolve_index(0, 4), 0);
}
