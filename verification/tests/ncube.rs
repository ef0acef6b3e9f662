use rubiks::location::{CORNER_COUNT, EDGE_COUNT};
use rubiks::ncube::{center_count, edge_count, NCube, NPiece};

#[test]
fn a_cube_of_three_layers_has_twelve_edges_and_no_centres() {
    assert_eq!(edge_count(3), 12);
    assert_eq!(edge_count(3), EDGE_COUNT);
    assert_eq!(center_count(3), 0);
}

#[test]
fn edges_grow_with_the_layers() {
    assert_eq!(edge_count(2), 0);
    assert_eq!(edge_count(4), 24);
    assert_eq!(edge_count(5), 36);
    assert_eq!(edge_count(7), 60);
}

#[test]
fn centres_grow_with_the_square_of_the_layers() {
    assert_eq!(center_count(0), 0);
    assert_eq!(center_count(1), 0);
    assert_eq!(center_count(2), 0);
    assert_eq!(center_count(4), 24);
    assert_eq!(center_count(5), 54);
    assert_eq!(center_count(7), 150);
}

#[test]
fn a_cube_holds_as_many_pieces_as_its_type_tells() {
    let cube: NCube<3, 8, 12, 0> = NCube::new();
    assert_eq!(cube.corners.len(), CORNER_COUNT);
    assert_eq!(cube.edges.len(), edge_count(3));
    assert_eq!(cube.centers.len(), center_count(3));
    assert!(cube.corners.iter().all(|piece| *piece == NPiece {}));

    let cube: NCube<4, 8, 24, 24> = NCube::new();
    assert_eq!(cube.edges.len(), edge_count(4));
    assert_eq!(cube.centers.len(), center_count(4));
}
