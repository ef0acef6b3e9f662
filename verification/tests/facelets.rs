use rubiks::cube::Cube;
use rubiks::facelets::make_cube_string;
use rubiks::location::CubePieceLocation;
use rubiks::moves::CubeMove;

#[test]
fn test_cube_string_face_count() {
    let mut rng = rand::rng();

    for _ in 0..1000 {
        let cube = Cube::random_uniform(&mut rng);
        let cube_string = make_cube_string(&cube);

        assert_eq!(cube_string.len(), 54, "Cube string should be of size 54.");
        assert_eq!(
            cube_string.chars().filter(|c| *c == 'U').count(),
            9,
            "Should be 9 Us in cube string."
        );
        assert_eq!(
            cube_string.chars().filter(|c| *c == 'R').count(),
            9,
            "Should be 9 Rs in cube string."
        );
        assert_eq!(
            cube_string.chars().filter(|c| *c == 'F').count(),
            9,
            "Should be 9 Fs in cube string."
        );
        assert_eq!(
            cube_string.chars().filter(|c| *c == 'D').count(),
            9,
            "Should be 9 Ds in cube string."
        );
        assert_eq!(
            cube_string.chars().filter(|c| *c == 'B').count(),
            9,
            "Should be 9 Bs in cube string."
        );
        assert_eq!(
            cube_string.chars().filter(|c| *c == 'L').count(),
            9,
            "Should be 9 Ls in cube string."
        );
    }
}

#[test]
fn test_cube_string_expected_solved() {
    let cube = Cube::solved();
    let cube_string = make_cube_string(&cube);
    assert_eq!(
        cube_string,
        "UUUUUUUUURRRRRRRRRFFFFFFFFFDDDDDDDDDLLLLLLLLLBBBBBBBBB"
    );
}

#[test]
fn test_cube_string_expected_l() {
    let mut cube = Cube::solved();
    let scramble = CubeMove::parse_array("L").expect("Scramble is valid.");
    cube.apply_moves(&scramble);

    let cube_string = make_cube_string(&cube);
    assert_eq!(
        cube_string,
        "BUUBUUBUURRRRRRRRRUFFUFFUFFFDDFDDFDDLLLLLLLLLBBDBBDBBD"
    );
}

#[test]
fn test_cube_string_expected_t_perm() {
    let mut cube = Cube::solved();
    let scramble = CubeMove::parse_array("R U R' U' R' F R2 U' R' U' R U R' F'")
        .expect("Scramble is valid.");
    cube.apply_moves(&scramble);

    let cube_string = make_cube_string(&cube);
    assert_eq!(
        cube_string,
        "UUUUUUUUUBLFRRRRRRFFRFFFFFFDDDDDDDDDLRLLLLLLLRBBBBBBBB"
    );
}

#[test]
fn test_cube_string_expected_damier() {
    let mut cube = Cube::solved();
    let scramble = CubeMove::parse_array("R2 L2 B2 F2 U2 D2").expect("Scramble is valid.");
    cube.apply_moves(&scramble);

    let cube_string = make_cube_string(&cube);
    assert_eq!(
        cube_string,
        "UDUDUDUDURLRLRLRLRFBFBFBFBFDUDUDUDUDLRLRLRLRLBFBFBFBFB"
    );
}

#[test]
fn test_cube_string_expected_scramble() {
    let mut cube = Cube::solved();
    let scramble =
        CubeMove::parse_array("B2 U2 R F' L2 U' L F' D2 R F2 L' B2 D2 B2 R2 U2 L U2 B2")
            .expect("Scramble is valid.");
    cube.apply_moves(&scramble);

    println!(
        "{:?}",
        cube.get_piece_at(&CubePieceLocation::ULB)
            .get_original_location()
            .get_faces()
    );

    let cube_string = make_cube_string(&cube);
    assert_eq!(
        cube_string,
        "FFBBUBFUDFDRDRLULDUBRUFRFRRDFBBDFLDLLRRDLRULLDUUUBLBFB"
    );
}

#[test]
fn cube_string_has_each_centre_in_the_fifth_place_of_its_face() {
    let mut rng = rand::rng();
    let cube = Cube::random_uniform(&mut rng);
    let cube_string = make_cube_string(&cube);
    let letters: Vec<char> = cube_string.chars().collect();

    assert_eq!(letters[4], 'U');
    assert_eq!(letters[13], 'R');
    assert_eq!(letters[22], 'F');
    assert_eq!(letters[31], 'D');
    assert_eq!(letters[40], 'L');
    assert_eq!(letters[49], 'B');
}
