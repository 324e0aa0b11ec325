use game_of_life_engine::coordinate::{matrix_to_cartesian, CartesianP, MatrixP};
use game_of_life_engine::rect::{get_length, Rect};
use game_of_life_engine::render::cartesian_to_matrix;

#[test]
fn test_cartesian_point() {
    let p = CartesianP::from(-23, 38);
    assert_eq!(p, CartesianP { x: -23, y: 38 });
    assert_eq!(p.text(), "(-23, 38)");
}

#[test]
fn test_matrix_to_cartesian() {
    assert_eq!(
        matrix_to_cartesian(MatrixP::from(0, 0), 1),
        CartesianP { x: 0, y: 0 }
    );
    assert_eq!(
        matrix_to_cartesian(MatrixP::from(0, 3), 4),
        CartesianP { x: 1, y: 2 }
    );
    assert_eq!(
        matrix_to_cartesian(MatrixP::from(2, 0), 5),
        CartesianP { x: -2, y: 0 }
    );
}

#[test]
fn test_cartesian_matrix_round_trip() {
    let cam = Rect::from(-5, -4, 4, 5);
    for &(x, y) in &[(-5i64, -4i64), (4, 5), (0, 0), (-3, 2)] {
        let p = CartesianP { x, y };
        let m = cartesian_to_matrix(&p, &cam);
        assert_eq!(matrix_to_cartesian(m, get_length(&cam)), p);
    }
}
