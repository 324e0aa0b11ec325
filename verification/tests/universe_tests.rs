use game_of_life_engine::cell::State;
use game_of_life_engine::cell;
use game_of_life_engine::coordinate::{CartesianP, MatrixP};
use game_of_life_engine::neighbor::number_of_alive_from_model;
use game_of_life_engine::rect::Rect;
use game_of_life_engine::universe::{
    from_string, get_camera, get_value, iterate, toggle_cell, toggle_cell_by_absolute_point,
    FromStringError, InvalidCharacterError, InvalidLengthError, Universe,
};

#[test]
fn test_model() {
    assert_eq!(
        Universe::default(),
        Universe { value: Vec::new(), age: 0 }
    );
    assert_eq!(
        Universe::from(vec![
            CartesianP::from(-1, -1),
            CartesianP::from(-1, 1),
            CartesianP::from(1, -1),
            CartesianP::from(1, 1),
        ]),
        Universe {
            value: vec![
                CartesianP::from(-1, -1),
                CartesianP::from(-1, 1),
                CartesianP::from(1, -1),
                CartesianP::from(1, 1),
            ],
            age: 0,
        }
    );
}

#[test]
fn test_cell_rule() {
    assert_eq!(cell::iterate(State::Alive, 0), State::Dead);
    assert_eq!(cell::iterate(State::Alive, 1), State::Dead);
    assert_eq!(cell::iterate(State::Alive, 2), State::Alive);
    assert_eq!(cell::iterate(State::Alive, 3), State::Alive);
    assert_eq!(cell::iterate(State::Alive, 4), State::Dead);
    assert_eq!(cell::iterate(State::Dead, 2), State::Dead);
    assert_eq!(cell::iterate(State::Dead, 3), State::Alive);
    assert_eq!(cell::iterate(State::Dead, 4), State::Dead);
    assert_eq!(cell::toggle(&State::Alive), State::Dead);
    assert_eq!(cell::toggle(&State::Dead), State::Alive);
}

#[test]
fn test_get_value_and_neighbors() {
    let u = from_string(vec![
        String::from("⬛⬜⬛"),
        String::from("⬛⬜⬛"),
        String::from("⬛⬜⬛"),
    ])
    .unwrap();
    assert_eq!(get_value(&u, &CartesianP::from(0, 0)), State::Alive);
    assert_eq!(get_value(&u, &CartesianP::from(1, 0)), State::Dead);
    assert_eq!(number_of_alive_from_model(&u, &CartesianP::from(0, 0)), 2);
    assert_eq!(number_of_alive_from_model(&u, &CartesianP::from(1, 0)), 3);
    assert_eq!(number_of_alive_from_model(&u, &CartesianP::from(2, 0)), 0);
}

#[test]
fn test_from_string_error() {
    assert_eq!(
        from_string(vec![String::from("")]),
        Err(FromStringError::InvalidLength(InvalidLengthError)),
    );
    assert_eq!(
        from_string(vec![String::from("abcdefg")]),
        Err(FromStringError::InvalidCharacter(InvalidCharacterError)),
    );
    assert_eq!(
        from_string(vec![
            String::from("⬛⬛⬛⬛"),
            String::from("⬛⬛⬛⬛⬛"),
            String::from("⬛⬛⬛"),
        ]),
        Err(FromStringError::InvalidLength(InvalidLengthError)),
    );
    assert_eq!(
        from_string(vec![
            String::from("⬛⬛⬛⬛⬛"),
            String::from("⬛⬛⬛⬛⬛"),
            String::from("⬛⬛⬛⬛⬛"),
            String::from("⬛⬛⬛⬛⬛"),
        ]),
        Err(FromStringError::InvalidLength(InvalidLengthError)),
    );
}

#[test]
fn test_from_string() {
    assert_eq!(from_string(vec![String::from("⬛")]).unwrap(), Universe::default());
    assert_eq!(
        from_string(vec![String::from("⬜")]).unwrap(),
        Universe::from(vec![CartesianP::from(0, 0)]),
    );
    assert_eq!(
        from_string(vec![
            String::from("⬛⬛⬛⬜"),
            String::from("⬜⬛⬛⬛"),
            String::from("⬛⬛⬜⬛"),
            String::from("⬛⬛⬛⬛"),
        ])
        .unwrap(),
        Universe::from(vec![
            CartesianP::from(1, 2),
            CartesianP::from(-2, 1),
            CartesianP::from(0, 0),
        ])
    );
    assert_eq!(
        from_string(vec![
            String::from("⬛⬛⬛⬛⬛⬛"),
            String::from("⬛⬛⬛⬛⬛⬛"),
            String::from("⬛⬛⬜⬜⬛⬛"),
            String::from("⬛⬛⬜⬜⬛⬛"),
            String::from("⬛⬛⬛⬛⬛⬛"),
            String::from("⬛⬛⬛⬛⬛⬛"),
        ])
        .unwrap(),
        Universe::from(vec![
            CartesianP::from(0, 0),
            CartesianP::from(0, 1),
            CartesianP::from(-1, 0),
            CartesianP::from(-1, 1),
        ])
    );
    assert_eq!(
        from_string(vec![
            String::from("⬛⬛⬛⬛⬛⬛⬛"),
            String::from("⬛⬛⬛⬛⬛⬛⬛"),
            String::from("⬛⬛⬛⬜⬛⬛⬛"),
            String::from("⬛⬛⬛⬜⬛⬛⬛"),
            String::from("⬛⬛⬛⬜⬛⬛⬛"),
            String::from("⬛⬛⬛⬛⬛⬛⬛"),
            String::from("⬛⬛⬛⬛⬛⬛⬛"),
        ])
        .unwrap(),
        Universe::from(vec![
            CartesianP::from(0, -1),
            CartesianP::from(0, 0),
            CartesianP::from(0, 1),
        ])
    );
}

#[test]
fn test_toggle_model() {
    let mut u = from_string(vec![
        String::from("⬛⬛⬛⬛"),
        String::from("⬛⬛⬛⬛"),
        String::from("⬜⬜⬜⬜"),
        String::from("⬜⬜⬜⬜"),
    ])
    .unwrap();
    let state1 = from_string(vec![
        String::from("⬜⬛⬛⬛"),
        String::from("⬛⬛⬛⬛"),
        String::from("⬜⬜⬜⬜"),
        String::from("⬜⬜⬜⬜"),
    ])
    .unwrap();
    let state2 = from_string(vec![
        String::from("⬜⬛⬛⬛"),
        String::from("⬛⬜⬛⬛"),
        String::from("⬜⬜⬜⬜"),
        String::from("⬜⬜⬜⬜"),
    ])
    .unwrap();
    let state3 = from_string(vec![
        String::from("⬜⬛⬛⬛"),
        String::from("⬛⬜⬛⬛"),
        String::from("⬜⬜⬛⬜"),
        String::from("⬜⬜⬜⬜"),
    ])
    .unwrap();
    let state4 = from_string(vec![
        String::from("⬜⬛⬛⬛"),
        String::from("⬛⬜⬛⬛"),
        String::from("⬜⬜⬛⬜"),
        String::from("⬜⬜⬜⬛"),
    ])
    .unwrap();
    let state5 = from_string(vec![
        String::from("⬜⬛⬛⬛"),
        String::from("⬛⬜⬛⬛"),
        String::from("⬜⬜⬛⬜"),
        String::from("⬛⬜⬜⬛"),
    ])
    .unwrap();
    let state6 = from_string(vec![
        String::from("⬜⬛⬛⬛"),
        String::from("⬛⬜⬛⬛"),
        String::from("⬜⬛⬛⬜"),
        String::from("⬛⬜⬜⬛"),
    ])
    .unwrap();
    let state7 = from_string(vec![
        String::from("⬜⬛⬛⬛"),
        String::from("⬛⬜⬜⬛"),
        String::from("⬜⬛⬛⬜"),
        String::from("⬛⬜⬜⬛"),
    ])
    .unwrap();
    let state8 = from_string(vec![
        String::from("⬜⬛⬛⬜"),
        String::from("⬛⬜⬜⬛"),
        String::from("⬜⬛⬛⬜"),
        String::from("⬛⬜⬜⬛"),
    ])
    .unwrap();
    toggle_cell(&mut u, CartesianP::from(-2, 2));
    assert_eq!(u, state1);
    toggle_cell(&mut u, CartesianP::from(-1, 1));
    assert_eq!(u, state2);
    toggle_cell(&mut u, CartesianP::from(0, 0));
    assert_eq!(u, state3);
    toggle_cell(&mut u, CartesianP::from(1, -1));
    assert_eq!(u, state4);
    toggle_cell(&mut u, CartesianP::from(-2, -1));
    assert_eq!(u, state5);
    toggle_cell(&mut u, CartesianP::from(-1, 0));
    assert_eq!(u, state6);
    toggle_cell(&mut u, CartesianP::from(0, 1));
    assert_eq!(u, state7);
    toggle_cell(&mut u, CartesianP::from(1, 2));
    assert_eq!(u, state8);
}

#[test]
fn test_toggle_round_trip() {
    let before = from_string(vec![
        String::from("⬛⬜⬛"),
        String::from("⬛⬜⬛"),
        String::from("⬛⬜⬛"),
    ])
    .unwrap();
    let mut u = from_string(vec![
        String::from("⬛⬜⬛"),
        String::from("⬛⬜⬛"),
        String::from("⬛⬜⬛"),
    ])
    .unwrap();
    // a live cell and a dead cell, each flipped twice
    toggle_cell(&mut u, CartesianP::from(0, 0));
    toggle_cell(&mut u, CartesianP::from(0, 0));
    assert_eq!(u, before);
    toggle_cell(&mut u, CartesianP::from(1, 1));
    toggle_cell(&mut u, CartesianP::from(1, 1));
    assert_eq!(u, before);
}

#[test]
fn test_toggle_cell_by_absolute_point() {
    let cam = Rect::from(-5, -4, 4, 5);
    let size: u16 = 1000;
    let mut u = Universe::default();
    let state1 = from_string(vec![
        String::from("⬜⬛⬛⬛⬛⬛⬛⬛⬛⬛"),
        String::from("⬛⬛⬛⬛⬛⬛⬛⬛⬛⬛"),
        String::from("⬛⬛⬛⬛⬛⬛⬛⬛⬛⬛"),
        String::from("⬛⬛⬛⬛⬛⬛⬛⬛⬛⬛"),
        String::from("⬛⬛⬛⬛⬛⬛⬛⬛⬛⬛"),
        String::from("⬛⬛⬛⬛⬛⬛⬛⬛⬛⬛"),
        String::from("⬛⬛⬛⬛⬛⬛⬛⬛⬛⬛"),
        String::from("⬛⬛⬛⬛⬛⬛⬛⬛⬛⬛"),
        String::from("⬛⬛⬛⬛⬛⬛⬛⬛⬛⬛"),
        String::from("⬛⬛⬛⬛⬛⬛⬛⬛⬛⬛"),
    ])
    .unwrap();
    let state2 = from_string(vec![
        String::from("⬜⬛⬛⬛⬛⬛⬛⬛⬛⬛"),
        String::from("⬛⬛⬛⬛⬛⬛⬛⬛⬛⬛"),
        String::from("⬛⬛⬛⬛⬛⬛⬛⬛⬛⬛"),
        String::from("⬛⬛⬛⬛⬛⬛⬛⬛⬛⬛"),
        String::from("⬛⬛⬛⬛⬛⬛⬛⬛⬛⬛"),
        String::from("⬛⬛⬛⬛⬛⬛⬛⬛⬛⬛"),
        String::from("⬛⬛⬛⬛⬛⬛⬛⬛⬛⬛"),
        String::from("⬛⬛⬛⬛⬛⬛⬛⬛⬛⬛"),
        String::from("⬛⬛⬛⬛⬛⬛⬛⬛⬛⬛"),
        String::from("⬜⬛⬛⬛⬛⬛⬛⬛⬛⬛"),
    ])
    .unwrap();
    let state3 = from_string(vec![
        String::from("⬜⬛⬛⬛⬛⬛⬛⬛⬛⬜"),
        String::from("⬛⬛⬛⬛⬛⬛⬛⬛⬛⬛"),
        String::from("⬛⬛⬛⬛⬛⬛⬛⬛⬛⬛"),
        String::from("⬛⬛⬛⬛⬛⬛⬛⬛⬛⬛"),
        String::from("⬛⬛⬛⬛⬛⬛⬛⬛⬛⬛"),
        String::from("⬛⬛⬛⬛⬛⬛⬛⬛⬛⬛"),
        String::from("⬛⬛⬛⬛⬛⬛⬛⬛⬛⬛"),
        String::from("⬛⬛⬛⬛⬛⬛⬛⬛⬛⬛"),
        String::from("⬛⬛⬛⬛⬛⬛⬛⬛⬛⬛"),
        String::from("⬜⬛⬛⬛⬛⬛⬛⬛⬛⬛"),
    ])
    .unwrap();
    let state4 = from_string(vec![
        String::from("⬜⬛⬛⬛⬛⬛⬛⬛⬛⬜"),
        String::from("⬛⬛⬛⬛⬛⬛⬛⬛⬛⬛"),
        String::from("⬛⬛⬛⬛⬛⬛⬛⬛⬛⬛"),
        String::from("⬛⬛⬛⬛⬛⬛⬛⬛⬛⬛"),
        String::from("⬛⬛⬛⬛⬛⬛⬛⬛⬛⬛"),
        String::from("⬛⬛⬛⬛⬛⬛⬛⬛⬛⬛"),
        String::from("⬛⬛⬛⬛⬛⬛⬛⬛⬛⬛"),
        String::from("⬛⬛⬛⬛⬛⬛⬛⬛⬛⬛"),
        String::from("⬛⬛⬛⬛⬛⬛⬛⬛⬛⬛"),
        String::from("⬜⬛⬛⬛⬛⬛⬛⬛⬛⬜"),
    ])
    .unwrap();
    let state5 = from_string(vec![
        String::from("⬜⬛⬛⬛⬛⬛⬛⬛⬛⬜"),
        String::from("⬛⬜⬛⬛⬛⬛⬛⬛⬛⬛"),
        String::from("⬛⬛⬛⬛⬛⬛⬛⬛⬛⬛"),
        String::from("⬛⬛⬛⬛⬛⬛⬛⬛⬛⬛"),
        String::from("⬛⬛⬛⬛⬛⬛⬛⬛⬛⬛"),
        String::from("⬛⬛⬛⬛⬛⬛⬛⬛⬛⬛"),
        String::from("⬛⬛⬛⬛⬛⬛⬛⬛⬛⬛"),
        String::from("⬛⬛⬛⬛⬛⬛⬛⬛⬛⬛"),
        String::from("⬛⬛⬛⬛⬛⬛⬛⬛⬛⬛"),
        String::from("⬜⬛⬛⬛⬛⬛⬛⬛⬛⬜"),
    ])
    .unwrap();
    let state6 = from_string(vec![
        String::from("⬜⬛⬛⬛⬛⬛⬛⬛⬛⬜"),
        String::from("⬛⬜⬛⬛⬛⬛⬛⬛⬛⬛"),
        String::from("⬛⬛⬛⬛⬛⬛⬛⬛⬛⬛"),
        String::from("⬛⬛⬛⬛⬛⬛⬛⬛⬛⬛"),
        String::from("⬛⬛⬛⬛⬛⬛⬛⬛⬛⬛"),
        String::from("⬛⬛⬛⬛⬛⬛⬛⬛⬛⬛"),
        String::from("⬛⬛⬛⬛⬛⬛⬛⬛⬛⬛"),
        String::from("⬛⬛⬛⬛⬛⬛⬛⬛⬛⬛"),
        String::from("⬛⬜⬛⬛⬛⬛⬛⬛⬛⬛"),
        String::from("⬜⬛⬛⬛⬛⬛⬛⬛⬛⬜"),
    ])
    .unwrap();
    let state7 = from_string(vec![
        String::from("⬜⬛⬛⬛⬛⬛⬛⬛⬛⬜"),
        String::from("⬛⬜⬛⬛⬛⬛⬛⬛⬜⬛"),
        String::from("⬛⬛⬛⬛⬛⬛⬛⬛⬛⬛"),
        String::from("⬛⬛⬛⬛⬛⬛⬛⬛⬛⬛"),
        String::from("⬛⬛⬛⬛⬛⬛⬛⬛⬛⬛"),
        String::from("⬛⬛⬛⬛⬛⬛⬛⬛⬛⬛"),
        String::from("⬛⬛⬛⬛⬛⬛⬛⬛⬛⬛"),
        String::from("⬛⬛⬛⬛⬛⬛⬛⬛⬛⬛"),
        String::from("⬛⬜⬛⬛⬛⬛⬛⬛⬛⬛"),
        String::from("⬜⬛⬛⬛⬛⬛⬛⬛⬛⬜"),
    ])
    .unwrap();
    let state8 = from_string(vec![
        String::from("⬜⬛⬛⬛⬛⬛⬛⬛⬛⬜"),
        String::from("⬛⬜⬛⬛⬛⬛⬛⬛⬜⬛"),
        String::from("⬛⬛⬛⬛⬛⬛⬛⬛⬛⬛"),
        String::from("⬛⬛⬛⬛⬛⬛⬛⬛⬛⬛"),
        String::from("⬛⬛⬛⬛⬛⬛⬛⬛⬛⬛"),
        String::from("⬛⬛⬛⬛⬛⬛⬛⬛⬛⬛"),
        String::from("⬛⬛⬛⬛⬛⬛⬛⬛⬛⬛"),
        String::from("⬛⬛⬛⬛⬛⬛⬛⬛⬛⬛"),
        String::from("⬛⬜⬛⬛⬛⬛⬛⬛⬜⬛"),
        String::from("⬜⬛⬛⬛⬛⬛⬛⬛⬛⬜"),
    ])
    .unwrap();
    toggle_cell_by_absolute_point(&mut u, MatrixP::from(10, 10), &cam, size);
    assert_eq!(u, state1);
    toggle_cell_by_absolute_point(&mut u, MatrixP::from(990, 10), &cam, size);
    assert_eq!(u, state2);
    toggle_cell_by_absolute_point(&mut u, MatrixP::from(10, 990), &cam, size);
    assert_eq!(u, state3);
    toggle_cell_by_absolute_point(&mut u, MatrixP::from(990, 990), &cam, size);
    assert_eq!(u, state4);
    toggle_cell_by_absolute_point(&mut u, MatrixP::from(110, 110), &cam, size);
    assert_eq!(u, state5);
    toggle_cell_by_absolute_point(&mut u, MatrixP::from(890, 110), &cam, size);
    assert_eq!(u, state6);
    toggle_cell_by_absolute_point(&mut u, MatrixP::from(110, 890), &cam, size);
    assert_eq!(u, state7);
    toggle_cell_by_absolute_point(&mut u, MatrixP::from(890, 890), &cam, size);
    assert_eq!(u, state8);
}

#[test]
fn test_toggle_by_absolute_point_degenerate_canvas() {
    // canvas smaller than the camera span: the derived cell size is zero
    // and the toggle is a silent no-op
    let cam = Rect::from(-5, -4, 4, 5);
    let mut u = Universe::default();
    toggle_cell_by_absolute_point(&mut u, MatrixP::from(3, 3), &cam, 5);
    assert_eq!(u, Universe::default());
}

#[test]
fn test_iterate() {
    let mut model1x1iter0 = from_string(vec![String::from("⬜")]).unwrap();
    let mut model1x1iter1 = from_string(vec![String::from("⬛")]).unwrap();
    model1x1iter1.age = 1;
    iterate(&mut model1x1iter0);
    assert_eq!(model1x1iter0, model1x1iter1);

    let mut model2x2iter0 =
        from_string(vec![String::from("⬜⬜"), String::from("⬜⬜")]).unwrap();
    let mut model2x2iter1 =
        from_string(vec![String::from("⬜⬜"), String::from("⬜⬜")]).unwrap();
    model2x2iter1.age = 1;
    iterate(&mut model2x2iter0);
    assert_eq!(model2x2iter0, model2x2iter1);

    let mut model3x3_1_iter0 = from_string(vec![
        String::from("⬛⬜⬛"),
        String::from("⬛⬜⬛"),
        String::from("⬛⬜⬛"),
    ])
    .unwrap();
    let mut model3x3_1_iter1 = from_string(vec![
        String::from("⬛⬛⬛"),
        String::from("⬜⬜⬜"),
        String::from("⬛⬛⬛"),
    ])
    .unwrap();
    model3x3_1_iter1.age = 1;
    iterate(&mut model3x3_1_iter0);
    assert_eq!(model3x3_1_iter0, model3x3_1_iter1);

    let mut model3x3_2_iter0 = from_string(vec![
        String::from("⬛⬛⬛"),
        String::from("⬜⬜⬜"),
        String::from("⬛⬛⬛"),
    ])
    .unwrap();
    let mut model3x3_2_iter1 = from_string(vec![
        String::from("⬛⬜⬛"),
        String::from("⬛⬜⬛"),
        String::from("⬛⬜⬛"),
    ])
    .unwrap();
    model3x3_2_iter1.age = 1;
    iterate(&mut model3x3_2_iter0);
    assert_eq!(model3x3_2_iter0, model3x3_2_iter1);

    let mut model3x3_3_iter0 = from_string(vec![
        String::from("⬛⬛⬜"),
        String::from("⬜⬜⬜"),
        String::from("⬛⬛⬛"),
    ])
    .unwrap();
    let mut model3x3_3_iter1 = from_string(vec![
        String::from("⬛⬛⬜"),
        String::from("⬛⬜⬜"),
        String::from("⬛⬜⬛"),
    ])
    .unwrap();
    model3x3_3_iter1.age = 1;
    iterate(&mut model3x3_3_iter0);
    assert_eq!(model3x3_3_iter0, model3x3_3_iter1);

    let mut model3x3_4_iter0 = from_string(vec![
        String::from("⬛⬛⬜"),
        String::from("⬛⬜⬜"),
        String::from("⬛⬜⬛"),
    ])
    .unwrap();
    let mut model3x3_4_iter1 = from_string(vec![
        String::from("⬛⬜⬜"),
        String::from("⬛⬜⬜"),
        String::from("⬛⬜⬜"),
    ])
    .unwrap();
    model3x3_4_iter1.age = 1;
    iterate(&mut model3x3_4_iter0);
    assert_eq!(model3x3_4_iter0, model3x3_4_iter1);

    let mut model3x3_5_iter0 = from_string(vec![
        String::from("⬜⬜⬛"),
        String::from("⬜⬜⬜"),
        String::from("⬛⬜⬛"),
    ])
    .unwrap();
    let mut model3x3_5_iter1 = from_string(vec![
        String::from("⬜⬛⬜"),
        String::from("⬛⬛⬜"),
        String::from("⬜⬜⬜"),
    ])
    .unwrap();
    model3x3_5_iter1.age = 1;
    iterate(&mut model3x3_5_iter0);
    assert_eq!(model3x3_5_iter0, model3x3_5_iter1);
}

#[test]
fn test_iterate_empty_universe() {
    let mut u = Universe::default();
    iterate(&mut u);
    assert_eq!(u.value.len(), 0);
    assert_eq!(u.age, 1);
    iterate(&mut u);
    assert_eq!(u.value.len(), 0);
    assert_eq!(u.age, 2);
}

#[test]
fn test_get_camera() {
    assert_eq!(
        get_camera(
            &from_string(vec![
                String::from("⬛⬛⬛⬛⬛⬛"),
                String::from("⬛⬛⬛⬛⬛⬛"),
                String::from("⬛⬛⬜⬜⬛⬛"),
                String::from("⬛⬛⬜⬜⬛⬛"),
                String::from("⬛⬛⬛⬛⬛⬛"),
                String::from("⬛⬛⬛⬛⬛⬛"),
            ])
            .unwrap()
        ),
        Rect::from(-5, -4, 4, 5)
    );
    assert_eq!(
        get_camera(
            &from_string(vec![
                String::from("⬛⬛⬛⬛⬛⬛⬛"),
                String::from("⬛⬛⬛⬛⬛⬛⬛"),
                String::from("⬛⬛⬛⬜⬛⬛⬛"),
                String::from("⬛⬛⬛⬜⬛⬛⬛"),
                String::from("⬛⬛⬛⬜⬛⬛⬛"),
                String::from("⬛⬛⬛⬛⬛⬛⬛"),
                String::from("⬛⬛⬛⬛⬛⬛⬛"),
            ])
            .unwrap()
        ),
        Rect::from(-5, -5, 5, 5)
    );
    assert_eq!(
        get_camera(&Universe::from(vec![
            CartesianP::from(2, 2),
            CartesianP::from(3, 5),
            CartesianP::from(5, 3),
        ])),
        Rect::from(-2, -2, 9, 9)
    );
    assert_eq!(
        get_camera(&Universe::from(vec![
            CartesianP::from(2, 2),
            CartesianP::from(3, 4),
            CartesianP::from(5, 3),
        ])),
        Rect::from(-2, -2, 9, 9)
    );
    assert_eq!(
        get_camera(&Universe::from(vec![
            CartesianP::from(2, 2),
            CartesianP::from(3, 4),
            CartesianP::from(4, 3),
        ])),
        Rect::from(-2, -2, 8, 8)
    );
}

#[test]
fn test_get_camera_empty_universe() {
    assert_eq!(get_camera(&Universe::default()), Rect::from(-4, -4, 4, 4));
}
