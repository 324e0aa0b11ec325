use game_of_life_engine::coordinate::CartesianP;
use game_of_life_engine::rect::{
    get_center, get_length, get_subdivision_size, move_by, zoom_in, zoom_out, zoom_to, Rect,
};

#[test]
fn test_get_length() {
    assert_eq!(get_length(&Rect::from(-5, -4, 4, 5)), 10);
    assert_eq!(get_length(&Rect::from(0, 0, 0, 0)), 1);
    assert_eq!(get_length(&Rect::from(-1, -1, 1, 1)), 3);
}

#[test]
fn test_get_center() {
    assert_eq!(get_center(&Rect::from(-5, -4, 4, 5)), CartesianP::from(0, 0));
    assert_eq!(get_center(&Rect::from(-1, -1, 1, 1)), CartesianP::from(0, 0));
    assert_eq!(get_center(&Rect::from(2, 2, 9, 9)), CartesianP::from(5, 5));
}

#[test]
fn test_move_by() {
    let mut r = Rect::from(-5, -4, 4, 5);
    move_by(&mut r, CartesianP::from(3, -2));
    assert_eq!(r, Rect::from(-2, -6, 7, 3));
}

#[test]
fn test_zoom_preserves_center() {
    let mut r = Rect::from(-5, -4, 4, 5);
    zoom_to(&mut r, 40);
    assert_eq!(r, Rect::from(-20, -19, 19, 20));
    zoom_in(&mut r);
    assert_eq!(r, Rect::from(-19, -18, 18, 19));
    zoom_out(&mut r);
    assert_eq!(r, Rect::from(-20, -19, 19, 20));
}

#[test]
fn test_zoom_never_degenerates() {
    let mut r = Rect::from(0, 0, 0, 0);
    zoom_in(&mut r);
    assert_eq!(get_length(&r), 1);
    let mut r2 = Rect::from(-1, -1, 0, 0);
    zoom_in(&mut r2);
    assert_eq!(get_length(&r2), 1);
    let mut r3 = Rect::from(-2, -2, 2, 2);
    zoom_to(&mut r3, 0);
    assert_eq!(get_length(&r3), 1);
}

#[test]
fn test_get_subdivision_size() {
    assert_eq!(get_subdivision_size(&Rect::from(-5, -4, 4, 5), 1000), 100);
    assert_eq!(get_subdivision_size(&Rect::from(-5, -4, 4, 5), 1005), 100);
    assert_eq!(get_subdivision_size(&Rect::from(-5, -4, 4, 5), 5), 0);
}
