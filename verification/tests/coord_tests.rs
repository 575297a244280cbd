use mctool::coord::Coord;

#[test]
fn add_is_componentwise() {
    assert_eq!(Coord(1, 2).add(Coord(10, -20)), Coord(11, -18));
}

#[test]
fn sub_is_componentwise() {
    assert_eq!(Coord(1, 2).sub(Coord(10, -20)), Coord(-9, 22));
}

#[test]
fn emul_scales_each_axis() {
    assert_eq!(Coord(54, 54).emul(9, 3), Coord(486, 162));
}

#[test]
fn mul_scales_both_axes() {
    assert_eq!(Coord(54, -54).mul(3), Coord(162, -162));
}

#[test]
fn ediv_rounds_towards_zero() {
    assert_eq!(Coord(107, -107).ediv(Coord(54, 54)), Coord(1, -1));
    assert_eq!(Coord(7, -7).ediv(Coord(-2, -2)), Coord(-3, 3));
}

#[test]
fn div_halves_cell_size() {
    assert_eq!(Coord(54, 54).div(2), Coord(27, 27));
    assert_eq!(Coord(7, -7).div(2), Coord(3, -3));
}

#[test]
fn ediv_of_minimum_by_one() {
    assert_eq!(Coord(i32::MIN, i32::MIN).ediv(Coord(1, 2)), Coord(i32::MIN, i32::MIN / 2));
}

#[test]
fn containment_is_half_open() {
    let top_left = Coord(10, 20);
    let bottom_right = Coord(30, 40);
    assert!(Coord(10, 20).is_contained(top_left, bottom_right));
    assert!(Coord(29, 39).is_contained(top_left, bottom_right));
    assert!(!Coord(9, 20).is_contained(top_left, bottom_right));
    assert!(!Coord(10, 19).is_contained(top_left, bottom_right));
    assert!(!Coord(30, 20).is_contained(top_left, bottom_right));
    assert!(!Coord(10, 40).is_contained(top_left, bottom_right));
}

#[test]
fn converts_from_and_to_pairs() {
    let c = Coord::from((3, 4));
    assert_eq!(c, Coord(3, 4));
    let pair: (i32, i32) = c.into();
    assert_eq!(pair, (3, 4));
}
