use isomidi::keyboard::HexAddr;
use isomidi::layout::{
    cell_origin, grid_size, hex_address_of_triangle, label_origin, translate_hexagon,
    HexagonDescription,
};

fn hexagon() -> HexagonDescription {
    HexagonDescription::new(
        75,
        65,
        [38, 75, 38, -38, -75, -38],
        [65, 0, -65, -65, 0, 65],
    )
}

#[test]
fn hexagon_description_sizes() {
    let h = hexagon();
    assert_eq!(h.width, 150);
    assert_eq!(h.height, 130);
    assert_eq!(h.half_height, 65);
    assert_eq!(h.radius, 75);
}

#[test]
fn translate_moves_every_corner() {
    let (xs, ys) = translate_hexagon([1, 2, 3, 4, 5, 6], [-1, -2, -3, -4, -5, -6], 10, -20);
    assert_eq!(xs, [11, 12, 13, 14, 15, 16]);
    assert_eq!(ys, [-21, -22, -23, -24, -25, -26]);
}

#[test]
fn translations_compose() {
    let xs0 = [38, 75, 38, -38, -75, -38];
    let ys0 = [65, 0, -65, -65, 0, 65];
    let (xs1, ys1) = translate_hexagon(xs0, ys0, 100, 40);
    let (xs2, ys2) = translate_hexagon(xs1, ys1, -30, 7);
    let (xs3, ys3) = translate_hexagon(xs0, ys0, 70, 47);
    assert_eq!(xs2, xs3);
    assert_eq!(ys2, ys3);
    assert_eq!(translate_hexagon(xs0, ys0, 0, 0), (xs0, ys0));
}

#[test]
fn triangles_of_even_bands() {
    assert_eq!(hex_address_of_triangle(0, 0, 0), HexAddr { x: 0, y: 1 });
    assert_eq!(hex_address_of_triangle(0, 1, 0), HexAddr { x: 0, y: 1 });
    assert_eq!(hex_address_of_triangle(0, 1, -2), HexAddr { x: 1, y: 0 });
    assert_eq!(hex_address_of_triangle(0, 2, 0), HexAddr { x: 1, y: 0 });
    assert_eq!(hex_address_of_triangle(4, 7, -5), HexAddr { x: 2, y: 4 });
}

#[test]
fn triangles_of_odd_bands() {
    assert_eq!(hex_address_of_triangle(1, 0, 0), HexAddr { x: 0, y: 2 });
    assert_eq!(hex_address_of_triangle(1, 0, -1), HexAddr { x: 0, y: 1 });
    assert_eq!(hex_address_of_triangle(1, 1, 0), HexAddr { x: 0, y: 1 });
    assert_eq!(hex_address_of_triangle(1, 2, 0), HexAddr { x: 1, y: 2 });
}

#[test]
fn triangles_left_and_above_the_origin() {
    assert_eq!(hex_address_of_triangle(-1, -1, 0), HexAddr { x: 1, y: 0 });
    assert_eq!(hex_address_of_triangle(-3, -4, 2), HexAddr { x: -1, y: -2 });
    assert_eq!(hex_address_of_triangle(-2, -5, 3), HexAddr { x: 0, y: -2 });
}

#[test]
fn cell_origins_of_even_and_odd_rows() {
    let h = hexagon();
    assert_eq!(cell_origin(&h, 0, 0), (-75, 0));
    assert_eq!(cell_origin(&h, 0, 2), (375, 0));
    // odd rows shift right by one and a half radius
    assert_eq!(cell_origin(&h, 1, 0), (37, 65));
    assert_eq!(cell_origin(&h, 3, 1), (262, 195));
    assert_eq!(cell_origin(&h, -1, -1), (-188, -65));
}

#[test]
fn label_is_centred() {
    assert_eq!(label_origin(100, 50, 21, 10), (90, 45));
    assert_eq!(label_origin(-5, 0, 0, 1), (-5, 0));
    // sizes beyond i32 wrap before halving
    assert_eq!(label_origin(0, 0, u32::MAX, 4_294_967_294), (0, 1));
}

#[test]
fn grid_covers_the_window() {
    let h = hexagon();
    // 1200 / 130 = 9 rows of full height -> 2 * 9 + 3 half rows; 1800 / 225 = 8 + 2 columns
    assert_eq!(grid_size(1800, 1200, &h), (21, 10));
    assert_eq!(grid_size(0, 0, &h), (3, 2));
}

#[test]
fn grid_with_negative_hexagon_sizes() {
    let h = HexagonDescription::new(-75, -65, [0; 6], [0; 6]);
    // -130 high, -225 wide: division rounds toward zero
    assert_eq!(grid_size(1800, 1200, &h), (-15, -6));
}

#[test]
fn two_bands_down_is_two_half_rows_down() {
    for (c1, c2, c3) in [(0, 0, 0), (1, 2, 0), (4, 7, -5), (-3, -4, 2), (-2, -5, 3)] {
        let a = hex_address_of_triangle(c1, c2, c3);
        let b = hex_address_of_triangle(c1 + 2, c2 + 1, c3 - 1);
        assert_eq!(b, HexAddr { x: a.x, y: a.y + 2 });
    }
}

#[test]
fn two_bands_down_fails_from_band_minus_one() {
    assert_eq!(hex_address_of_triangle(-1, 0, 0), HexAddr { x: 0, y: 0 });
    assert_eq!(hex_address_of_triangle(1, 1, -1), HexAddr { x: 0, y: 1 });
}

#[test]
fn three_lines_along_is_one_column_right() {
    for (c1, c2, c3) in [(0, 0, 2), (1, 2, 3), (2, 5, 4)] {
        let a = hex_address_of_triangle(c1, c2, c3);
        let b = hex_address_of_triangle(c1, c2 + 3, c3 - 3);
        assert_eq!(b, HexAddr { x: a.x + 1, y: a.y });
    }
}
