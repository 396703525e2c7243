//! Board geometry: the hexagon shape, where each key is drawn, and which hexagon a point of the
//! board falls in.
use vstd::prelude::*;
use crate::arith::{trunc_div, trunc_rem, is_i16, div_toward_zero};
use crate::color::ColorProfile;
use crate::keyboard::HexAddr;

verus! {

/// The shape of one key: its sizes and the corners of a hexagon centred on the origin.
#[derive(Clone, Copy, Debug)]
pub struct HexagonDescription {
    pub width: i16,
    pub height: i16,
    pub half_height: i16,
    pub radius: i16,
    pub x_vec: [i16; 6],
    pub y_vec: [i16; 6],
}

/// Everything the board is laid out and played with.
#[derive(Clone, Copy, Debug)]
pub struct Config {
    pub colors: ColorProfile,
    /// 0 for C.
    pub root_note: u8,
    pub is_major: bool,
    pub hexagon: HexagonDescription,
    pub width: u32,
    pub height: u32,
    pub rows: i16,
    pub cols: i16,
    pub velocity: u8,
}

impl HexagonDescription {
    /// The description of a hexagon of the given radius and half height whose corners, relative
    /// to its centre, are `x_vec` and `y_vec`.
    pub fn new(radius: i16, half_height: i16, x_vec: [i16; 6], y_vec: [i16; 6]) -> (hexagon: Self)
        requires
            is_i16(radius * 2),
            is_i16(half_height * 2),
        ensures
            hexagon.width == radius * 2,
            hexagon.height == half_height * 2,
            hexagon.half_height == half_height,
            hexagon.radius == radius,
            hexagon.x_vec == x_vec,
            hexagon.y_vec == y_vec,
    {
        HexagonDescription {
            width: radius * 2,
            half_height: half_height,
            height: half_height * 2,
            radius: radius,
            x_vec: x_vec,
            y_vec: y_vec,
        }
    }
}

/// The values of a corner array, as integers.
pub open spec fn corner_values(v: [i16; 6]) -> Seq<int> {
    v@.map_values(|e: i16| e as int)
}

/// Every value of `v` moved by `d`.
pub open spec fn shifted(v: Seq<int>, d: int) -> Seq<int> {
    v.map_values(|e: int| e + d)
}

/// Moves the corners of a hexagon by `x` horizontally and `y` vertically.
pub fn translate_hexagon(xlist: [i16; 6], ylist: [i16; 6], x: i16, y: i16) -> (corners: ([i16; 6], [i16; 6]))
    requires
        forall|i: int| 0 <= i < 6 ==> is_i16(#[trigger] xlist[i] + x),
        forall|i: int| 0 <= i < 6 ==> is_i16(#[trigger] ylist[i] + y),
    ensures
        corner_values(corners.0) == shifted(corner_values(xlist), x as int),
        corner_values(corners.1) == shifted(corner_values(ylist), y as int),
        forall|i: int| 0 <= i < 6 ==> #[trigger] corners.0[i] == xlist[i] + x,
        forall|i: int| 0 <= i < 6 ==> #[trigger] corners.1[i] == ylist[i] + y,
{
    let mut xs: [i16; 6] = [0; 6];
    let mut ys: [i16; 6] = [0; 6];
    for i in 0..6
        invariant
            forall|j: int| 0 <= j < 6 ==> is_i16(#[trigger] xlist[j] + x),
            forall|j: int| 0 <= j < 6 ==> is_i16(#[trigger] ylist[j] + y),
            forall|j: int| 0 <= j < i ==> #[trigger] xs[j] == xlist[j] + x,
            forall|j: int| 0 <= j < i ==> #[trigger] ys[j] == ylist[j] + y,
    {
        xs[i] = xlist[i] + x;
        ys[i] = ylist[i] + y;
    }
    assert(corner_values(xs) =~= shifted(corner_values(xlist), x as int));
    assert(forall|i: int| 0 <= i < 6 ==> xs[i] == corner_values(xs)[i]);
    assert(corner_values(ys) =~= shifted(corner_values(ylist), y as int));
    (xs, ys)
}

/// Moving corners by `a` and then by `b` moves them by `a + b`; moving by 0 leaves them.
pub proof fn lemma_translations_compose(v: Seq<int>, a: int, b: int)
    ensures
        shifted(shifted(v, a), b) == shifted(v, a + b),
        shifted(v, 0) == v,
{
    assert(shifted(shifted(v, a), b) =~= shifted(v, a + b));
    assert(shifted(v, 0) =~= v);
}


// ---------------------------------------------------------------------------------------------
// Locating the hexagon under a point
// ---------------------------------------------------------------------------------------------

/// The second triangle coordinate, shifted so that the rows of the grid line up on the left.
pub open spec fn aligned_cord2(cord1: int, cord2: int) -> int {
    cord2 - trunc_div(cord1, 2)
}

/// The third triangle coordinate, shifted so that the rows of the grid line up on the left.
pub open spec fn aligned_cord3(cord1: int, cord3: int) -> int {
    cord3 + (trunc_div(cord1, 2) + 1)
}

/// Which neighbour of the triangle's reference hexagon owns it, as (column step, half-row
/// step), from the band's parity and the remainders (rounded toward zero) of the aligned second
/// and third coordinates modulo 3. In an even band the triangles point down: a triangle owned
/// from below drops to the next half row, the others lie in the next column. In an odd band the
/// triangles point up: a triangle owned from above stays, the others drop to the next half row,
/// moving a column right unless the second remainder is 0.
pub open spec fn owner_step(even_band: bool, r2: int, r3: int) -> (int, int) {
    if even_band {
        if r2 == 0 || (r3 == 1 && r2 == 1) {
            (0, 1)
        } else {
            (1, 0)
        }
    } else if r2 == 1 || (r3 == 0 && r2 == 0) {
        (0, 0)
    } else if r2 != 0 {
        (1, 1)
    } else {
        (0, 1)
    }
}

/// The hexagon (column, half row) that owns the triangle with the given coordinates.
///
/// The board is cut into triangles by three families of lines, at 0, 120 and 240 degrees;
/// `cord1`, `cord2`, `cord3` count the lines of each family below the point. The reference
/// hexagon lies in half row `cord1` and in column `aligned_cord2 / 3` (rounded toward zero);
/// `owner_step` says which of its neighbours owns the triangle.
pub open spec fn triangle_owner(cord1: int, cord2: int, cord3: int) -> (int, int) {
    let c2 = aligned_cord2(cord1, cord2);
    let c3 = aligned_cord3(cord1, cord3);
    let step = owner_step(trunc_rem(cord1, 2) == 0, trunc_rem(c2, 3), trunc_rem(c3, 3));
    (trunc_div(c2, 3) + step.0, cord1 + step.1)
}

/// Two bands further down (and one line more of the second family, one fewer of the third),
/// a triangle belongs to the hexagon two half rows down in the same column. This fails only
/// from band -1, whose half with band 1 rounds to the same value toward zero.
pub proof fn lemma_triangle_two_bands_down(cord1: int, cord2: int, cord3: int)
    requires
        cord1 != -1,
    ensures
        triangle_owner(cord1 + 2, cord2 + 1, cord3 - 1) == (
            triangle_owner(cord1, cord2, cord3).0,
            triangle_owner(cord1, cord2, cord3).1 + 2,
        ),
{
    assert(trunc_div(cord1 + 2, 2) == trunc_div(cord1, 2) + 1);
    assert(trunc_rem(cord1 + 2, 2) == trunc_rem(cord1, 2));
}

/// Three lines further along the second family and three fewer of the third, a triangle
/// belongs to the hexagon one column to the right in the same half row, where the aligned
/// coordinates stay non-negative.
pub proof fn lemma_triangle_one_column_right(cord1: int, cord2: int, cord3: int)
    requires
        aligned_cord2(cord1, cord2) >= 0,
        aligned_cord3(cord1, cord3) >= 3,
    ensures
        triangle_owner(cord1, cord2 + 3, cord3 - 3) == (
            triangle_owner(cord1, cord2, cord3).0 + 1,
            triangle_owner(cord1, cord2, cord3).1,
        ),
{
    let c2 = aligned_cord2(cord1, cord2);
    let c3 = aligned_cord3(cord1, cord3);
    assert(trunc_div(c2 + 3, 3) == trunc_div(c2, 3) + 1);
    assert(trunc_rem(c2 + 3, 3) == trunc_rem(c2, 3));
    assert(trunc_rem(c3 - 3, 3) == trunc_rem(c3, 3));
}

/// The owner of a triangle, by kind. A triangle's kind is its band's parity and the remainders
/// (rounded toward zero) of its aligned second and third coordinates modulo 3; `q` is the
/// aligned second coordinate divided by 3 (rounded toward zero). In an even band (triangles
/// pointing down): remainder 0, or remainders (1, 1), belong to the hexagon half a row down in
/// column `q`; every other kind, remainder (1, r3) with r3 != 1 and remainders 2, -1, -2 whatever
/// the third, belongs to column `q + 1` in the same half row. In an odd band (triangles pointing
/// up): remainder 1, or remainders (0, 0), stay in column `q` and the same half row;
/// remainder 0 with a nonzero third goes half a row down in column `q`; remainders 2, -1, -2,
/// whatever the third, go half a row down and one column right.
pub open spec fn owned_by_kind(cord1: int, cord2: int, cord3: int, x: int, y: int) -> bool {
    let a2 = aligned_cord2(cord1, cord2);
    let a3 = aligned_cord3(cord1, cord3);
    let r2 = trunc_rem(a2, 3);
    let r3 = trunc_rem(a3, 3);
    let q = trunc_div(a2, 3);
    &&& cord1 % 2 == 0 && r2 == 0 ==> x == q && y == cord1 + 1
    &&& cord1 % 2 == 0 && r2 == 1 && r3 == 1 ==> x == q && y == cord1 + 1
    &&& cord1 % 2 == 0 && r2 == 1 && r3 != 1 ==> x == q + 1 && y == cord1
    &&& cord1 % 2 == 0 && (r2 == 2 || r2 == -1 || r2 == -2) ==> x == q + 1 && y == cord1
    &&& cord1 % 2 == 1 && r2 == 1 ==> x == q && y == cord1
    &&& cord1 % 2 == 1 && r2 == 0 && r3 == 0 ==> x == q && y == cord1
    &&& cord1 % 2 == 1 && r2 == 0 && r3 != 0 ==> x == q && y == cord1 + 1
    &&& cord1 % 2 == 1 && (r2 == 2 || r2 == -1 || r2 == -2) ==> x == q + 1 && y == cord1 + 1
}

/// The remainders of the aligned coordinates lie strictly between -3 and 3, so the kinds of
/// `owned_by_kind` cover every triangle, and the owner computed for a triangle is the owner of
/// its kind.
pub proof fn lemma_triangle_owner_by_kind(cord1: int, cord2: int, cord3: int)
    ensures
        -3 < trunc_rem(aligned_cord2(cord1, cord2), 3) < 3,
        -3 < trunc_rem(aligned_cord3(cord1, cord3), 3) < 3,
        owned_by_kind(
            cord1,
            cord2,
            cord3,
            triangle_owner(cord1, cord2, cord3).0,
            triangle_owner(cord1, cord2, cord3).1,
        ),
{
    assert(cord1 % 2 == 0 <==> trunc_rem(cord1, 2) == 0);
}

/// Given the triangle coordinates of a point (how many lines of each of the three families of
/// the triangular grid lie below it), returns the address of the hexagon that contains it.
pub fn hex_address_of_triangle(cord1: i16, cord2: i16, cord3: i16) -> (addr: HexAddr)
    requires
        is_i16(aligned_cord2(cord1 as int, cord2 as int)),
        is_i16(aligned_cord3(cord1 as int, cord3 as int)),
        is_i16(triangle_owner(cord1 as int, cord2 as int, cord3 as int).1),
    ensures
        (addr.x as int, addr.y as int) == triangle_owner(cord1 as int, cord2 as int, cord3 as int),
        owned_by_kind(cord1 as int, cord2 as int, cord3 as int, addr.x as int, addr.y as int),
{
    proof {
        lemma_triangle_owner_by_kind(cord1 as int, cord2 as int, cord3 as int);
    }
    let mut cord2 = cord2;
    let mut cord3 = cord3;
    // left justify the coordinate system for the modulo arithmetic
    cord2 -= cord1 / 2;
    cord3 += cord1 / 2 + 1;

    let mut y = cord1;
    let mut x = cord2 / 3;
    if cord1 % 2 == 0 {
        // triangle points down
        if cord2 % 3 == 0 {
            y += 1;
        } else if cord3 % 3 == 1 && cord2 % 3 == 1 {
            y += 1;
        } else {
            x += 1;
        }
    } else {
        // triangle points up
        if cord2 % 3 == 1 {
        } else if cord3 % 3 == 0 && cord2 % 3 == 0 {
        } else {
            y += 1;
            if cord2 % 3 != 0 {
                x += 1;
            }
        }
    }
    HexAddr { x: x, y: y }
}

// ---------------------------------------------------------------------------------------------
// Drawing positions
// ---------------------------------------------------------------------------------------------

/// Where the centre of the key at (`row`, `col`) is drawn: odd rows are shifted right by one
/// and a half radius, and every row is shifted left by half a hexagon width.
pub open spec fn cell_origin_spec(hexagon: HexagonDescription, row: int, col: int) -> (int, int) {
    let step = (hexagon.width + hexagon.radius) * col;
    let x = if row % 2 == 0 {
        step
    } else {
        step + hexagon.radius + trunc_div(hexagon.radius as int, 2)
    };
    (x - trunc_div(hexagon.width as int, 2), row * hexagon.half_height)
}

/// Keys are drawn on a staggered grid: neighbouring columns of a row are a hexagon width plus
/// a radius apart; each half row lies half a hexagon height below the one above it; odd half
/// rows are shifted right by one and a half radii (the half rounded toward zero) against the
/// even half row above them; and the key at row 0, column 0 is drawn half a hexagon width left
/// of the origin.
pub proof fn lemma_cell_origins_form_a_staggered_grid(hexagon: HexagonDescription, row: int, col: int)
    ensures
        cell_origin_spec(hexagon, row, col + 1).0 - cell_origin_spec(hexagon, row, col).0
            == hexagon.width + hexagon.radius,
        cell_origin_spec(hexagon, row + 1, col).1 - cell_origin_spec(hexagon, row, col).1
            == hexagon.half_height,
        row % 2 == 0 ==> cell_origin_spec(hexagon, row + 1, col).0 - cell_origin_spec(
            hexagon,
            row,
            col,
        ).0 == hexagon.radius + trunc_div(hexagon.radius as int, 2),
        cell_origin_spec(hexagon, 0, 0) == (-trunc_div(hexagon.width as int, 2), 0int),
{
    assert((hexagon.width + hexagon.radius) * (col + 1) == (hexagon.width + hexagon.radius) * col
        + hexagon.width + hexagon.radius) by (nonlinear_arith);
    assert((row + 1) * hexagon.half_height == row * hexagon.half_height + hexagon.half_height)
        by (nonlinear_arith);
    assert((row + 1) % 2 != 0 <==> row % 2 == 0);
}

/// The arithmetic of `cell_origin` stays in range.
pub open spec fn cell_origin_in_range(hexagon: HexagonDescription, row: int, col: int) -> bool {
    let w = hexagon.width as int;
    let r = hexagon.radius as int;
    let step = (w + r) * col;
    let x = if row % 2 == 0 {
        step
    } else {
        step + r + trunc_div(r, 2)
    };
    &&& is_i16(w + r)
    &&& is_i16(step)
    &&& row % 2 != 0 ==> is_i16(step + r)
    &&& is_i16(x)
    &&& is_i16(x - trunc_div(w, 2))
    &&& is_i16(row * hexagon.half_height)
}

/// The drawing position of the centre of the key at (`row`, `col`).
pub fn cell_origin(hexagon: &HexagonDescription, row: i16, col: i16) -> (origin: (i16, i16))
    requires
        cell_origin_in_range(*hexagon, row as int, col as int),
    ensures
        (origin.0 as int, origin.1 as int) == cell_origin_spec(*hexagon, row as int, col as int),
{
    let is_even = row % 2 == 0;
    let (mut x_offset, y_offset) = match is_even {
        true => ((hexagon.width + hexagon.radius) * col, row * hexagon.half_height),
        false => (
            (hexagon.width + hexagon.radius) * col + hexagon.radius + hexagon.radius / 2,
            row * hexagon.half_height,
        ),
    };
    x_offset -= hexagon.width / 2;
    (x_offset, y_offset)
}

/// Where a label of the given size is drawn so that it is centred on (`x_offset`, `y_offset`).
pub fn label_origin(x_offset: i16, y_offset: i16, width: u32, height: u32) -> (origin: (i32, i32))
    ensures
        origin.0 == x_offset - trunc_div((width as i32) as int, 2),
        origin.1 == y_offset - trunc_div((height as i32) as int, 2),
{
    let label_x = (x_offset as i32 - width as i32 / 2) as i32;
    let label_y = (y_offset as i32 - height as i32 / 2) as i32;
    (label_x, label_y)
}

/// How many rows and columns of keys cover a window of the given size.
pub open spec fn grid_size_spec(window_width: u32, window_height: u32, hexagon: HexagonDescription) -> (int, int) {
    (
        trunc_div((window_height as i16) as int, hexagon.height as int) * 2 + 3,
        trunc_div((window_width as i16) as int, hexagon.width + hexagon.radius) + 2,
    )
}

/// The arithmetic of `grid_size` stays in range.
pub open spec fn grid_size_in_range(window_width: u32, window_height: u32, hexagon: HexagonDescription) -> bool {
    let h = (window_height as i16) as int;
    let w = (window_width as i16) as int;
    let step = hexagon.width + hexagon.radius;
    &&& hexagon.height != 0
    &&& !(h == i16::MIN && hexagon.height == -1)
    &&& is_i16(trunc_div(h, hexagon.height as int) * 2)
    &&& is_i16(trunc_div(h, hexagon.height as int) * 2 + 3)
    &&& is_i16(step)
    &&& step != 0
    &&& !(w == i16::MIN && step == -1)
    &&& is_i16(trunc_div(w, step) + 2)
}

/// The number of rows and columns of keys drawn in a window of the given size (the window's
/// sizes are taken as `i16`, as the board's arithmetic is).
pub fn grid_size(window_width: u32, window_height: u32, hexagon: &HexagonDescription) -> (size: (i16, i16))
    requires
        grid_size_in_range(window_width, window_height, *hexagon),
    ensures
        (size.0 as int, size.1 as int) == grid_size_spec(window_width, window_height, *hexagon),
{
    let rows = div_toward_zero(window_height as i16, hexagon.height) * 2 + 3;
    let cols = div_toward_zero(window_width as i16, hexagon.width + hexagon.radius) + 2;
    (rows, cols)
}

} // verus!
