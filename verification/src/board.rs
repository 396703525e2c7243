//! What is drawn for each key of the board: its outline, its fill colour and its label.
use vstd::prelude::*;
use crate::arith::{is_i16, fits_i16};
use crate::color::{
    Color, color_mask, major_color_mask, minor_color_mask, note_color, note_to_color, scale_degree,
};
use crate::keyboard::{HexAddr, Keyboard};
use crate::layout::{
    Config, cell_origin, cell_origin_in_range, cell_origin_spec, corner_values, shifted,
    translate_hexagon,
};

verus! {

/// One key as it is drawn: the corners of its outline, the centre its label is drawn around,
/// its fill colour and its label.
pub struct HexCell {
    pub xs: [i16; 6],
    pub ys: [i16; 6],
    pub x_offset: i16,
    pub y_offset: i16,
    pub fill: Color,
    pub label: String,
}

/// The fill colour of a key: the highlight colour while it is pressed, otherwise the colour of
/// its note, or the line colour where the layout has no key.
pub open spec fn cell_fill(config: Config, key: Option<(Seq<char>, u8)>, pressed: bool) -> Color {
    if pressed {
        config.colors.white
    } else {
        match key {
            Some(k) => note_color(config.colors, config.is_major, config.root_note, k.1),
            None => config.colors.line_color,
        }
    }
}

/// The label drawn on a key: its name, or a blank where the layout has no key.
pub open spec fn cell_label(key: Option<(Seq<char>, u8)>) -> Seq<char> {
    match key {
        Some(k) => k.0,
        None => " "@,
    }
}

/// The address of the key in row `row` and column `col`.
pub open spec fn cell_addr(row: i16, col: i16) -> HexAddr {
    HexAddr { x: col, y: row }
}

/// Laying out the key at (`row`, `col`) keeps all its arithmetic in range.
pub open spec fn hex_cell_in_range<K: Keyboard>(config: Config, keyboard: K, row: i16, col: i16) -> bool {
    let origin = cell_origin_spec(config.hexagon, row as int, col as int);
    &&& cell_origin_in_range(config.hexagon, row as int, col as int)
    &&& forall|i: int| 0 <= i < 6 ==> is_i16(#[trigger] config.hexagon.x_vec[i] + origin.0)
    &&& forall|i: int| 0 <= i < 6 ==> is_i16(#[trigger] config.hexagon.y_vec[i] + origin.1)
    &&& keyboard.in_range(cell_addr(row, col))
}

/// `addr` is one of `keys`.
fn contains_addr(keys: &Vec<HexAddr>, addr: HexAddr) -> (found: bool)
    ensures
        found == keys@.contains(addr),
{
    let mut i: usize = 0;
    while i < keys.len()
        invariant
            i <= keys.len(),
            forall|j: int| 0 <= j < i ==> keys@[j] != addr,
        decreases keys.len() - i,
    {
        if keys[i] == addr {
            assert(keys@[i as int] == addr);
            return true;
        }
        i += 1;
    }
    false
}

/// `cell` is the key in row `row` and column `col` as laid out under `config` and `keyboard`:
/// drawn around its cell origin, with the hexagon's corners moved there, filled (highlighted
/// while its address is one of `pressed`) and labelled from its key.
pub open spec fn cell_laid_out<K: Keyboard>(
    cell: HexCell,
    config: Config,
    keyboard: K,
    row: i16,
    col: i16,
    pressed: Seq<HexAddr>,
) -> bool {
    &&& (cell.x_offset as int, cell.y_offset as int) == cell_origin_spec(
        config.hexagon,
        row as int,
        col as int,
    )
    &&& corner_values(cell.xs) == shifted(corner_values(config.hexagon.x_vec), cell.x_offset as int)
    &&& corner_values(cell.ys) == shifted(corner_values(config.hexagon.y_vec), cell.y_offset as int)
    &&& cell.fill == cell_fill(
        config,
        keyboard.key_at(cell_addr(row, col)),
        pressed.contains(cell_addr(row, col)),
    )
    &&& cell.label@ == cell_label(keyboard.key_at(cell_addr(row, col)))
}

/// Lays out the key in row `row` and column `col`: where it is drawn, how it is filled
/// (highlighted while one of `pressed_keys`), and its label.
pub fn hex_cell<K: Keyboard>(
    config: &Config,
    keyboard: &K,
    row: i16,
    col: i16,
    pressed_keys: &Vec<HexAddr>,
) -> (cell: HexCell)
    requires
        hex_cell_in_range(*config, *keyboard, row, col),
    ensures
        cell_laid_out(cell, *config, *keyboard, row, col, pressed_keys@),
        pressed_keys@.contains(cell_addr(row, col)) ==> cell.fill == config.colors.white,
        !pressed_keys@.contains(cell_addr(row, col)) ==> match keyboard.key_at(cell_addr(row, col)) {
            Some(k) => cell.fill == color_mask(config.colors, config.is_major)[scale_degree(
                config.root_note,
                k.1,
            )],
            None => cell.fill == config.colors.line_color,
        },
        match keyboard.key_at(cell_addr(row, col)) {
            Some(k) => cell.label@ == k.0,
            None => cell.label@ == " "@,
        },
{
    let addr = HexAddr { x: col, y: row };
    let (x_offset, y_offset) = cell_origin(&config.hexagon, row, col);
    let (xs, ys) = translate_hexagon(config.hexagon.x_vec, config.hexagon.y_vec, x_offset, y_offset);
    let key_info = keyboard.get_key_info(addr);
    let (color, label) = if let Some(key_info) = key_info {
        (note_to_color(key_info.note, config), key_info.label)
    } else {
        (config.colors.line_color, " ".to_string())
    };
    let polygon_color = match contains_addr(pressed_keys, addr) {
        true => config.colors.white,
        false => color,
    };
    proof {
        if let Some(k) = keyboard.key_at(addr) {
            lemma_key_fill_is_note_color(*config, k.0, k.1);
        }
    }
    HexCell { xs, ys, x_offset, y_offset, fill: polygon_color, label }
}

/// An unpressed key that has a note is filled with the colour of that note under the board's
/// own mode and root note: the degree of the note above the root picks the entry of the major
/// mask in a major key and of the minor mask in a minor key.
pub proof fn lemma_key_fill_is_note_color(config: Config, label: Seq<char>, note: u8)
    ensures
        cell_fill(config, Some((label, note)), false) == note_color(
            config.colors,
            config.is_major,
            config.root_note,
            note,
        ),
        config.is_major ==> cell_fill(config, Some((label, note)), false) == major_color_mask(
            config.colors,
        )[scale_degree(config.root_note, note)],
        !config.is_major ==> cell_fill(config, Some((label, note)), false) == minor_color_mask(
            config.colors,
        )[scale_degree(config.root_note, note)],
{
}

/// Tells whether `hex_cell` can lay out the key at (`row`, `col`).
pub fn hex_cell_computable<K: Keyboard>(config: &Config, keyboard: &K, row: i16, col: i16) -> (ok: bool)
    ensures
        ok == hex_cell_in_range(*config, *keyboard, row, col),
{
    let hexagon = &config.hexagon;
    let w = hexagon.width as i64;
    let r = hexagon.radius as i64;
    let c = col as i64;
    assert(-65536 * 32768 <= (w + r) * c <= 65536 * 32768) by (nonlinear_arith)
        requires
            -65536 <= w + r <= 65536,
            -32768 <= c <= 32767,
    ;
    let step = (w + r) * c;
    let x = if row % 2 == 0 {
        step
    } else {
        step + r + (hexagon.radius / 2) as i64
    };
    let hh = hexagon.half_height as i64;
    assert(-32768 * 32768 <= (row as i64) * hh <= 32768 * 32768) by (nonlinear_arith)
        requires
            -32768 <= hh <= 32767,
            -32768 <= row <= 32767,
    ;
    let origin_ok = fits_i16(w + r) && fits_i16(step) && (row % 2 == 0 || fits_i16(step + r))
        && fits_i16(x) && fits_i16(x - (hexagon.width / 2) as i64) && fits_i16(
        row as i64 * hexagon.half_height as i64,
    );
    if !origin_ok {
        return false;
    }
    let (x_offset, y_offset) = cell_origin(hexagon, row, col);
    let ghost origin = cell_origin_spec(config.hexagon, row as int, col as int);
    assert(origin.0 == x_offset && origin.1 == y_offset);
    let mut i: usize = 0;
    while i < 6
        invariant
            i <= 6,
            origin.0 == x_offset,
            origin.1 == y_offset,
            origin == cell_origin_spec(config.hexagon, row as int, col as int),
            *hexagon == config.hexagon,
            forall|j: int| 0 <= j < i ==> is_i16(#[trigger] hexagon.x_vec[j] + x_offset),
            forall|j: int| 0 <= j < i ==> is_i16(#[trigger] hexagon.y_vec[j] + y_offset),
        decreases 6 - i,
    {
        if !(fits_i16(hexagon.x_vec[i] as i64 + x_offset as i64) && fits_i16(
            hexagon.y_vec[i] as i64 + y_offset as i64,
        )) {
            assert(!is_i16(hexagon.x_vec[i as int] + x_offset) || !is_i16(
                hexagon.y_vec[i as int] + y_offset,
            ));
            return false;
        }
        i += 1;
    }
    keyboard.key_in_range(HexAddr { x: col, y: row })
}

/// The number of rows of keys drawn: `config.rows`, or none when it is not positive.
pub open spec fn grid_rows(config: Config) -> int {
    if config.rows > 0 {
        config.rows as int
    } else {
        0
    }
}

/// The number of columns of keys drawn: `config.cols`, or none when it is not positive.
pub open spec fn grid_cols(config: Config) -> int {
    if config.cols > 0 {
        config.cols as int
    } else {
        0
    }
}

/// Every key of the board can be laid out.
pub open spec fn board_in_range<K: Keyboard>(config: Config, keyboard: K) -> bool {
    forall|row: i16, col: i16|
        0 <= row < config.rows && 0 <= col < config.cols ==> #[trigger] hex_cell_in_range(
            config,
            keyboard,
            row,
            col,
        )
}

/// Lays out every key of the board, row by row and, within a row, column by column: entry `i`
/// is the key in row `i / cols` and column `i % cols`.
pub fn board_cells<K: Keyboard>(config: &Config, keyboard: &K, pressed_keys: &Vec<HexAddr>) -> (cells: Vec<HexCell>)
    requires
        board_in_range(*config, *keyboard),
    ensures
        cells.len() == grid_rows(*config) * grid_cols(*config),
        forall|i: int|
            0 <= i < cells.len() ==> cell_laid_out(
                #[trigger] cells[i],
                *config,
                *keyboard,
                (i / grid_cols(*config)) as i16,
                (i % grid_cols(*config)) as i16,
                pressed_keys@,
            ),
{
    let mut cells: Vec<HexCell> = Vec::new();
    if config.rows <= 0 || config.cols <= 0 {
        return cells;
    }
    let rows = config.rows as usize;
    let cols = config.cols as usize;
    assert(rows * cols <= 32767 * 32767) by (nonlinear_arith)
        requires
            rows <= 32767,
            cols <= 32767,
    ;
    let total = rows * cols;
    let mut i: usize = 0;
    while i < total
        invariant
            rows == grid_rows(*config),
            cols == grid_cols(*config),
            0 < cols <= 32767,
            total == rows * cols,
            i <= total,
            cells.len() == i,
            board_in_range(*config, *keyboard),
            forall|j: int|
                0 <= j < i ==> cell_laid_out(
                    #[trigger] cells[j],
                    *config,
                    *keyboard,
                    (j / cols as int) as i16,
                    (j % cols as int) as i16,
                    pressed_keys@,
                ),
        decreases total - i,
    {
        assert(i / cols < rows) by (nonlinear_arith)
            requires
                i < rows * cols,
                cols > 0,
        ;
        let row = (i / cols) as i16;
        let col = (i % cols) as i16;
        assert(hex_cell_in_range(*config, *keyboard, row, col));
        let cell = hex_cell(config, keyboard, row, col, pressed_keys);
        cells.push(cell);
        i += 1;
    }
    cells
}

/// The addresses of the board's keys that `pressed` holds.
pub open spec fn pressed_on_board(config: Config, pressed: Seq<HexAddr>) -> Set<HexAddr> {
    Set::new(
        |a: HexAddr|
            0 <= a.y < config.rows && 0 <= a.x < config.cols && pressed.contains(a),
    )
}

/// Laying out the board depends on the pressed list only through which of the board's keys it
/// holds: order, repeats and addresses off the board change nothing.
pub proof fn lemma_board_depends_only_on_pressed_keys<K: Keyboard>(
    config: Config,
    keyboard: K,
    pressed1: Seq<HexAddr>,
    pressed2: Seq<HexAddr>,
    cell: HexCell,
    row: i16,
    col: i16,
)
    requires
        pressed_on_board(config, pressed1) == pressed_on_board(config, pressed2),
        0 <= row < config.rows,
        0 <= col < config.cols,
    ensures
        cell_laid_out(cell, config, keyboard, row, col, pressed1) == cell_laid_out(
            cell,
            config,
            keyboard,
            row,
            col,
            pressed2,
        ),
{
    let a = cell_addr(row, col);
    assert(pressed_on_board(config, pressed1).contains(a) == pressed1.contains(a));
    assert(pressed_on_board(config, pressed2).contains(a) == pressed2.contains(a));
}

} // verus!
