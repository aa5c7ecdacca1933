use tiler::Grid;
use tiler::GridError;

#[test]
fn set_then_get_roundtrips_on_every_in_bounds_cell() {
    let mut grid: Grid<u32> = Grid::new(80, 25, 0);
    for y in 0..25 {
        for x in 0..80 {
            let value = (y * 80 + x) as u32;
            assert_eq!(grid.set(x, y, value), Ok(()));
            assert_eq!(grid.get(x, y), Ok(value));
        }
    }
    // Earlier writes survive later ones to other cells.
    assert_eq!(grid.get(0, 0), Ok(0));
    assert_eq!(grid.get(79, 24), Ok((24 * 80 + 79) as u32));
}

#[test]
fn out_of_bounds_access_fails_with_index_out_of_bounds() {
    let mut grid: Grid<u32> = Grid::new(80, 25, 7);
    assert_eq!(grid.get(80, 0), Err(GridError::IndexOutOfBounds));
    assert_eq!(grid.get(0, 25), Err(GridError::IndexOutOfBounds));
    assert_eq!(grid.get(80, 25), Err(GridError::IndexOutOfBounds));
    assert_eq!(grid.set(80, 0, 1), Err(GridError::IndexOutOfBounds));
    assert_eq!(grid.set(0, 25, 1), Err(GridError::IndexOutOfBounds));
    // A failed write leaves the grid untouched.
    for y in 0..25 {
        for x in 0..80 {
            assert_eq!(grid.get(x, y), Ok(7));
        }
    }
}

#[test]
fn new_initializes_every_cell_with_the_fill() {
    let grid: Grid<u8> = Grid::new(3, 2, 42);
    assert_eq!(grid.width(), 3);
    assert_eq!(grid.height(), 2);
    for y in 0..2 {
        for x in 0..3 {
            assert_eq!(grid.get(x, y), Ok(42));
        }
    }
}

#[test]
fn from_fn_fills_each_cell_from_its_coordinate() {
    let grid: Grid<usize> = Grid::from_fn(4, 3, |x, y| 10 * y + x);
    for y in 0..3 {
        for x in 0..4 {
            assert_eq!(grid.get(x, y), Ok(10 * y + x));
        }
    }
}

#[test]
fn debug_dump_renders_rows_with_newlines_between() {
    let mut grid: Grid<usize> = Grid::new(3, 2, 0);
    grid.set(1, 0, 1).unwrap();
    grid.set(2, 1, 1).unwrap();
    let chars = vec!['.', '#'];
    let dump: String = grid.debug_dump(&chars).into_iter().collect();
    assert_eq!(dump, ".#.\n..#");
}

#[test]
fn debug_dump_of_one_row_has_no_newline() {
    let grid: Grid<usize> = Grid::new(3, 1, 0);
    let chars = vec!['x'];
    let dump: String = grid.debug_dump(&chars).into_iter().collect();
    assert_eq!(dump, "xxx");
}

#[test]
fn zero_sized_grids_reject_every_access() {
    let mut grid: Grid<u8> = Grid::new(0, 5, 0);
    assert_eq!(grid.get(0, 0), Err(GridError::IndexOutOfBounds));
    assert_eq!(grid.set(0, 0, 1), Err(GridError::IndexOutOfBounds));
}
