use pegdrop::error::Error;
use pegdrop::fixed::{Fixed, Vec2};
use pegdrop::grid::{clamp_position_to_grid, Grid2D};

fn at(x: i32, y: i32) -> Vec2 {
    Vec2::new(Fixed::new(x), Fixed::new(y))
}

fn sorted(mut v: Vec<u8>) -> Vec<u8> {
    v.sort();
    v
}

#[test]
fn coordinates_are_clamped_rounded_and_shifted() {
    assert_eq!(Grid2D::spatial_to_grid_coords(&at(50, 50)), (6, 6));
    assert_eq!(Grid2D::spatial_to_grid_coords(&at(-30, -1)), (0, 0));
    assert_eq!(Grid2D::spatial_to_grid_coords(&at(500, 500)), (23, 19));
    assert_eq!(Grid2D::spatial_to_grid_coords(&Vec2::new(Fixed::from_raw(2000), Fixed::from_raw(0))), (1, 0));
}

#[test]
fn ninth_insert_in_one_cell_is_cell_full() {
    let mut grid = Grid2D::new(&[], &[]).unwrap();
    for i in 0..8 {
        assert_eq!(grid.insert(i, at(50, 50)), Ok(()));
    }
    assert_eq!(grid.insert(8, at(50, 50)), Err(Error::CellFull));
    let found = grid.get_neighbors(at(50, 50), 0).unwrap().to_vec();
    assert_eq!(sorted(found), vec![0, 1, 2, 3, 4, 5, 6, 7]);
}

#[test]
fn build_rejects_a_full_cell() {
    let positions = [at(10, 10); 9];
    let collidable = [true; 9];
    assert!(matches!(Grid2D::new(&positions, &collidable), Err(Error::CellFull)));
    let some = [true, true, true, true, true, true, true, true, false];
    assert!(Grid2D::new(&positions, &some).is_ok());
}

#[test]
fn build_rejects_an_index_past_u8() {
    let positions: Vec<Vec2> = (0..257).map(|i| at((i % 20) * 8, (i / 20) * 8)).collect();
    let mut collidable = vec![false; 257];
    collidable[256] = true;
    assert!(matches!(Grid2D::new(&positions, &collidable), Err(Error::IndexTooBig)));
}

#[test]
fn query_returns_members_of_the_block_only() {
    let positions = [at(50, 50), at(58, 50), at(66, 50), at(80, 80), at(50, 42)];
    let collidable = [true, true, true, true, false];
    let grid = Grid2D::new(&positions, &collidable).unwrap();
    assert_eq!(sorted(grid.get_neighbors(at(50, 50), 1).unwrap().to_vec()), vec![0, 1]);
    assert_eq!(sorted(grid.get_neighbors(at(50, 50), 2).unwrap().to_vec()), vec![0, 1, 2]);
    assert_eq!(sorted(grid.get_neighbors(at(80, 80), 0).unwrap().to_vec()), vec![3]);
}

#[test]
fn update_with_equal_positions_changes_nothing() {
    let positions = [at(50, 50)];
    let mut grid = Grid2D::new(&positions, &[true]).unwrap();
    assert_eq!(grid.update(0, at(50, 50), at(50, 50)), Ok(()));
    assert_eq!(grid.update(300, at(50, 50), at(50, 50)), Ok(()));
    assert_eq!(grid.get_neighbors(at(50, 50), 0).unwrap().to_vec(), vec![0]);
}

#[test]
fn update_moves_a_body_between_cells() {
    let positions = [at(50, 50), at(51, 50)];
    let mut grid = Grid2D::new(&positions, &[true, true]).unwrap();
    assert_eq!(grid.update(0, at(50, 50), at(120, 100)), Ok(()));
    assert_eq!(grid.get_neighbors(at(50, 50), 0).unwrap().to_vec(), vec![1]);
    assert_eq!(grid.get_neighbors(at(120, 100), 0).unwrap().to_vec(), vec![0]);
}

#[test]
fn update_of_an_untracked_body_inserts_it() {
    let mut grid = Grid2D::new(&[], &[]).unwrap();
    assert_eq!(grid.update(5, at(10, 10), at(100, 100)), Ok(()));
    assert_eq!(grid.get_neighbors(at(100, 100), 0).unwrap().to_vec(), vec![5]);
    assert_eq!(grid.get_neighbors(at(10, 10), 0).unwrap().to_vec(), Vec::<u8>::new());
}

#[test]
fn update_with_an_index_past_u8_fails() {
    let mut grid = Grid2D::new(&[], &[]).unwrap();
    assert_eq!(grid.update(256, at(10, 10), at(100, 100)), Err(Error::IndexTooBig));
    assert_eq!(grid.insert(256, at(10, 10)), Err(Error::IndexTooBig));
}

#[test]
fn dense_block_overflows_the_query() {
    let mut grid = Grid2D::new(&[], &[]).unwrap();
    let mut index = 0;
    for cx in 0..3 {
        for cy in 0..3 {
            for _ in 0..8 {
                grid.insert(index, at(40 + cx * 8, 40 + cy * 8)).unwrap();
                index += 1;
            }
        }
    }
    assert_eq!(grid.get_neighbors(at(48, 48), 1), Err(Error::TooManyNeighbors));
    assert_eq!(grid.get_neighbors(at(48, 48), 0).unwrap().len(), 8);
}

#[test]
fn clamping_is_idempotent() {
    let outside = Vec2::new(Fixed::new(-4), Fixed::new(400));
    let once = clamp_position_to_grid(outside);
    assert_eq!(once, Vec2::new(Fixed::new(0), Fixed::new(152)));
    assert_eq!(clamp_position_to_grid(once), once);
    let inside = at(30, 40);
    assert_eq!(clamp_position_to_grid(inside), inside);
    assert_eq!(clamp_position_to_grid(at(190, 10)), at(184, 10));
}
