use lizi_engine2d::grid::{periodic_cell_pair, shift_array2, signed_frequency, wrap_index, Grid2};

fn grid(nx: usize, ny: usize) -> Grid2<i32> {
    Grid2 { nx, ny, data: (0..(nx * ny) as i32).collect() }
}

#[test]
fn wrap_index_is_euclidean_remainder() {
    assert_eq!(wrap_index(7, 5), 2);
    assert_eq!(wrap_index(-1, 5), 4);
    assert_eq!(wrap_index(-5, 5), 0);
    assert_eq!(wrap_index(-6, 5), 4);
    assert_eq!(wrap_index(0, 1), 0);
    assert_eq!(wrap_index(i64::MIN, 3), i64::MIN.rem_euclid(3) as usize);
    assert_eq!(wrap_index(i64::MAX, 7), i64::MAX.rem_euclid(7) as usize);
    for k in -20i64..20 {
        for n in 1usize..7 {
            assert_eq!(wrap_index(k, n), k.rem_euclid(n as i64) as usize);
        }
    }
}

#[test]
fn periodic_cell_pair_wraps_both_nodes() {
    assert_eq!(periodic_cell_pair(0, 4), (0, 1));
    assert_eq!(periodic_cell_pair(3, 4), (3, 0));
    assert_eq!(periodic_cell_pair(-1, 4), (3, 0));
    assert_eq!(periodic_cell_pair(9, 4), (1, 2));
    assert_eq!(periodic_cell_pair(5, 1), (0, 0));
}

#[test]
fn signed_frequency_folds_upper_half() {
    let got: Vec<i64> = (0..8).map(|i| signed_frequency(i, 8)).collect();
    assert_eq!(got, vec![0, 1, 2, 3, 4, -3, -2, -1]);
    let got: Vec<i64> = (0..5).map(|i| signed_frequency(i, 5)).collect();
    assert_eq!(got, vec![0, 1, 2, -2, -1]);
    assert_eq!(signed_frequency(0, 1), 0);
}

#[test]
fn shift_rows_like_numpy_roll() {
    // 3 x 2 array [[0,1],[2,3],[4,5]]; out[i][j] = in[(i + shift) mod 3][j]
    let g = grid(3, 2);
    let plus = shift_array2(&g, 0, 1);
    assert_eq!((plus.nx, plus.ny), (3, 2));
    assert_eq!(plus.data, vec![2, 3, 4, 5, 0, 1]);
    let minus = shift_array2(&g, 0, -1);
    assert_eq!(minus.data, vec![4, 5, 0, 1, 2, 3]);
    let far = shift_array2(&g, 0, -7);
    assert_eq!(far.data, minus.data);
}

#[test]
fn shift_columns_like_numpy_roll() {
    // 2 x 3 array [[0,1,2],[3,4,5]]; out[i][j] = in[i][(j + shift) mod 3]
    let g = grid(2, 3);
    let plus = shift_array2(&g, 1, 1);
    assert_eq!(plus.data, vec![1, 2, 0, 4, 5, 3]);
    let minus = shift_array2(&g, 1, -1);
    assert_eq!(minus.data, vec![2, 0, 1, 5, 3, 4]);
}

#[test]
fn shift_by_zero_and_back_is_identity() {
    let g = grid(4, 5);
    for axis in 0..2 {
        assert_eq!(shift_array2(&g, axis, 0).data, g.data);
        for s in -9isize..9 {
            let there = shift_array2(&g, axis, s);
            let back = shift_array2(&there, axis, -s);
            assert_eq!(back.data, g.data);
            let twice = shift_array2(&there, axis, 3);
            assert_eq!(twice.data, shift_array2(&g, axis, s + 3).data);
        }
    }
}

#[test]
fn shift_empty_grids() {
    let g: Grid2<i32> = Grid2 { nx: 0, ny: 3, data: vec![] };
    assert!(shift_array2(&g, 0, 2).data.is_empty());
    assert!(shift_array2(&g, 1, 2).data.is_empty());
}
