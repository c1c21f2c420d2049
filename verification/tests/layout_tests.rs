use lizi_engine2d::interaction::{spawnment_layout, ArrangeMode, DragState};

#[test]
fn layout_of_nothing_is_empty() {
    for mode in ArrangeMode::all() {
        let l = spawnment_layout(mode, 0);
        assert!(l.cells.is_empty());
        assert_eq!((l.cols, l.rows), (0, 0));
    }
}

#[test]
fn stack_row_and_column_layouts() {
    let s = spawnment_layout(ArrangeMode::Stack, 3);
    assert_eq!((s.cols, s.rows), (1, 1));
    assert_eq!(s.cells, vec![(0, 0); 3]);
    let h = spawnment_layout(ArrangeMode::Horizontal, 3);
    assert_eq!((h.cols, h.rows), (3, 1));
    assert_eq!(h.cells, vec![(0, 0), (1, 0), (2, 0)]);
    let v = spawnment_layout(ArrangeMode::Vertical, 2);
    assert_eq!((v.cols, v.rows), (1, 2));
    assert_eq!(v.cells, vec![(0, 0), (0, 1)]);
}

#[test]
fn grid_layout_fills_rows() {
    let g = spawnment_layout(ArrangeMode::Grid, 5);
    assert_eq!((g.cols, g.rows), (3, 2));
    assert_eq!(g.cells, vec![(0, 0), (1, 0), (2, 0), (0, 1), (1, 1)]);
    let g = spawnment_layout(ArrangeMode::Grid, 4);
    assert_eq!((g.cols, g.rows), (2, 2));
    let g = spawnment_layout(ArrangeMode::Grid, 1);
    assert_eq!((g.cols, g.rows), (1, 1));
    assert_eq!(g.cells, vec![(0, 0)]);
    let g = spawnment_layout(ArrangeMode::Grid, 7);
    assert_eq!((g.cols, g.rows), (3, 3));
}

#[test]
fn grid_shape_matches_float_formula() {
    for count in 1usize..500 {
        let g = spawnment_layout(ArrangeMode::Grid, count);
        let cols = (count as f64).sqrt().ceil() as usize;
        let rows = (count + cols - 1) / cols;
        assert_eq!((g.cols, g.rows), (cols, rows), "count {}", count);
        assert!(g.rows <= g.cols && g.cols <= g.rows + 1);
        for (i, cell) in g.cells.iter().enumerate() {
            assert_eq!(*cell, (i % cols, i / cols));
        }
    }
}

#[test]
fn drag_press_picks_and_holds() {
    let mut d = DragState::new();
    assert!(!d.dragging);
    assert_eq!(d.dragged_particle_index, None);
    assert_eq!(d.press(None), None);
    assert!(!d.dragging);
    assert_eq!(d.press(Some(4)), Some(4));
    assert!(d.dragging);
    // while dragging, a new candidate does not change the dragged particle
    assert_eq!(d.press(Some(1)), Some(4));
    assert_eq!(d.dragged_particle_index, Some(4));
    d.release();
    assert!(!d.dragging);
    assert_eq!(d.dragged_particle_index, None);
    assert_eq!(d.press(Some(1)), Some(1));
}
