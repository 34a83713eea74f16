use flexgrid::{grid, LayoutErrorKind, Rect, Ratio};

#[test]
fn scenario_c_three_by_two_square_cells() {
    let cells = grid(Rect::new(0, 0, 300, 200), 3, 2, Ratio { num: 1, den: 1 }, Ratio { num: 1, den: 10 }).unwrap();
    assert_eq!(
        cells,
        vec![
            Rect::new(9, 6, 88, 88),
            Rect::new(106, 6, 88, 88),
            Rect::new(204, 6, 88, 88),
            Rect::new(9, 104, 88, 88),
            Rect::new(106, 104, 88, 88),
            Rect::new(204, 104, 88, 88),
        ]
    );
    for (i, a) in cells.iter().enumerate() {
        assert_eq!((a.width, a.height), (cells[0].width, cells[0].height));
        assert!(a.x >= 0 && a.y >= 0 && a.x + a.width <= 300 && a.y + a.height <= 200);
        for b in cells.iter().skip(i + 1) {
            let apart = a.x + a.width <= b.x || b.x + b.width <= a.x || a.y + a.height <= b.y || b.y + b.height <= a.y;
            assert!(apart);
        }
    }
}

#[test]
fn wide_frame_fits_height_and_centres_horizontally() {
    let cells = grid(Rect::new(0, 0, 300, 100), 3, 2, Ratio { num: 1, den: 1 }, Ratio { num: 0, den: 1 }).unwrap();
    assert_eq!(
        cells,
        vec![
            Rect::new(76, 1, 48, 48),
            Rect::new(125, 1, 48, 48),
            Rect::new(175, 1, 48, 48),
            Rect::new(76, 50, 48, 48),
            Rect::new(125, 50, 48, 48),
            Rect::new(175, 50, 48, 48),
        ]
    );
}

#[test]
fn single_cell_respects_offset_frame() {
    let cells = grid(Rect::new(10, 20, 100, 100), 1, 1, Ratio { num: 1, den: 1 }, Ratio { num: 0, den: 1 }).unwrap();
    assert_eq!(cells.len(), 1);
    assert_eq!(cells[0], Rect::new(11, 21, 98, 98));
}

#[test]
fn grid_without_cells_is_degenerate() {
    let e = grid(Rect::new(0, 0, 100, 100), 0, 2, Ratio { num: 1, den: 1 }, Ratio { num: 1, den: 10 }).unwrap_err();
    assert_eq!(e.kind(), LayoutErrorKind::DegenerateGrid);
}

#[test]
fn zero_aspect_is_degenerate() {
    let e = grid(Rect::new(0, 0, 100, 100), 2, 2, Ratio { num: 0, den: 1 }, Ratio { num: 1, den: 10 }).unwrap_err();
    assert_eq!(e.kind(), LayoutErrorKind::DegenerateGrid);
    let e = grid(Rect::new(0, 0, 100, 100), 2, 2, Ratio { num: 1, den: 0 }, Ratio { num: 1, den: 10 }).unwrap_err();
    assert_eq!(e.kind(), LayoutErrorKind::DegenerateGrid);
}

#[test]
fn tiny_frame_still_gives_every_cell() {
    let cells = grid(Rect::new(0, 0, 2, 2), 3, 1, Ratio { num: 1, den: 1 }, Ratio { num: 0, den: 1 }).unwrap();
    assert_eq!(cells.len(), 3);
    assert!(cells.iter().all(|c| c.width == -1 && c.height == -1));
}

#[test]
fn spacing_wider_than_frame_gives_negative_cells() {
    let cells = grid(Rect::new(0, 0, 100, 100), 2, 2, Ratio { num: 1, den: 1 }, Ratio { num: 1000, den: 1 }).unwrap();
    assert_eq!(cells.len(), 4);
    assert!(cells[0].width < 0);
}

#[test]
fn grid_frame_out_of_range_is_refused() {
    let e = grid(Rect::new(0, 0, 10, -1), 1, 1, Ratio { num: 1, den: 1 }, Ratio { num: 0, den: 1 }).unwrap_err();
    assert_eq!(e.kind(), LayoutErrorKind::OutOfRange);
}
