use grid_cropper::grid::{BoundingBox, CellCheck, CellIndex, CellOutcome, GridSpec, SkipReason, SpecError};
use grid_cropper::raster::{Raster, Rgba};

fn admitted(plan: &[CellOutcome]) -> Vec<(u64, BoundingBox)> {
    plan.iter()
        .filter_map(|o| match o.check {
            CellCheck::Admitted(b) => Some((o.ordinal, b)),
            CellCheck::Skipped(_) => None,
        })
        .collect()
}

/// An image whose pixel at (x, y) records its own position.
fn synthetic(width: u32, height: u32) -> Raster {
    let mut pixels = Vec::new();
    for y in 0..height {
        for x in 0..width {
            pixels.push(Rgba { r: x as u8, g: y as u8, b: (x + y) as u8, a: 255 });
        }
    }
    Raster::new(width, height, pixels).unwrap()
}

#[test]
fn new_rejects_zero_cell_size() {
    assert_eq!(GridSpec::new(0, 0, 0, 9, 5).unwrap_err(), SpecError::ZeroCellSize);
}

#[test]
fn new_rejects_zero_columns_and_rows() {
    assert_eq!(GridSpec::new(0, 0, 4, 0, 5).unwrap_err(), SpecError::ZeroColumns);
    assert_eq!(GridSpec::new(0, 0, 4, 9, 0).unwrap_err(), SpecError::ZeroRows);
}

#[test]
fn new_keeps_its_fields() {
    let g = GridSpec::new(3, 7, 16, 9, 5).unwrap();
    assert_eq!((g.origin_x(), g.origin_y(), g.cell_size(), g.columns(), g.rows()), (3, 7, 16, 9, 5));
}

#[test]
fn check_cell_gives_offset_box() {
    let g = GridSpec::new(5, 6, 10, 9, 5).unwrap();
    let r = g.check_cell(CellIndex { column: 2, row: 1 }, 100, 100);
    assert_eq!(r, CellCheck::Admitted(BoundingBox { x: 25, y: 16, width: 10, height: 10 }));
}

#[test]
fn check_cell_reports_which_edge() {
    let g = GridSpec::new(0, 0, 10, 9, 5).unwrap();
    assert_eq!(g.check_cell(CellIndex { column: 8, row: 0 }, 90, 100), CellCheck::Skipped(SkipReason::PastRightEdge));
    assert_eq!(g.check_cell(CellIndex { column: 0, row: 4 }, 100, 50), CellCheck::Skipped(SkipReason::PastBottomEdge));
    assert_eq!(g.check_cell(CellIndex { column: 8, row: 4 }, 91, 51), CellCheck::Admitted(BoundingBox { x: 80, y: 40, width: 10, height: 10 }));
}

#[test]
fn check_cell_far_index_does_not_overflow() {
    let g = GridSpec::new(u32::MAX, u32::MAX, u32::MAX, 9, 5).unwrap();
    assert_eq!(g.check_cell(CellIndex { column: u32::MAX, row: u32::MAX }, u32::MAX, u32::MAX), CellCheck::Skipped(SkipReason::PastRightEdge));
}

#[test]
fn large_image_admits_every_cell_once() {
    let g = GridSpec::new(4, 2, 8, 9, 5).unwrap();
    let plan = g.plan_cells(4 + 9 * 8 + 1, 2 + 5 * 8 + 1);
    assert_eq!(plan.len(), 45);
    let ords: Vec<u64> = admitted(&plan).iter().map(|(o, _)| *o).collect();
    assert_eq!(ords, (0..45).collect::<Vec<u64>>());
    for o in &plan {
        assert_eq!(o.ordinal, (o.index.row * 9 + o.index.column) as u64);
    }
}

#[test]
fn plan_is_row_major() {
    let g = GridSpec::new(0, 0, 1, 3, 2).unwrap();
    let plan = g.plan_cells(100, 100);
    let idx: Vec<(u32, u32)> = plan.iter().map(|o| (o.index.column, o.index.row)).collect();
    assert_eq!(idx, vec![(0, 0), (1, 0), (2, 0), (0, 1), (1, 1), (2, 1)]);
}

#[test]
fn edge_on_width_skips_first_column() {
    let g = GridSpec::new(7, 0, 10, 9, 5).unwrap();
    let plan = g.plan_cells(17, 1000);
    for o in plan.iter().filter(|o| o.index.column == 0) {
        assert_eq!(o.check, CellCheck::Skipped(SkipReason::PastRightEdge));
    }
    assert!(admitted(&plan).is_empty());
    let wider = g.plan_cells(18, 1000);
    assert_eq!(wider.iter().filter(|o| o.index.column == 0 && matches!(o.check, CellCheck::Admitted(_))).count(), 5);
}

#[test]
fn exact_fit_skips_last_column_and_row() {
    let g = GridSpec::new(0, 0, 10, 9, 5).unwrap();
    let plan = g.plan_cells(90, 50);
    assert_eq!(plan.len(), 45);
    assert_eq!(admitted(&plan).len(), 32);
    let image = synthetic(90, 50);
    for o in &plan {
        let on_edge = o.index.column == 8 || o.index.row == 4;
        assert_eq!(g.extract_cell(&image, o.index).is_none(), on_edge);
    }
}

#[test]
fn smaller_cells_admit_all_at_offsets() {
    let g = GridSpec::new(0, 0, 9, 9, 5).unwrap();
    let image = synthetic(90, 50);
    let plan = g.plan_cells(90, 50);
    let cells = admitted(&plan);
    assert_eq!(cells.len(), 45);
    for o in &plan {
        let (c, r) = (o.index.column, o.index.row);
        assert_eq!(o.check, CellCheck::Admitted(BoundingBox { x: c * 9, y: r * 9, width: 9, height: 9 }));
        let cell = g.extract_cell(&image, o.index).unwrap();
        assert_eq!((cell.width(), cell.height()), (9, 9));
        for j in 0..9 {
            for i in 0..9 {
                assert_eq!(cell.pixel(i, j), image.pixel(c * 9 + i, r * 9 + j));
            }
        }
    }
}

#[test]
fn running_twice_gives_identical_cells() {
    let g = GridSpec::new(1, 2, 7, 9, 5).unwrap();
    let image = synthetic(70, 40);
    let first = g.plan_cells(70, 40);
    let second = g.plan_cells(70, 40);
    assert_eq!(first, second);
    for o in &first {
        let a = g.extract_cell(&image, o.index).map(|c| c.pixels().clone());
        let b = g.extract_cell(&image, o.index).map(|c| c.pixels().clone());
        assert_eq!(a, b);
    }
}

#[test]
fn raster_rejects_wrong_pixel_count() {
    assert!(Raster::new(2, 2, vec![Rgba { r: 0, g: 0, b: 0, a: 0 }; 3]).is_err());
    assert!(Raster::new(0, 5, Vec::new()).is_ok());
}

#[test]
fn extract_copies_rectangle() {
    let image = synthetic(5, 4);
    let part = image.extract(BoundingBox { x: 1, y: 2, width: 3, height: 2 });
    assert_eq!((part.width(), part.height()), (3, 2));
    assert_eq!(part.pixels().len(), 6);
    assert_eq!(part.pixel(0, 0), Rgba { r: 1, g: 2, b: 3, a: 255 });
    assert_eq!(part.pixel(2, 1), Rgba { r: 3, g: 3, b: 6, a: 255 });
    assert_eq!(image.pixel(4, 3), Rgba { r: 4, g: 3, b: 7, a: 255 });
}
