use std::sync::Arc;
use zellij_remote::delta::DeltaEngine;
use zellij_remote::frame::{Cell, FrameStore};
use zellij_remote::style_table::StyleTable;

const DIMENSIONS: [(usize, usize); 8] =
    [(1, 1), (1, 2), (2, 1), (7, 3), (80, 24), (200, 2), (3, 200), (132, 43)];

#[test]
fn prop_dirty_rows_within_bounds() {
    for (cols, rows) in DIMENSIONS {
        let mut store = FrameStore::new(cols, rows);

        for i in 0..std::cmp::min(rows, 10) {
            store.update_row(i, |row| {
                if cols > 0 {
                    row.set_cell(0, Cell { codepoint: 'A' as u32, width: 1, style_id: 0 });
                }
            });
        }

        let dirty = store.take_dirty_rows();
        for &row_idx in &dirty {
            assert!(row_idx < rows, "Dirty row {} exceeds row count {}", row_idx, rows);
        }
        assert_eq!(dirty.len(), std::cmp::min(rows, 10));
    }
}

#[test]
fn prop_resize_marks_all_dirty() {
    for (initial_cols, initial_rows) in DIMENSIONS {
        for (new_cols, new_rows) in DIMENSIONS {
            let mut store = FrameStore::new(initial_cols, initial_rows);
            store.take_dirty_rows();

            store.resize(new_cols, new_rows);
            let dirty = store.take_dirty_rows();

            assert_eq!(dirty.len(), new_rows, "After resize, all {} rows should be dirty", new_rows);
            let frame = store.current_frame();
            assert_eq!(frame.cols, new_cols);
            assert_eq!(frame.rows.len(), new_rows);
            assert!(frame.rows.iter().all(|r| r.cols() == new_cols));
        }
    }
}

#[test]
fn prop_snapshot_row_count_matches() {
    for (cols, rows) in DIMENSIONS {
        let store = FrameStore::new(cols, rows);
        let snapshot = store.snapshot();

        assert_eq!(snapshot.data.rows.len(), rows);
        assert_eq!(snapshot.data.cols, cols);
    }
}

#[test]
fn prop_unchanged_rows_share_arc() {
    for (cols, rows) in DIMENSIONS {
        if rows < 2 {
            continue;
        }
        let mut store = FrameStore::new(cols, rows);
        let baseline = store.snapshot();

        store.update_row(0, |row| {
            if cols > 0 {
                row.set_cell(0, Cell { codepoint: 'X' as u32, width: 1, style_id: 0 });
            }
        });
        store.advance_state();

        let current = store.snapshot();

        if cols > 0 {
            assert!(!Arc::ptr_eq(&baseline.data.rows[0].0, &current.data.rows[0].0));
        }

        for i in 1..rows {
            assert!(Arc::ptr_eq(&baseline.data.rows[i].0, &current.data.rows[i].0), "Row {} should share Arc", i);
        }
    }
}

#[test]
fn prop_delta_only_patches_changed_rows() {
    for (cols, rows) in DIMENSIONS {
        if rows < 2 {
            continue;
        }
        let mut store = FrameStore::new(cols, rows);
        let baseline = store.snapshot();

        store.update_row(0, |row| {
            row.set_cell(0, Cell { codepoint: 'M' as u32, width: 1, style_id: 0 });
        });
        store.advance_state();

        let current = store.snapshot();
        let mut style_table = StyleTable::new();

        let delta = DeltaEngine::compute_delta(
            &baseline.data,
            &current.data,
            &mut style_table,
            baseline.state_id,
            current.state_id,
            None,
        );

        assert_eq!(delta.row_patches.len(), 1);
        assert_eq!(delta.row_patches[0].row, 0);
    }
}

#[test]
fn prop_delta_array_lengths_consistent() {
    for (cols, rows) in DIMENSIONS {
        let mut store = FrameStore::new(cols, rows);
        store.update_row(0, |row| {
            row.set_cell(0, Cell { codepoint: 'A' as u32, width: 1, style_id: 0 });
        });
        store.advance_state();

        let baseline = FrameStore::new(cols, rows).snapshot();
        let current = store.snapshot();
        let mut style_table = StyleTable::new();

        let delta = DeltaEngine::compute_delta(
            &baseline.data,
            &current.data,
            &mut style_table,
            baseline.state_id,
            current.state_id,
            None,
        );

        for patch in &delta.row_patches {
            for run in &patch.runs {
                assert_eq!(run.codepoints.len(), run.widths.len(), "codepoints and widths length mismatch");
                assert_eq!(run.codepoints.len(), run.style_ids.len(), "codepoints and style_ids length mismatch");
            }
        }
    }
}

#[test]
fn test_equal_rows_in_other_allocations_give_no_patch() {
    // two stores built alike share no row, yet their delta is empty
    let a = FrameStore::new(5, 3).snapshot();
    let b = FrameStore::new(5, 3).snapshot();
    assert!(!Arc::ptr_eq(&a.data.rows[0].0, &b.data.rows[0].0));
    let mut style_table = StyleTable::new();
    let delta = DeltaEngine::compute_delta(&a.data, &b.data, &mut style_table, 0, 1, None);
    assert!(delta.row_patches.is_empty());
    assert!(delta.cursor.is_none());
}

#[test]
fn test_rows_of_other_widths() {
    // a current row wider than the baseline's sends the cells beyond it
    let mut wide = FrameStore::new(3, 1);
    wide.resize(5, 1);
    let narrow = FrameStore::new(3, 1);
    let mut style_table = StyleTable::new();
    let delta = DeltaEngine::compute_delta(
        &narrow.snapshot().data,
        &wide.snapshot().data,
        &mut style_table,
        0,
        1,
        None,
    );
    assert_eq!(delta.row_patches.len(), 1);
    assert_eq!(delta.row_patches[0].runs.len(), 1);
    assert_eq!(delta.row_patches[0].runs[0].col_start, 3);
    assert_eq!(delta.row_patches[0].runs[0].codepoints, vec![32, 32]);
}

#[test]
fn test_set_row_and_set_cell_on_the_store() {
    let mut store = FrameStore::new(3, 2);
    store.set_cell(1, 2, Cell { codepoint: 66, width: 1, style_id: 9 });
    store.set_cell(5, 0, Cell { codepoint: 66, width: 1, style_id: 9 });
    store.set_cell(0, 7, Cell { codepoint: 66, width: 1, style_id: 9 });
    assert_eq!(store.current_frame().rows[1].0.cells[2].style_id, 9);
    let dirty = store.take_dirty_rows();
    assert!(dirty.contains(&1) && dirty.contains(&0) && dirty.len() == 2);
    store.set_row(0, zellij_remote::frame::RowData::new(3));
    store.set_row(9, zellij_remote::frame::RowData::new(3));
    let dirty = store.take_dirty_rows();
    assert!(dirty.contains(&0) && dirty.len() == 1);
}
