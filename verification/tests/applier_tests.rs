use zellij_remote::applier::{apply_delta, apply_snapshot, decode_cursor};
use zellij_remote::delta::DeltaEngine;
use zellij_remote::frame::{Cell, Cursor, CursorShape, FrameData, FrameStore};
use zellij_remote::protocol::{CellRun, CursorState, RowData, RowPatch, ScreenDelta};
use zellij_remote::style_table::StyleTable;

fn cell(ch: char) -> Cell {
    Cell { codepoint: ch as u32, width: 1, style_id: 0 }
}

fn same_screen(a: &FrameData, b: &FrameData) -> bool {
    a.cols == b.cols
        && a.cursor == b.cursor
        && a.rows.len() == b.rows.len()
        && a.rows.iter().zip(b.rows.iter()).all(|(x, y)| x.0.cells == y.0.cells)
}

#[test]
fn test_snapshot_then_deltas_rebuild_every_frame() {
    let mut table = StyleTable::new();
    let mut store = FrameStore::new(20, 5);
    store.advance_state();

    let mut client = FrameData::new(0, 0);
    let first = store.snapshot();
    let snapshot = DeltaEngine::compute_snapshot(&first.data, &mut table, first.state_id);
    apply_snapshot(&mut client, &snapshot);
    assert!(same_screen(&client, &first.data));

    let mut previous = first;
    for step in 0..12usize {
        let row = (step * 3) % 5;
        let col = (step * 7) % 20;
        store.update_row(row, |r| {
            r.set_cell(col, Cell { codepoint: 'a' as u32 + step as u32, width: 1, style_id: step as u16 });
            r.set_cell((col + 5) % 20, cell('#'));
        });
        store.set_cursor(Cursor {
            row: row as u32,
            col: col as u32,
            visible: step % 2 == 0,
            blink: false,
            shape: if step % 3 == 0 { CursorShape::Bar } else { CursorShape::Underline },
        });
        store.advance_state();
        let current = store.snapshot();
        let delta = DeltaEngine::compute_delta(
            &previous.data,
            &current.data,
            &mut table,
            previous.state_id,
            current.state_id,
            None,
        );
        apply_delta(&mut client, &delta);
        assert!(same_screen(&client, &current.data), "after step {}", step);
        previous = current;
    }
}

#[test]
fn test_delta_with_dirty_rows_rebuilds_frame() {
    let mut table = StyleTable::new();
    let mut store = FrameStore::new(10, 4);
    let baseline = store.snapshot();
    let _ = store.take_dirty_rows();
    store.update_row(2, |r| r.set_cell(3, cell('x')));
    store.update_row(0, |r| r.set_cell(9, cell('y')));
    let dirty = store.take_dirty_rows();
    let current = store.snapshot();
    let delta = DeltaEngine::compute_delta(&baseline.data, &current.data, &mut table, 0, 1, Some(&dirty));

    let mut client = baseline.data.clone();
    apply_delta(&mut client, &delta);
    assert!(same_screen(&client, &current.data));
}

#[test]
fn test_run_writes_only_its_cells() {
    let mut frame = FrameData::new(6, 2);
    let delta = ScreenDelta {
        base_state_id: 0,
        state_id: 1,
        styles_added: vec![],
        row_patches: vec![RowPatch {
            row: 1,
            runs: vec![CellRun {
                col_start: 2,
                codepoints: vec![65, 66],
                widths: vec![1, 2],
                style_ids: vec![7, 8],
            }],
        }],
        cursor: None,
        delivered_input_watermark: 0,
    };
    apply_delta(&mut frame, &delta);
    let row = &frame.rows[1].0.cells;
    assert_eq!(row[1], Cell::default());
    assert_eq!(row[2], Cell { codepoint: 65, width: 1, style_id: 7 });
    assert_eq!(row[3], Cell { codepoint: 66, width: 2, style_id: 8 });
    assert_eq!(row[4], Cell::default());
    assert_eq!(frame.rows[0].0.cells, vec![Cell::default(); 6]);
    assert_eq!(frame.cursor, Cursor::default());
}

#[test]
fn test_patches_outside_the_screen_are_dropped() {
    let mut frame = FrameData::new(3, 1);
    let delta = ScreenDelta {
        base_state_id: 0,
        state_id: 1,
        styles_added: vec![],
        row_patches: vec![
            RowPatch {
                row: 5,
                runs: vec![CellRun { col_start: 0, codepoints: vec![65], widths: vec![1], style_ids: vec![0] }],
            },
            RowPatch {
                row: 0,
                runs: vec![CellRun {
                    col_start: 2,
                    codepoints: vec![66, 67, 68],
                    widths: vec![],
                    style_ids: vec![],
                }],
            },
        ],
        cursor: Some(CursorState { row: 9, col: 8, visible: false, blink: true, shape: 2 }),
        delivered_input_watermark: 0,
    };
    apply_delta(&mut frame, &delta);
    assert_eq!(frame.rows.len(), 1);
    assert_eq!(
        frame.rows[0].0.cells,
        vec![Cell::default(), Cell::default(), Cell { codepoint: 66, width: 1, style_id: 0 }]
    );
    assert_eq!(
        frame.cursor,
        Cursor { row: 9, col: 8, visible: false, blink: true, shape: CursorShape::Bar }
    );
}

#[test]
fn test_cursor_shapes_on_the_wire() {
    let shape = |code: i32| {
        decode_cursor(&CursorState { row: 0, col: 0, visible: true, blink: true, shape: code }).shape
    };
    assert_eq!(shape(1), CursorShape::Block);
    assert_eq!(shape(2), CursorShape::Bar);
    assert_eq!(shape(3), CursorShape::Underline);
    assert_eq!(shape(0), CursorShape::Block);
    assert_eq!(shape(99), CursorShape::Block);
    for s in [CursorShape::Block, CursorShape::Bar, CursorShape::Underline] {
        let cursor = Cursor { row: 3, col: 4, visible: false, blink: true, shape: s };
        assert_eq!(decode_cursor(&DeltaEngine::encode_cursor(&cursor)), cursor);
    }
}

#[test]
fn test_snapshot_without_size_writes_onto_the_screen() {
    let mut frame = FrameData::new(4, 2);
    let snapshot = zellij_remote::protocol::ScreenSnapshot {
        state_id: 1,
        size: None,
        style_table_reset: true,
        styles: vec![],
        rows: vec![RowData { row: 1, codepoints: vec![88], widths: vec![1], style_ids: vec![3] }],
        cursor: None,
        delivered_input_watermark: 0,
    };
    apply_snapshot(&mut frame, &snapshot);
    assert_eq!(frame.cols, 4);
    assert_eq!(frame.rows.len(), 2);
    assert_eq!(frame.rows[1].0.cells[0], Cell { codepoint: 88, width: 1, style_id: 3 });
    assert_eq!(frame.rows[1].0.cells[1], Cell::default());
}
