//! The table is designed to be shared behind a mutual-exclusion lock
//! between the GUI callbacks and caller-owned writers. These tests drive
//! two independent writers through one shared, locked table and check that
//! writes to disjoint cells are both observable afterwards (no lost
//! update), which the library proves once for all inputs in
//! `laws::lemma_disjoint_writes_no_lost_update`.

use std::sync::{Arc, Mutex};

use fltk_table::opts::TableOpts;
use fltk_table::table::SmartTable;

#[test]
fn disjoint_writers_through_shared_lock() {
    let table = SmartTable::new()
        .with_opts(&TableOpts { rows: 4, cols: 4, ..TableOpts::default() })
        .unwrap();
    let shared = Arc::new(Mutex::new(table));

    let writer_a = {
        let shared = Arc::clone(&shared);
        move || {
            let mut t = shared.lock().unwrap();
            t.set_cell_value(0, 0, "from a").unwrap();
        }
    };
    let writer_b = {
        let shared = Arc::clone(&shared);
        move || {
            let mut t = shared.lock().unwrap();
            t.set_cell_value(3, 3, "from b").unwrap();
        }
    };

    writer_a();
    writer_b();

    let t = shared.lock().unwrap();
    assert_eq!(t.cell_value(0, 0).unwrap(), "from a");
    assert_eq!(t.cell_value(3, 3).unwrap(), "from b");
}

#[test]
fn same_cell_writers_last_one_wins() {
    let table = SmartTable::new()
        .with_opts(&TableOpts { rows: 2, cols: 2, ..TableOpts::default() })
        .unwrap();
    let shared = Arc::new(Mutex::new(table));

    {
        let mut t = shared.lock().unwrap();
        t.set_cell_value(1, 0, "first").unwrap();
    }
    {
        let mut t = shared.lock().unwrap();
        t.set_cell_value(1, 0, "second").unwrap();
    }

    let t = shared.lock().unwrap();
    assert_eq!(t.cell_value(1, 0).unwrap(), "second");
}
