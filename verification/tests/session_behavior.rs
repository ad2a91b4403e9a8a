//! Behavior of the visualizer session: construction, ticks, snapshots and
//! the running flag.

use sorting_visualizer::session::App;
use sorting_visualizer::session::Snapshot;
use sorting_visualizer::sorter::Algorithm;

const INITIAL: [u64; 9] = [8, 3, 7, 1, 6, 2, 5, 9, 4];

#[test]
fn new_session_starts_running_with_shared_dataset() {
    let app = App::new();
    assert!(app.running);
    for sorter in [&app.insertion, &app.bubble, &app.selection] {
        assert_eq!(sorter.step, 0);
        assert_eq!(sorter.data.as_slice(), &INITIAL);
    }
    assert_eq!(app.insertion.algorithm, Algorithm::Insertion);
    assert_eq!(app.bubble.algorithm, Algorithm::Bubble);
    assert_eq!(app.selection.algorithm, Algorithm::Selection);
}

#[test]
fn default_session_matches_new() {
    let a = App::new();
    let b = App::default();
    assert_eq!(a.running, b.running);
    assert_eq!(a.insertion.data, b.insertion.data);
    assert_eq!(a.bubble.data, b.bubble.data);
    assert_eq!(a.selection.data, b.selection.data);
}

#[test]
fn one_tick_advances_every_sorter_once() {
    let mut app = App::new();
    app.tick();
    assert_eq!(app.insertion.step, 1);
    assert_eq!(app.bubble.step, 1);
    assert_eq!(app.selection.step, 1);
    assert_eq!(app.insertion.data, vec![3, 7, 1, 6, 2, 5, 8, 4, 9]);
    assert_eq!(app.bubble.data.as_slice(), &INITIAL);
    assert_eq!(app.selection.data.as_slice(), &INITIAL);
}

#[test]
fn nine_ticks_sort_every_variant() {
    let mut app = App::new();
    for _ in 0..9 {
        app.tick();
    }
    let sorted: Vec<u64> = vec![1, 2, 3, 4, 5, 6, 7, 8, 9];
    assert_eq!(app.insertion.data, sorted);
    assert_eq!(app.bubble.data, sorted);
    assert_eq!(app.selection.data, sorted);
    assert_eq!(app.insertion.step, 9);
    assert_eq!(app.bubble.step, 9);
    assert_eq!(app.selection.step, 9);
    app.tick();
    assert_eq!(app.insertion.data, sorted);
    assert_eq!(app.bubble.data, sorted);
    assert_eq!(app.selection.data, sorted);
    assert_eq!(app.insertion.step, 9);
}

#[test]
fn identically_driven_sessions_produce_identical_snapshots() {
    let mut a = App::new();
    let mut b = App::new();
    for _ in 0..12 {
        a.tick();
        b.tick();
        let sa = a.snapshot_all();
        let sb = b.snapshot_all();
        assert_eq!(sa.len(), sb.len());
        for (x, y) in sa.iter().zip(sb.iter()) {
            assert_eq!(x.algorithm, y.algorithm);
            assert_eq!(x.data, y.data);
            assert_eq!(x.step, y.step);
        }
    }
}

#[test]
fn stop_clears_the_running_flag_permanently() {
    let mut app = App::new();
    assert!(app.is_running());
    app.stop();
    assert!(!app.is_running());
    app.tick();
    app.sort_insertion();
    app.sort_bubble();
    app.sort_selection();
    assert!(!app.is_running());
    app.stop();
    assert!(!app.is_running());
}

#[test]
fn individual_sort_calls_touch_only_their_sorter() {
    let mut app = App::new();
    app.sort_insertion();
    assert_eq!(app.insertion.step, 1);
    assert_eq!(app.bubble.step, 0);
    assert_eq!(app.selection.step, 0);
    app.sort_bubble();
    assert_eq!(app.bubble.step, 1);
    assert_eq!(app.selection.step, 0);
    app.sort_selection();
    assert_eq!(app.selection.step, 1);
}

#[test]
fn snapshot_reads_the_chosen_sorter() {
    let mut app = App::new();
    app.tick();
    app.tick();
    let snap: Snapshot = app.snapshot(Algorithm::Selection);
    assert_eq!(snap.algorithm, Algorithm::Selection);
    assert_eq!(snap.step, 2);
    assert_eq!(snap.data, app.selection.data);
    assert_eq!(snap.data, vec![1, 3, 7, 8, 6, 2, 5, 9, 4]);
}

#[test]
fn snapshot_is_an_independent_copy() {
    let mut app = App::new();
    let snap = app.snapshot(Algorithm::Insertion);
    app.tick();
    assert_eq!(snap.data.as_slice(), &INITIAL);
    assert_ne!(snap.data, app.insertion.data);
}

#[test]
fn snapshot_all_keeps_the_display_order() {
    let app = App::new();
    let snaps = app.snapshot_all();
    assert_eq!(snaps.len(), 3);
    assert_eq!(snaps[0].algorithm, Algorithm::Insertion);
    assert_eq!(snaps[1].algorithm, Algorithm::Bubble);
    assert_eq!(snaps[2].algorithm, Algorithm::Selection);
    for snap in &snaps {
        assert_eq!(snap.step, 0);
        assert_eq!(snap.data.as_slice(), &INITIAL);
    }
}

#[test]
fn labels_match_the_chart_titles() {
    assert_eq!(Algorithm::Insertion.label(), "Insertion");
    assert_eq!(Algorithm::Bubble.label(), "Bubble");
    assert_eq!(Algorithm::Selection.label(), "Selection");
    let title = format!("{} sort (Steps: {})", Algorithm::Bubble.label(), 3);
    assert_eq!(title, "Bubble sort (Steps: 3)");
}
