use rift::display::Supersede;
use rift::reorder::DragReorder;

fn ids(v: &[&str]) -> Vec<String> {
    v.iter().map(|s| s.to_string()).collect()
}

#[test]
fn a_drop_commits_the_move_and_holds_the_preview_until_it_lands() {
    let mut d = DragReorder::new();
    d.drag_over(Some(2));
    assert_eq!(d.over, None, "a foreign drag is ignored");
    d.drag_start(0);
    d.drag_over(Some(2));
    d.drag_over(None);
    assert_eq!(d.over, Some(2));
    assert_eq!(d.drop(ids(&["a", "b", "c"])), Some((0, 2)));
    d.drag_end();
    // Same order still: the preview stays.
    assert_eq!(d.observe(&ids(&["a", "b", "c"])), (Some(0), Some(2)));
    // The new order arrived: cleared in the same step.
    assert_eq!(d.observe(&ids(&["b", "c", "a"])), (None, None));
    assert!(d.committed.is_none());
}

#[test]
fn dropping_in_place_or_a_refused_move_clears_the_drag() {
    let mut d = DragReorder::new();
    d.drag_start(1);
    d.drag_over(Some(1));
    assert_eq!(d.drop(ids(&["a", "b"])), None);
    assert_eq!((d.src, d.over), (None, None));

    d.drag_start(0);
    d.drag_over(Some(1));
    assert_eq!(d.drop(ids(&["a", "b"])), Some((0, 1)));
    // No new order ever arrives: the safety net lets go.
    d.settle(&ids(&["a", "b"]));
    assert_eq!((d.src, d.over), (None, None));
    assert!(d.committed.is_none());
}

#[test]
fn a_late_safety_net_spares_a_newer_drag() {
    let mut d = DragReorder::new();
    d.drag_start(0);
    d.drag_over(Some(1));
    d.drop(ids(&["a", "b"]));
    d.drag_start(1);
    d.settle(&ids(&["a", "b"]));
    assert_eq!(d.src, Some(1));
    assert!(d.active);
}

#[test]
fn the_latest_toast_wins() {
    let mut s = Supersede::new();
    let first = s.issue();
    let second = s.issue();
    assert!(!s.is_current(first));
    assert!(s.is_current(second));
}
