use rat_widget_core::selected::{NoSelection, Selection, SetSelection, SingleSelection};
use rat_widget_core::table::TableSelection;

#[test]
fn no_selection_selects_nothing() {
    let s = NoSelection;
    assert!(!s.is_selected(0));
    assert!(!s.is_selected(17));
    assert_eq!(s.lead_selection(), None);
}

#[test]
fn table_no_selection_selects_nothing() {
    let a = rat_widget_core::noselection::NoSelection;
    assert!(!a.is_selected_row(3));
    assert!(!a.is_selected_column(3));
    assert!(!a.is_selected_cell(1, 2));
    assert_eq!(a.lead_selection(), None);
    let b = rat_widget_core::ftable_noselection::NoSelection;
    assert!(!b.is_selected_row(0));
    assert!(!b.is_selected_column(0));
    assert!(!b.is_selected_cell(0, 0));
    assert_eq!(b.lead_selection(), None);
}

#[test]
fn single_selection_steps() {
    let mut s = SingleSelection::new();
    assert_eq!(s.selected(), None);
    assert_eq!(s.lead_selection(), None);
    s.next(1, 10);
    assert_eq!(s.selected(), Some(0));
    s.next(4, 10);
    assert_eq!(s.selected(), Some(4));
    s.next(20, 10);
    assert_eq!(s.selected(), Some(10));
    assert!(s.is_selected(10));
    assert!(!s.is_selected(9));
    s.prev(3);
    assert_eq!(s.selected(), Some(7));
    s.prev(30);
    assert_eq!(s.selected(), Some(0));
    s.select(None);
    s.prev(1);
    assert_eq!(s.selected(), Some(0));
}

#[test]
fn single_selection_next_saturates() {
    let mut s = SingleSelection::new();
    s.select(Some(usize::MAX - 1));
    s.next(5, usize::MAX);
    assert_eq!(s.selected(), Some(usize::MAX));
}

#[test]
fn single_selection_clamped() {
    let mut s = SingleSelection::new();
    s.select_clamped(5, 10);
    assert_eq!(s.selected(), Some(5));
    s.select_clamped(11, 10);
    assert_eq!(s.selected(), Some(5));
    s.select_clamped(10, 10);
    assert_eq!(s.selected(), Some(10));
}

#[test]
fn set_selection_span_both_ways() {
    let mut s = SetSelection::new();
    s.set_lead(Some(5), false);
    assert_eq!(s.lead(), Some(5));
    assert_eq!(s.anchor(), None);
    assert!(s.is_selected(5));
    assert!(!s.is_selected(4));
    s.next(3, 100, true);
    assert_eq!(s.anchor(), Some(5));
    assert_eq!(s.lead(), Some(8));
    for n in 5..=8 {
        assert!(s.is_selected(n));
    }
    assert!(!s.is_selected(9));
    s.prev(6, true);
    assert_eq!(s.anchor(), Some(5));
    assert_eq!(s.lead(), Some(2));
    for n in 2..=5 {
        assert!(s.is_selected(n));
    }
    assert!(!s.is_selected(6));
    assert!(!s.is_selected(1));
    assert_eq!(s.lead_selection(), Some(2));
}

#[test]
fn set_selection_without_extend_forgets() {
    let mut s = SetSelection::new();
    s.add(40);
    s.set_lead(Some(1), true);
    s.next(1, 10, true);
    assert!(s.is_selected(40));
    s.next(1, 10, false);
    assert_eq!(s.anchor(), None);
    assert_eq!(s.lead(), Some(3));
    assert!(!s.is_selected(40));
    assert!(!s.is_selected(1));
    assert!(s.is_selected(3));
}

#[test]
fn set_selection_transfer_keeps_selection() {
    let mut s = SetSelection::new();
    s.set_lead(Some(7), false);
    s.set_lead(Some(3), true);
    s.add(20);
    let before: Vec<bool> = (0..30).map(|n| s.is_selected(n)).collect();
    s.transfer_lead_anchor();
    assert_eq!(s.anchor(), None);
    assert_eq!(s.lead(), None);
    let after: Vec<bool> = (0..30).map(|n| s.is_selected(n)).collect();
    assert_eq!(before, after);
    assert!(s.is_selected(3) && s.is_selected(7) && s.is_selected(20));
    assert!(!s.is_selected(8));
}

#[test]
fn set_selection_transfer_lead_only() {
    let mut s = SetSelection::new();
    s.set_lead(Some(4), false);
    s.transfer_lead_anchor();
    assert!(s.is_selected(4));
    assert!(!s.is_selected(5));
    assert_eq!(s.selected.len(), 1);
}

#[test]
fn set_selection_clamped_and_clear() {
    let mut s = SetSelection::new();
    s.set_lead_clamped(12, 10, false);
    assert_eq!(s.lead(), None);
    s.set_lead_clamped(10, 10, false);
    assert_eq!(s.lead(), Some(10));
    s.add(1);
    s.add(2);
    s.remove(1);
    assert!(!s.is_selected(1));
    assert!(s.is_selected(2));
    s.clear();
    assert_eq!(s.anchor(), None);
    assert_eq!(s.lead(), None);
    for n in 0..20 {
        assert!(!s.is_selected(n));
    }
}

#[test]
fn set_selection_clone_keeps_everything() {
    let mut s = SetSelection::new();
    s.add(9);
    s.add(11);
    s.set_lead(Some(2), false);
    s.set_lead(Some(4), true);
    let c = s.clone();
    assert_eq!(c, s);
    assert_eq!(c.anchor(), Some(2));
    assert_eq!(c.lead(), Some(4));
}
