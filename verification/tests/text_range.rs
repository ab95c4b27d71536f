use rat_widget_core::textarea_core::{PosOrder, StyleMap, StyleMapIter, StyledRange, TextPosition, TextRange};

fn pos(x: usize, y: usize) -> TextPosition {
    TextPosition::new(x, y)
}

fn range(sx: usize, sy: usize, ex: usize, ey: usize) -> TextRange {
    TextRange::new(pos(sx, sy), pos(ex, ey))
}

#[test]
fn position_from_tuple_is_x_then_y() {
    let p: TextPosition = (3, 7).into();
    assert_eq!(p.x, 3);
    assert_eq!(p.y, 7);
    assert_eq!(p, TextPosition::new(3, 7));
}

#[test]
fn range_queries() {
    let r = range(2, 1, 5, 3);
    assert!(!r.is_empty());
    assert!(range(4, 4, 4, 4).is_empty());
    assert!(r.contains_pos(pos(2, 1)));
    assert!(r.contains_pos(pos(0, 2)));
    assert!(!r.contains_pos(pos(5, 3)));
    assert!(!r.contains_pos(pos(1, 1)));
    assert!(r.before_pos(pos(5, 3)));
    assert!(r.before_pos(pos(0, 4)));
    assert!(!r.before_pos(pos(4, 3)));
    assert!(r.after_pos(pos(1, 1)));
    assert!(!r.after_pos(pos(2, 1)));
    assert_eq!(r.compare_pos(pos(9, 0)), PosOrder::Greater);
    assert_eq!(r.compare_pos(pos(9, 2)), PosOrder::Equal);
    assert_eq!(r.compare_pos(pos(9, 3)), PosOrder::Less);
}

#[test]
fn range_relations() {
    let r = range(0, 1, 0, 5);
    assert!(r.contains(range(3, 2, 4, 4)));
    assert!(r.contains(r));
    assert!(!r.contains(range(0, 0, 0, 2)));
    assert!(r.before(range(1, 5, 2, 5)));
    assert!(!r.before(range(0, 5, 2, 5)));
    assert!(r.after(range(0, 0, 9, 0)));
    assert!(!r.after(range(0, 0, 0, 1)));
    assert!(r.intersects(range(0, 5, 3, 6)));
    assert!(!r.intersects(range(1, 5, 3, 6)));
}

#[test]
fn expand_moves_positions_after_insert() {
    // insert of "ab\ncd" at (2,1): ends at (2,2)
    let ins = range(2, 1, 2, 2);
    assert_eq!(ins.expand(pos(1, 1)), pos(1, 1));
    assert_eq!(ins.expand(pos(0, 0)), pos(0, 0));
    assert_eq!(ins.expand(pos(2, 1)), pos(2, 2));
    assert_eq!(ins.expand(pos(5, 1)), pos(5, 2));
    assert_eq!(ins.expand(pos(7, 3)), pos(7, 4));
    // single line insert of 3 chars at (4,0)
    let ins = range(4, 0, 7, 0);
    assert_eq!(ins.expand(pos(6, 0)), pos(9, 0));
    assert_eq!(ins.expand(pos(6, 1)), pos(6, 1));
}

#[test]
fn shrink_collapses_removed_text() {
    let rm = range(2, 1, 2, 2);
    assert_eq!(rm.shrink(pos(1, 1)), pos(1, 1));
    assert_eq!(rm.shrink(pos(3, 1)), pos(2, 1));
    assert_eq!(rm.shrink(pos(2, 2)), pos(2, 1));
    assert_eq!(rm.shrink(pos(5, 2)), pos(5, 1));
    assert_eq!(rm.shrink(pos(7, 3)), pos(7, 2));
    assert_eq!(rm.shrink(pos(0, 2)), pos(2, 1));
}

#[test]
fn shrink_undoes_expand() {
    let r = range(3, 2, 1, 4);
    for y in 0..8 {
        for x in 0..8 {
            let p = pos(x, y);
            assert_eq!(r.shrink(r.expand(p)), p);
        }
    }
}

fn sr(sx: usize, sy: usize, ex: usize, ey: usize, style: usize) -> StyledRange {
    StyledRange::from((range(sx, sy, ex, ey), style))
}

#[test]
fn style_map_keeps_sorted_and_unique() {
    let mut m = StyleMap::default();
    m.add_style(range(5, 0, 9, 0), 1);
    m.add_style(range(0, 0, 3, 0), 2);
    m.add_style(range(5, 0, 9, 0), 0);
    m.add_style(range(0, 0, 3, 0), 2);
    assert_eq!(m.styles, vec![sr(0, 0, 3, 0, 2), sr(5, 0, 9, 0, 0), sr(5, 0, 9, 0, 1)]);
    m.remove_style(range(5, 0, 9, 0), 7);
    assert_eq!(m.styles.len(), 3);
    m.remove_style(range(5, 0, 9, 0), 0);
    assert_eq!(m.styles, vec![sr(0, 0, 3, 0, 2), sr(5, 0, 9, 0, 1)]);
    m.clear_styles();
    assert!(m.styles.is_empty());
}

#[test]
fn style_map_add_then_remove_restores() {
    let mut m = StyleMap::default();
    m.add_style(range(0, 0, 3, 0), 2);
    m.add_style(range(0, 1, 3, 1), 4);
    let before = m.styles.clone();
    m.add_style(range(1, 0, 2, 0), 9);
    assert_eq!(m.styles[1], sr(1, 0, 2, 0, 9));
    m.remove_style(range(1, 0, 2, 0), 9);
    assert_eq!(m.styles, before);
}

fn collect(mut it: StyleMapIter<'_>) -> Vec<usize> {
    let mut v = Vec::new();
    while let Some(s) = it.next() {
        v.push(s);
    }
    v
}

#[test]
fn styles_at_finds_the_touching_styles() {
    let mut m = StyleMap::default();
    m.add_style(range(0, 0, 4, 0), 1);
    m.add_style(range(2, 0, 6, 0), 2);
    m.add_style(range(8, 0, 9, 0), 3);
    assert_eq!(collect(m.styles_at(pos(3, 0))), vec![1, 2]);
    assert_eq!(collect(m.styles_at(pos(5, 0))), vec![2]);
    assert_eq!(collect(m.styles_at(pos(8, 0))), vec![3]);
    assert_eq!(collect(m.styles_at(pos(7, 0))), Vec::<usize>::new());
    assert_eq!(collect(m.styles_at(pos(9, 0))), Vec::<usize>::new());
}

#[test]
fn expand_all_follows_an_insert() {
    let mut m = StyleMap::default();
    m.add_style(range(0, 0, 2, 0), 1);
    m.add_style(range(3, 0, 6, 0), 2);
    m.add_style(range(0, 1, 4, 1), 3);
    // insert 2 chars at (4,0)
    let ins = range(4, 0, 6, 0);
    let (first, styles) = m.styles_after_mut(pos(4, 0));
    assert_eq!(first, 1);
    ins.expand_all(first, styles);
    assert_eq!(m.styles, vec![sr(0, 0, 2, 0, 1), sr(3, 0, 8, 0, 2), sr(0, 1, 4, 1, 3)]);
    // and remove them again
    let (first, styles) = m.styles_after_mut(pos(4, 0));
    ins.shrink_all(first, styles);
    assert_eq!(m.styles, vec![sr(0, 0, 2, 0, 1), sr(3, 0, 6, 0, 2), sr(0, 1, 4, 1, 3)]);
}

#[test]
fn style_map_iter_skips_misses() {
    let styles = [sr(0, 0, 4, 0, 1), sr(5, 0, 6, 0, 2), sr(0, 0, 9, 0, 3)];
    let it = StyleMapIter::new(&styles, 0, pos(1, 0));
    assert_eq!(collect(it), vec![1, 3]);
}

#[test]
fn styles_at_finds_styles_after_a_miss() {
    let mut m = StyleMap::default();
    m.add_style(range(0, 0, 10, 0), 1);
    m.add_style(range(2, 0, 3, 0), 2);
    m.add_style(range(4, 0, 8, 0), 3);
    assert_eq!(collect(m.styles_at(pos(5, 0))), vec![1, 3]);
}

#[test]
fn debug_text_writes_columns_and_rows() {
    assert_eq!(pos(3, 4).debug_text(), "3|4");
    assert_eq!(pos(0, 120).debug_text(), "0|120");
    assert_eq!(range(1, 2, 10, 3).debug_text(false), "TextRange  1|2-10|3");
    assert_eq!(range(1, 2, 10, 3).debug_text(true), "1|2-10|3");
}
