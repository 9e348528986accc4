use velowin::dwindle::{calculate_split_boxes_static, DwindleNode, Rect};
use velowin::types::SendHWND;

fn rect(x: i32, y: i32, width: i32, height: i32) -> Rect {
    Rect { x, y, width, height }
}

fn layout(n: &DwindleNode, gaps_out: i32) -> Vec<(SendHWND, Rect)> {
    let mut v = Vec::new();
    n.get_layout_results(&mut v, 0, gaps_out);
    v
}

#[test]
fn new_leaf_holds_window_and_area() {
    let n = DwindleNode::new_leaf(SendHWND(1), rect(0, 0, 1920, 1080));
    assert_eq!(n.hwnd, Some(SendHWND(1)));
    assert_eq!(n.box_area, rect(0, 0, 1920, 1080));
    assert_eq!(n.split_ratio, 500);
    assert!(!n.split_top);
    assert!(n.children.is_none());
}

#[test]
fn split_boxes_halve_width_or_height() {
    assert_eq!(
        calculate_split_boxes_static(rect(0, 0, 1920, 1080), false, 500),
        (rect(0, 0, 960, 1080), rect(960, 0, 960, 1080))
    );
    assert_eq!(
        calculate_split_boxes_static(rect(10, 20, 100, 301), true, 500),
        (rect(10, 20, 100, 150), rect(10, 170, 100, 151))
    );
    // Odd widths leave the extra unit to the second box.
    assert_eq!(
        calculate_split_boxes_static(rect(0, 0, 1921, 10), false, 500),
        (rect(0, 0, 960, 10), rect(960, 0, 961, 10))
    );
    // Negative sizes are truncated toward zero.
    assert_eq!(
        calculate_split_boxes_static(rect(0, 0, -5, 10), false, 500),
        (rect(0, 0, -2, 10), rect(-2, 0, -3, 10))
    );
    // Other ratios, in thousandths.
    assert_eq!(
        calculate_split_boxes_static(rect(0, 0, 1000, 10), false, 250),
        (rect(0, 0, 250, 10), rect(250, 0, 750, 10))
    );
}

#[test]
fn split_of_wide_leaf_is_side_by_side() {
    let mut n = DwindleNode::new_leaf(SendHWND(1), rect(0, 0, 1920, 1080));
    n.split(SendHWND(2));
    assert!(!n.split_top);
    assert!(n.hwnd.is_none());
    assert_eq!(
        layout(&n, 0),
        vec![(SendHWND(1), rect(0, 0, 960, 1080)), (SendHWND(2), rect(960, 0, 960, 1080))]
    );
}

#[test]
fn split_of_tall_leaf_is_top_bottom() {
    let mut n = DwindleNode::new_leaf(SendHWND(1), rect(0, 0, 800, 1200));
    n.split(SendHWND(2));
    assert!(n.split_top);
    assert_eq!(
        layout(&n, 0),
        vec![(SendHWND(1), rect(0, 0, 800, 600)), (SendHWND(2), rect(0, 600, 800, 600))]
    );
}

#[test]
fn third_window_goes_into_second_child_on_equal_areas() {
    let mut n = DwindleNode::new_leaf(SendHWND(1), rect(0, 0, 1920, 1080));
    n.split(SendHWND(2));
    n.split(SendHWND(3));
    // Equal areas: the second child (window 2, 960x1080, taller than wide)
    // is split top/bottom.
    assert_eq!(
        layout(&n, 0),
        vec![
            (SendHWND(1), rect(0, 0, 960, 1080)),
            (SendHWND(2), rect(960, 0, 960, 540)),
            (SendHWND(3), rect(960, 540, 960, 540)),
        ]
    );
    // The two halves of the root still have equal areas, so the next window
    // goes down the second child again, to its second (wide) leaf.
    n.split(SendHWND(4));
    assert_eq!(
        layout(&n, 0),
        vec![
            (SendHWND(1), rect(0, 0, 960, 1080)),
            (SendHWND(2), rect(960, 0, 960, 540)),
            (SendHWND(3), rect(960, 540, 480, 540)),
            (SendHWND(4), rect(1440, 540, 480, 540)),
        ]
    );
}

#[test]
fn layout_applies_outer_gap_to_every_window() {
    let mut n = DwindleNode::new_leaf(SendHWND(1), rect(0, 0, 1920, 1080));
    n.split(SendHWND(2));
    assert_eq!(
        layout(&n, 20),
        vec![(SendHWND(1), rect(20, 20, 920, 1040)), (SendHWND(2), rect(980, 20, 920, 1040))]
    );
    // Results are appended after what the vector already holds.
    let mut v = vec![(SendHWND(9), rect(1, 2, 3, 4))];
    n.get_layout_results(&mut v, 5, 0);
    assert_eq!(v.len(), 3);
    assert_eq!(v[0], (SendHWND(9), rect(1, 2, 3, 4)));
}

#[test]
fn can_layout_detects_overflowing_gaps() {
    let n = DwindleNode::new_leaf(SendHWND(1), rect(0, 0, 1920, 1080));
    assert!(n.can_layout(20));
    assert!(n.can_layout(-20));
    assert!(!n.can_layout(i32::MAX));
    assert!(!n.can_layout(0x4000_0000));
    let far = DwindleNode::new_leaf(SendHWND(1), rect(i32::MAX - 5, 0, 5, 5));
    assert!(far.can_layout(5));
    assert!(!far.can_layout(6));
}

#[test]
fn remove_of_root_leaf_reports_it() {
    let mut n = DwindleNode::new_leaf(SendHWND(1), rect(0, 0, 1920, 1080));
    assert!(n.remove(SendHWND(1)));
    assert_eq!(n.hwnd, Some(SendHWND(1)));
    assert!(!n.remove(SendHWND(2)));
}

#[test]
fn remove_collapses_into_sibling() {
    let mut n = DwindleNode::new_leaf(SendHWND(1), rect(0, 0, 1920, 1080));
    n.split(SendHWND(2));
    n.split(SendHWND(3));
    assert!(!n.remove(SendHWND(1)));
    // Window 1 is gone; its sibling's two windows take over the whole box,
    // laid out again from it with the root's side-by-side split.
    assert_eq!(
        layout(&n, 0),
        vec![(SendHWND(2), rect(0, 0, 960, 1080)), (SendHWND(3), rect(960, 0, 960, 1080))]
    );
    assert!(!n.remove(SendHWND(3)));
    assert_eq!(layout(&n, 0), vec![(SendHWND(2), rect(0, 0, 1920, 1080))]);
    assert_eq!(n.hwnd, Some(SendHWND(2)));
    assert!(n.children.is_none());
}

#[test]
fn remove_of_absent_window_changes_nothing() {
    let mut n = DwindleNode::new_leaf(SendHWND(1), rect(0, 0, 1920, 1080));
    n.split(SendHWND(2));
    let before = layout(&n, 0);
    assert!(!n.remove(SendHWND(42)));
    assert_eq!(layout(&n, 0), before);
}

fn three_windows() -> DwindleNode {
    let mut n = DwindleNode::new_leaf(SendHWND(1), rect(0, 0, 1920, 1080));
    n.split(SendHWND(2));
    n.split(SendHWND(3));
    n
}

#[test]
fn remove_undoes_split() {
    let n = three_windows();
    for g in [0, 7, -3] {
        let before = layout(&n, g);
        let mut m = three_windows();
        m.split(SendHWND(4));
        assert_ne!(layout(&m, g), before);
        assert!(!m.remove(SendHWND(4)));
        assert_eq!(layout(&m, g), before);
    }
}

#[test]
fn tiles_cover_the_box() {
    let mut n = DwindleNode::new_leaf(SendHWND(1), rect(3, 5, 1001, 777));
    for h in 2..9 {
        n.split(SendHWND(h));
    }
    let tiles = layout(&n, 0);
    assert_eq!(tiles.len(), 8);
    let total: i64 = tiles.iter().map(|(_, r)| r.width as i64 * r.height as i64).sum();
    assert_eq!(total, 1001 * 777);
    for (_, r) in tiles {
        assert!(r.x >= 3 && r.y >= 5 && r.x + r.width <= 1004 && r.y + r.height <= 782);
    }
}

#[test]
fn split_of_a_box_larger_than_an_i32_area() {
    let big = rect(0, 0, 1 << 24, 1 << 24);
    assert_eq!(
        calculate_split_boxes_static(big, false, 500),
        (rect(0, 0, 1 << 23, 1 << 24), rect(1 << 23, 0, 1 << 23, 1 << 24))
    );
}

#[test]
fn splitting_checks_the_compared_areas() {
    let mut n = DwindleNode::new_leaf(SendHWND(1), rect(0, 0, 1 << 24, 1 << 24));
    assert!(n.can_split());
    n.split(SendHWND(2));
    // The two children now have areas of 2^47 each.
    assert!(!n.can_split());
    let mut m = DwindleNode::new_leaf(SendHWND(1), rect(0, 0, 1920, 1080));
    m.split(SendHWND(2));
    assert!(m.can_split());
}

#[test]
fn split_lays_out_again_a_tree_with_stale_boxes() {
    let mut n = DwindleNode {
        box_area: rect(0, 0, 1000, 1000),
        split_ratio: 500,
        split_top: false,
        hwnd: None,
        children: Some((
            Box::new(DwindleNode::new_leaf(SendHWND(1), rect(0, 0, 10, 10))),
            Box::new(DwindleNode::new_leaf(SendHWND(2), rect(0, 0, 20, 20))),
        )),
    };
    assert!(n.can_split());
    n.split(SendHWND(3));
    assert_eq!(
        layout(&n, 0),
        vec![
            (SendHWND(1), rect(0, 0, 500, 1000)),
            (SendHWND(2), rect(500, 0, 250, 1000)),
            (SendHWND(3), rect(750, 0, 250, 1000)),
        ]
    );
}

#[test]
fn remove_lays_out_again_from_the_collapsing_node() {
    let stale = DwindleNode {
        box_area: rect(0, 0, 20, 20),
        split_ratio: 500,
        split_top: true,
        hwnd: None,
        children: Some((
            Box::new(DwindleNode::new_leaf(SendHWND(2), rect(0, 0, 1, 1))),
            Box::new(DwindleNode::new_leaf(SendHWND(3), rect(0, 0, 1, 1))),
        )),
    };
    let mut n = DwindleNode {
        box_area: rect(0, 0, 1000, 1000),
        split_ratio: 500,
        split_top: false,
        hwnd: None,
        children: Some((
            Box::new(DwindleNode::new_leaf(SendHWND(1), rect(0, 0, 10, 10))),
            Box::new(stale),
        )),
    };
    assert!(!n.remove(SendHWND(1)));
    assert_eq!(
        layout(&n, 0),
        vec![(SendHWND(2), rect(0, 0, 500, 1000)), (SendHWND(3), rect(500, 0, 500, 1000))]
    );
}
