use alacritty::damage::{viewport_y_to_damage_y, DamageTracker, FrameDamage, Rect};
use alacritty::terminal::{Column, Line, LineDamageBounds, Point, SelectionRange, SizeInfo};

fn size(height: u32) -> SizeInfo {
    SizeInfo {
        width: height,
        height,
        cell_width: 5,
        cell_height: 5,
        padding_x: 0,
        padding_y: 0,
        screen_lines: 20,
        columns: 20,
    }
}

#[test]
fn add_viewport_damage() {
    let mut frame_damage = FrameDamage::default();
    let viewport_height = 100.;
    let x = 0;
    let y = 40;
    let height = 5;
    let width = 10;
    let size_info = size(viewport_height as u32);
    frame_damage.add_viewport_rect(&size_info, x, y, width, height);
    assert_eq!(
        frame_damage.rects[0],
        Rect { x, y: viewport_height as i32 - y - height, width, height }
    );
    assert_eq!(frame_damage.rects[0].y, viewport_y_to_damage_y(&size_info, y, height));
}

#[test]
fn viewport_coordinates_are_mirrored() {
    assert_eq!(viewport_y_to_damage_y(&size(100), 40, 5), 55);
    assert_eq!(viewport_y_to_damage_y(&size(100), 55, 5), 40);
}

#[test]
fn damaged_cells_are_reported() {
    let mut tracker = DamageTracker::new(4, 10);
    assert!(tracker.frame().full);
    tracker.swap_damage();
    assert_eq!(tracker.frame().lines.len(), 4);
    tracker.frame().damage_point(Point::new(2, Column(7)));
    tracker.frame().damage_line(LineDamageBounds::new(2, 3, 4));
    assert_eq!(tracker.frame().lines[2].left, 3);
    assert_eq!(tracker.frame().lines[2].right, 7);
    assert!(tracker.frame().intersects(Point::new(2, Column(5)), Point::new(2, Column(6))));
    assert!(!tracker.frame().intersects(Point::new(1, Column(5)), Point::new(1, Column(6))));
    tracker.frame().mark_fully_damaged();
    assert!(tracker.frame().intersects(Point::new(1, Column(5)), Point::new(1, Column(6))));
}

#[test]
fn converting_twice_gives_back() {
    let size = size(100);
    let converted = viewport_y_to_damage_y(&size, 40, 5);
    assert_eq!(converted, 55);
    assert_eq!(viewport_y_to_damage_y(&size, converted, 5), 40);
}

#[test]
fn ranges_with_a_damaged_cell_are_damaged() {
    let mut tracker = DamageTracker::new(3, 10);
    tracker.swap_damage();
    let at = |line, column| Point::new(line, Column(column));
    tracker.frame().damage_point(at(1, 5));
    let frame = tracker.frame();
    assert!(frame.intersects(at(1, 3), at(1, 8)));
    assert!(frame.intersects(at(1, 5), at(1, 5)));
    assert!(!frame.intersects(at(1, 3), at(1, 4)));
    assert!(!frame.intersects(at(1, 6), at(1, 8)));
    // The damage lies right of the start, left of the end, or on a line between them.
    assert!(frame.intersects(at(1, 4), at(2, 0)));
    assert!(!frame.intersects(at(1, 6), at(2, 9)));
    assert!(frame.intersects(at(0, 9), at(1, 7)));
    assert!(!frame.intersects(at(0, 0), at(1, 4)));
    assert!(frame.intersects(at(0, 9), at(2, 0)));
    // No cell lies between an end and an earlier one, but the ends themselves count.
    assert!(!frame.intersects(at(1, 6), at(1, 4)));
    assert!(frame.intersects(at(1, 6), at(1, 5)));
    assert!(frame.intersects(at(1, 5), at(1, 3)));
    assert!(frame.intersects(at(2, 0), at(1, 5)));
    assert!(!frame.intersects(at(2, 0), at(0, 0)));
}

#[test]
fn hidden_selections_need_no_columns() {
    let mut tracker = DamageTracker::new(2, 0);
    tracker.swap_damage();
    let at = |line| Point::new(Line(line), Column(0));
    let selection = SelectionRange { start: at(5), end: at(6), is_block: false };
    tracker.damage_selection(Some(selection), 0);
    assert_eq!(tracker.old_selection, Some(selection));
    assert_eq!(tracker.frame().lines[0], LineDamageBounds::undamaged(0, 0));
}

#[test]
fn swapping_goes_to_the_next_frame() {
    let mut tracker = DamageTracker::new(2, 5);
    tracker.next_frame().damage_point(Point::new(1, Column(1)));
    assert!(!tracker.frame().lines[1].is_damaged());
    tracker.swap_damage();
    assert!(tracker.frame().lines[1].is_damaged());
    assert!(!tracker.next_frame().lines[1].is_damaged());
    tracker.resize(3, 6);
    assert_eq!(tracker.frame().lines.len(), 3);
}

#[test]
fn cursor_and_selection_damage_their_cells() {
    let mut tracker = DamageTracker::new(6, 10);
    tracker.swap_damage();
    tracker.damage_vi_cursor(Some(Point::new(1, Column(2))));
    assert!(tracker.frame().lines[1].is_damaged());
    let selection = SelectionRange {
        start: Point::new(Line(2), Column(0)),
        end: Point::new(Line(3), Column(4)),
        is_block: false,
    };
    tracker.damage_selection(Some(selection), 0);
    assert!(tracker.frame().lines[2].is_damaged());
    assert!(tracker.frame().lines[3].is_damaged());
    assert!(!tracker.frame().lines[4].is_damaged());
}
