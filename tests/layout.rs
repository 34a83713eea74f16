use flexgrid::{Direction, Key, KeyKind, Layout, LayoutError, LayoutErrorKind, Padding, Placement, Rect, Spec};

fn rect_of(placements: &[Placement], key: &Key) -> Rect {
    placements.iter().find(|p| p.key == *key).expect("key placed").rect
}

#[test]
fn scenario_a_pixels_then_two_flex() {
    let mut layout = Layout::new(Direction::Right, Padding::none());
    let a = layout.add(Spec::Pixels(50)).unwrap();
    let b = layout.add(Spec::Flex(1)).unwrap();
    let c = layout.add(Spec::Flex(1)).unwrap();
    let placed = layout.solve(Rect::new(0, 0, 250, 100)).unwrap();
    assert_eq!(placed.len(), 3);
    assert_eq!(rect_of(&placed, &a), Rect::new(0, 0, 50, 100));
    assert_eq!(rect_of(&placed, &b), Rect::new(50, 0, 100, 100));
    assert_eq!(rect_of(&placed, &c), Rect::new(150, 0, 100, 100));
}

#[test]
fn scenario_b_margin_overrun() {
    let mut layout = Layout::new(Direction::Down, Padding::new(10, 0, 10, 0));
    layout.add(Spec::Pixels(200)).unwrap();
    let err = layout.solve(Rect::new(0, 0, 100, 150)).unwrap_err();
    assert_eq!(err.kind(), LayoutErrorKind::MarginOverrun);
}

#[test]
fn pixel_only_items_are_contiguous_after_padding() {
    let mut layout = Layout::new(Direction::Right, Padding::new(5, 2, 5, 3));
    let a = layout.add(Spec::Pixels(10)).unwrap();
    let b = layout.add(Spec::Pixels(20)).unwrap();
    let c = layout.add(Spec::Pixels(30)).unwrap();
    let placed = layout.solve(Rect::new(100, 40, 100, 50)).unwrap();
    assert_eq!(rect_of(&placed, &a), Rect::new(105, 42, 10, 45));
    assert_eq!(rect_of(&placed, &b), Rect::new(115, 42, 20, 45));
    assert_eq!(rect_of(&placed, &c), Rect::new(135, 42, 30, 45));
}

#[test]
fn pixels_filling_the_axis_exactly_overrun() {
    let mut layout = Layout::new(Direction::Right, Padding::none());
    layout.add(Spec::Pixels(100)).unwrap();
    let err = layout.solve(Rect::new(0, 0, 100, 10)).unwrap_err();
    assert_eq!(err.kind(), LayoutErrorKind::MarginOverrun);
}

#[test]
fn empty_layout_with_room_solves_to_nothing() {
    let layout = Layout::new(Direction::Down, Padding::equal(1));
    let placed = layout.solve(Rect::new(0, 0, 10, 10)).unwrap();
    assert!(placed.is_empty());
}

#[test]
fn empty_layout_without_room_overruns() {
    let layout = Layout::new(Direction::Down, Padding::equal(5));
    let err = layout.solve(Rect::new(0, 0, 10, 10)).unwrap_err();
    assert_eq!(err.kind(), LayoutErrorKind::MarginOverrun);
}

#[test]
fn percent_resolves_against_axis_length() {
    let mut layout = Layout::new(Direction::Right, Padding::none());
    let a = layout.add(Spec::Percent(25)).unwrap();
    let b = layout.add(Spec::Percent(33)).unwrap();
    let placed = layout.solve(Rect::new(0, 0, 200, 7)).unwrap();
    assert_eq!(rect_of(&placed, &a), Rect::new(0, 0, 50, 7));
    assert_eq!(rect_of(&placed, &b), Rect::new(50, 0, 66, 7));
}

#[test]
fn percent_uses_height_when_running_down() {
    let mut layout = Layout::new(Direction::Down, Padding::none());
    let a = layout.add(Spec::Percent(10)).unwrap();
    let placed = layout.solve(Rect::new(3, 4, 1000, 90)).unwrap();
    assert_eq!(rect_of(&placed, &a), Rect::new(3, 4, 1000, 9));
}

#[test]
fn flex_shares_sum_to_available_space() {
    let mut layout = Layout::new(Direction::Right, Padding::none());
    let a = layout.add(Spec::Flex(1)).unwrap();
    let b = layout.add(Spec::Flex(1)).unwrap();
    let c = layout.add(Spec::Flex(1)).unwrap();
    let placed = layout.solve(Rect::new(0, 0, 100, 1)).unwrap();
    let wa = rect_of(&placed, &a).width;
    let wb = rect_of(&placed, &b).width;
    let wc = rect_of(&placed, &c).width;
    assert_eq!((wa, wb, wc), (33, 33, 34));
    assert_eq!(wa + wb + wc, 100);
}

#[test]
fn flex_weights_are_proportional() {
    let mut layout = Layout::new(Direction::Down, Padding::new(10, 0, 0, 0));
    let a = layout.add(Spec::Flex(1)).unwrap();
    let gap = layout.add(Spec::Pixels(30)).unwrap();
    let b = layout.add(Spec::Flex(3)).unwrap();
    let placed = layout.solve(Rect::new(0, 0, 20, 240)).unwrap();
    assert_eq!(rect_of(&placed, &a), Rect::new(0, 10, 20, 50));
    assert_eq!(rect_of(&placed, &gap), Rect::new(0, 60, 20, 30));
    assert_eq!(rect_of(&placed, &b), Rect::new(0, 90, 20, 150));
}

#[test]
fn zero_flex_weights_take_no_space() {
    let mut layout = Layout::new(Direction::Right, Padding::none());
    let a = layout.add(Spec::Flex(0)).unwrap();
    let b = layout.add(Spec::Pixels(5)).unwrap();
    let placed = layout.solve(Rect::new(0, 0, 20, 20)).unwrap();
    assert_eq!(rect_of(&placed, &a), Rect::new(0, 0, 0, 20));
    assert_eq!(rect_of(&placed, &b), Rect::new(0, 0, 5, 20));
}

#[test]
fn placements_follow_insertion_order() {
    let mut layout = Layout::new(Direction::Right, Padding::none());
    let a = layout.add(Spec::Pixels(1)).unwrap();
    layout.space(Spec::Pixels(2)).unwrap();
    let c = layout.add(Spec::Flex(1)).unwrap();
    let placed = layout.solve(Rect::new(0, 0, 10, 10)).unwrap();
    assert_eq!(placed.len(), 3);
    assert_eq!(placed[0].key, a);
    assert_eq!(placed[1].key.kind, KeyKind::Space);
    assert_eq!(placed[2].key, c);
    for i in 1..placed.len() {
        assert_eq!(placed[i].rect.x, placed[i - 1].rect.x + placed[i - 1].rect.width);
    }
    assert_eq!(placed[2].rect, Rect::new(3, 0, 7, 10));
}

#[test]
fn keys_are_fresh_and_named() {
    let mut layout = Layout::new(Direction::Right, Padding::none());
    let a = layout.add(Spec::Pixels(1)).unwrap();
    let b = layout.add(Spec::Pixels(1)).unwrap();
    assert_ne!(a, b);
    assert_eq!((a.kind, a.index, b.kind, b.index), (KeyKind::Item, 2, KeyKind::Item, 4));
    assert_eq!(a.name(), "item_2");
    assert_eq!(b.name(), "item_4");
    assert_eq!(Key { kind: KeyKind::Space, index: 17 }.name(), "space_17");
    assert_eq!(Key { kind: KeyKind::Size, index: 3 }.name(), "size_3");
}

#[test]
fn nested_item_gets_an_empty_child_layout() {
    let mut layout = Layout::new(Direction::Right, Padding::none());
    let plain = layout.add(Spec::Pixels(10)).unwrap();
    let nested = layout.nest(Spec::Flex(1), Direction::Down, Padding::equal(2)).unwrap();
    let placed = layout.solve(Rect::new(0, 0, 50, 30)).unwrap();
    assert!(placed[0].child.is_none());
    assert_eq!(placed[0].key, plain);
    assert_eq!(placed[1].key, nested);
    assert_eq!(placed[1].rect, Rect::new(10, 0, 40, 30));
    let mut child = placed.into_iter().nth(1).unwrap().child.expect("nested item has a child layout");
    assert_eq!(child.direction(), Direction::Down);
    assert_eq!(child.padding(), Padding::equal(2));
    assert_eq!(child.len(), 0);
    let inner = child.add(Spec::Flex(1)).unwrap();
    let inner_placed = child.solve(Rect::new(10, 0, 40, 30)).unwrap();
    assert_eq!(rect_of(&inner_placed, &inner), Rect::new(12, 2, 36, 26));
}

#[test]
fn error_carries_kind_and_message() {
    let e = LayoutError::error(LayoutErrorKind::DuplicateKey, "taken");
    assert_eq!(e.kind(), LayoutErrorKind::DuplicateKey);
    assert_eq!(e.message, "taken");
}

#[test]
fn geometry_helpers() {
    let p = Padding::equal(4);
    assert_eq!((p.start_main, p.start_cross, p.end_main, p.end_cross), (4, 4, 4, 4));
    assert_eq!(Rect::empty(), Rect::new(0, 0, 0, 0));
    let r = Rect::new(-5, 7, 10, 20);
    assert_eq!(r.max_x(), 5);
    assert_eq!(r.max_y(), 27);
}

#[test]
fn uneven_flex_weights_round_within_a_pixel() {
    let mut layout = Layout::new(Direction::Right, Padding::none());
    let a = layout.add(Spec::Flex(1)).unwrap();
    let b = layout.add(Spec::Flex(2)).unwrap();
    let placed = layout.solve(Rect::new(0, 0, 100, 5)).unwrap();
    let wa = rect_of(&placed, &a).width;
    let wb = rect_of(&placed, &b).width;
    assert_eq!((wa, wb), (33, 67));
    assert!((3 * wa - 100).abs() < 3);
    assert!((3 * wb - 200).abs() < 3);
}

#[test]
fn flex_fills_up_to_end_padding() {
    let mut layout = Layout::new(Direction::Down, Padding::new(3, 0, 7, 0));
    layout.add(Spec::Percent(50)).unwrap();
    let last = layout.add(Spec::Flex(5)).unwrap();
    let placed = layout.solve(Rect::new(0, 10, 4, 200)).unwrap();
    let r = rect_of(&placed, &last);
    assert_eq!(r, Rect::new(0, 113, 4, 90));
    assert_eq!(r.y + r.height, 10 + 200 - 7);
}

#[test]
fn sink_sees_every_item_in_order_after_success() {
    let mut layout = Layout::new(Direction::Right, Padding::none());
    let a = layout.add(Spec::Pixels(50)).unwrap();
    let b = layout.add(Spec::Flex(1)).unwrap();
    let mut sink = flexgrid::PlacementLog { entries: Vec::new() };
    let placed = layout.solve_into(Rect::new(0, 0, 150, 10), &mut sink).unwrap();
    assert_eq!(placed.len(), 2);
    assert_eq!(sink.entries, vec![(a, Rect::new(0, 0, 50, 10)), (b, Rect::new(50, 0, 100, 10))]);
}

#[test]
fn sink_untouched_when_solving_fails() {
    let mut layout = Layout::new(Direction::Down, Padding::new(10, 0, 10, 0));
    layout.add(Spec::Flex(1)).unwrap();
    layout.add(Spec::Pixels(200)).unwrap();
    let mut sink = flexgrid::PlacementLog { entries: Vec::new() };
    let err = layout.solve_into(Rect::new(0, 0, 100, 150), &mut sink).unwrap_err();
    assert_eq!(err.kind(), LayoutErrorKind::MarginOverrun);
    assert!(sink.entries.is_empty());
}

#[test]
fn frame_out_of_range_is_refused() {
    let mut layout = Layout::new(Direction::Right, Padding::none());
    layout.add(Spec::Pixels(1)).unwrap();
    let err = layout.solve(Rect::new(0, 0, -5, 10)).unwrap_err();
    assert_eq!(err.kind(), LayoutErrorKind::OutOfRange);
}

#[test]
fn placement_log_records_in_order() {
    let mut layout = Layout::new(Direction::Down, Padding::none());
    let a = layout.add(Spec::Pixels(4)).unwrap();
    let b = layout.add(Spec::Percent(50)).unwrap();
    let mut log = flexgrid::PlacementLog { entries: Vec::new() };
    layout.solve_into(Rect::new(1, 2, 3, 20), &mut log).unwrap();
    assert_eq!(log.entries, vec![(a, Rect::new(1, 2, 3, 4)), (b, Rect::new(1, 6, 3, 10))]);
}

#[test]
fn percent_and_its_pixels_lay_out_alike() {
    let frame = Rect::new(0, 0, 200, 10);
    let mut with_percent = Layout::new(Direction::Right, Padding::equal(3));
    with_percent.add(Spec::Flex(1)).unwrap();
    with_percent.add(Spec::Percent(25)).unwrap();
    with_percent.add(Spec::Flex(2)).unwrap();
    let mut with_pixels = Layout::new(Direction::Right, Padding::equal(3));
    with_pixels.add(Spec::Flex(1)).unwrap();
    with_pixels.add(Spec::Pixels(50)).unwrap();
    with_pixels.add(Spec::Flex(2)).unwrap();
    let a: Vec<Rect> = with_percent.solve(frame).unwrap().iter().map(|p| p.rect).collect();
    let b: Vec<Rect> = with_pixels.solve(frame).unwrap().iter().map(|p| p.rect).collect();
    assert_eq!(a, b);
    assert_eq!(a[1], Rect::new(51, 3, 50, 4));
}
