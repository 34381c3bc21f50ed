use typst::frame::{Destination, Element, Frame, Glyph, Group, Image, Location, Role, Text, Value};
use typst::geom::{Align, Point, Size, Spec, Transform, UNIT};
use typst::raw::{ArgError, RawNode};

fn glyph(c: char, advance: i64) -> Glyph {
    Glyph { id: 0, x_advance: advance, x_offset: 0, c }
}

fn text(s: &str) -> Element {
    Element::Text(Text { size: 10 * UNIT, glyphs: s.chars().map(|c| glyph(c, UNIT / 2)).collect() })
}

fn image() -> Element {
    Element::Image(Image { id: 0, width: 1, height: 1 }, Size::new(1, 1))
}

fn positions(f: &Frame) -> Vec<Point> {
    f.elements().iter().map(|(p, _)| *p).collect()
}

#[test]
fn new_frame_is_empty() {
    let f = Frame::new(Size::new(20, 30));
    assert_eq!(f.size(), Size::new(20, 30));
    assert_eq!(f.width(), 20);
    assert_eq!(f.height(), 30);
    assert_eq!(f.baseline(), 30);
    assert_eq!(f.role(), None);
    assert_eq!(f.layer(), 0);
}

#[test]
fn baseline_and_size_setters() {
    let mut f = Frame::new(Size::new(20, 30));
    f.set_baseline(12);
    assert_eq!(f.baseline(), 12);
    f.set_size(Size::new(5, 6));
    assert_eq!(f.size(), Size::new(5, 6));
    *f.size_mut() = Size::new(7, 8);
    assert_eq!(f.height(), 8);
    assert_eq!(f.baseline(), 12);
}

#[test]
fn text_descends_into_groups() {
    let mut inner = Frame::new(Size::new(10, 10));
    inner.push(Point::zero(), text("lo"));
    let mut f = Frame::new(Size::new(10, 10));
    f.push(Point::zero(), text("he"));
    f.push(Point::zero(), image());
    f.push(Point::zero(), Element::Group(Group::new(inner)));
    f.push(Point::zero(), text("!"));
    let s: String = f.text().into_iter().collect();
    assert_eq!(s, "helo!");
}

#[test]
fn insert_and_prepend_order_layers() {
    let mut f = Frame::new(Size::new(10, 10));
    f.push(Point::new(1, 0), image());
    f.push(Point::new(3, 0), image());
    f.insert(1, Point::new(2, 0), image());
    f.prepend(Point::new(0, 0), image());
    f.prepend_multiple(vec![(Point::new(-2, 0), image()), (Point::new(-1, 0), image())]);
    let xs: Vec<i64> = positions(&f).iter().map(|p| p.x).collect();
    assert_eq!(xs, vec![-2, -1, 0, 1, 2, 3]);
}

#[test]
fn small_frames_are_inlined_and_moved() {
    let mut child = Frame::new(Size::new(5, 5));
    child.push(Point::new(1, 1), image());
    child.push(Point::new(2, 2), image());
    let mut f = Frame::new(Size::new(10, 10));
    f.push(Point::new(0, 0), image());
    f.push_frame(Point::new(10, 20), child);
    assert_eq!(positions(&f), vec![Point::new(0, 0), Point::new(11, 21), Point::new(12, 22)]);
}

#[test]
fn frames_with_strong_roles_become_groups() {
    let mut child = Frame::new(Size::new(5, 5));
    child.push(Point::new(1, 1), image());
    child.apply_role(Role::Table);
    let mut f = Frame::new(Size::new(10, 10));
    f.push(Point::new(0, 0), image());
    f.prepend_frame(Point::new(4, 4), child);
    assert_eq!(f.layer(), 2);
    assert_eq!(f.elements()[0].0, Point::new(4, 4));
    match &f.elements()[0].1 {
        Element::Group(g) => {
            assert_eq!(g.frame.role(), Some(Role::Table));
            assert!(!g.clips);
        }
        _ => panic!("expected a group"),
    }
}

#[test]
fn large_frames_become_groups_unless_self_is_empty() {
    let mut child = Frame::new(Size::new(5, 5));
    for i in 0..6 {
        child.push(Point::new(i, 0), image());
    }
    let mut f = Frame::new(Size::new(10, 10));
    f.push(Point::new(0, 0), image());
    f.push_frame(Point::zero(), child);
    assert_eq!(f.layer(), 2);

    let mut child = Frame::new(Size::new(5, 5));
    for i in 0..6 {
        child.push(Point::new(i, 0), image());
    }
    let mut empty = Frame::new(Size::new(10, 10));
    empty.push_frame(Point::zero(), child);
    assert_eq!(empty.layer(), 6);
}

#[test]
fn clear_removes_elements() {
    let mut f = Frame::new(Size::new(10, 10));
    f.push(Point::zero(), image());
    f.clear();
    assert_eq!(f.layer(), 0);
}

#[test]
fn translate_moves_baseline_and_elements() {
    let mut f = Frame::new(Size::new(10, 10));
    f.set_baseline(4);
    f.push(Point::new(1, 2), image());
    f.translate(Point::new(3, 5));
    assert_eq!(f.baseline(), 9);
    assert_eq!(positions(&f), vec![Point::new(4, 7)]);
}

#[test]
fn resize_distributes_space_by_alignment() {
    let mut f = Frame::new(Size::new(10, 10));
    f.push(Point::new(0, 0), image());
    f.resize(Size::new(20, 30), Spec { x: Align::Center, y: Align::Bottom });
    assert_eq!(f.size(), Size::new(20, 30));
    assert_eq!(positions(&f), vec![Point::new(5, 20)]);
    f.resize(Size::new(20, 30), Spec { x: Align::Right, y: Align::Top });
    assert_eq!(positions(&f), vec![Point::new(5, 20)]);
    f.resize(Size::new(10, 10), Spec { x: Align::Left, y: Align::Horizon });
    assert_eq!(positions(&f), vec![Point::new(5, 10)]);
}

#[test]
fn apply_role_keeps_strong_roles() {
    let mut f = Frame::new(Size::new(10, 10));
    f.apply_role(Role::Paragraph);
    assert_eq!(f.role(), Some(Role::Paragraph));
    f.apply_role(Role::GenericBlock);
    assert_eq!(f.role(), Some(Role::Paragraph));
    f.apply_role(Role::Heading { level: 1, outlined: true });
    assert_eq!(f.role(), Some(Role::Heading { level: 1, outlined: true }));
    f.apply_role(Role::Code);
    assert_eq!(f.role(), Some(Role::Heading { level: 1, outlined: true }));
}

#[test]
fn weak_roles() {
    assert!(Role::Paragraph.is_weak());
    assert!(Role::GenericBlock.is_weak());
    assert!(Role::GenericInline.is_weak());
    assert!(!Role::List { ordered: true }.is_weak());
    assert!(!Role::Foreground.is_weak());
}

#[test]
fn link_covers_the_whole_frame() {
    let mut f = Frame::new(Size::new(10, 20));
    f.link(Destination::Url("https://example.com".to_string()));
    assert_eq!(f.layer(), 1);
    match &f.elements()[0].1 {
        Element::Link(Destination::Url(u), size) => {
            assert_eq!(u, "https://example.com");
            assert_eq!(*size, Size::new(10, 20));
        }
        _ => panic!("expected a link"),
    }
}

#[test]
fn clip_and_transform_wrap_in_a_group() {
    let mut f = Frame::new(Size::new(10, 20));
    f.set_baseline(7);
    f.apply_role(Role::Table);
    f.push(Point::new(1, 1), image());
    f.clip();
    assert_eq!(f.size(), Size::new(10, 20));
    assert_eq!(f.baseline(), 7);
    assert_eq!(f.role(), None);
    assert_eq!(f.layer(), 1);
    match &f.elements()[0].1 {
        Element::Group(g) => {
            assert!(g.clips);
            assert_eq!(g.transform, Transform::identity());
            assert_eq!(g.frame.role(), Some(Role::Table));
            assert_eq!(g.frame.layer(), 1);
        }
        _ => panic!("expected a group"),
    }
    let t = Transform { sx: 2 * UNIT, ky: 0, kx: 0, sy: 2 * UNIT, tx: 0, ty: 0 };
    f.transform(t);
    match &f.elements()[0].1 {
        Element::Group(g) => {
            assert!(!g.clips);
            assert_eq!(g.transform, t);
        }
        _ => panic!("expected a group"),
    }
}

#[test]
fn text_width_sums_advances_at_size() {
    let t = Text { size: 10 * UNIT, glyphs: vec![glyph('a', UNIT / 2), glyph('b', UNIT / 4)] };
    assert_eq!(t.width(), 7 * UNIT + UNIT / 2);
    let empty = Text { size: 10 * UNIT, glyphs: vec![] };
    assert_eq!(empty.width(), 0);
}

#[test]
fn location_encodes_page_and_position() {
    let loc = Location { page: 3, pos: Point::new(4, 5) };
    let d = loc.encode();
    assert_eq!(d.len(), 3);
    assert_eq!(d[0], ("page".to_string(), Value::Int(3)));
    assert_eq!(d[1], ("x".to_string(), Value::Length(4)));
    assert_eq!(d[2], ("y".to_string(), Value::Length(5)));
}

#[test]
fn alignment_positions() {
    assert_eq!(Align::Left.position(10), 0);
    assert_eq!(Align::Horizon.position(-7), -3);
    assert_eq!(Align::Bottom.position(10), 10);
}

#[test]
fn raw_node_construction() {
    let n = RawNode::construct(Some("let x".to_string()), None).unwrap();
    assert_eq!(n.text, "let x");
    assert!(!n.block);
    let n = RawNode::construct(Some("x".to_string()), Some(true)).unwrap();
    assert!(n.block);
    assert_eq!(RawNode::construct(None, Some(true)).unwrap_err(), ArgError::MissingText);
}

#[test]
fn frames_compare_by_value_and_default_to_empty() {
    let mut a = Frame::new(Size::new(10, 10));
    a.push(Point::new(1, 2), text("ab"));
    let mut b = Frame::new(Size::new(10, 10));
    b.push(Point::new(1, 2), text("ab"));
    assert!(a == b);
    b.set_baseline(3);
    assert!(a != b);
    let d = Frame::default();
    assert_eq!(d.size(), Size::new(0, 0));
    assert_eq!(d.layer(), 0);
    let t = Text { size: UNIT, glyphs: vec![glyph('x', UNIT)] };
    assert!(t.clone() == t);
}
