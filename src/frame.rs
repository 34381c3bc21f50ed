//! Finished layouts: frames holding elements at fixed positions.

use vstd::prelude::*;
use crate::bez::PathSeg;
use crate::geom::{Align, Length, Point, Size, Spec, Transform, tdiv, in_range, UNIT};

verus! {

broadcast use vstd::std_specs::vec::group_vec_axioms, vstd::seq::group_seq_axioms;

/// A length relative to the font size, with `UNIT` standing for one em.
pub type Em = i64;

/// `p` moved by `offset`.
pub open spec fn shifted(p: Point, offset: Point) -> Point {
    Point { x: (p.x + offset.x) as i64, y: (p.y + offset.y) as i64 }
}

/// Whether `p` moved by `offset` stays representable.
pub open spec fn shift_fits(p: Point, offset: Point) -> bool {
    i64::MIN <= p.x + offset.x <= i64::MAX && i64::MIN <= p.y + offset.y <= i64::MAX
}

/// Whether every position of `elems` moved by `offset` stays representable.
pub open spec fn all_shift_fit(elems: Seq<(Point, Element)>, offset: Point) -> bool {
    forall|i: int| 0 <= i < elems.len() ==> shift_fits(#[trigger] elems[i].0, offset)
}

/// `elems` with every position moved by `offset`.
pub open spec fn shifted_all(elems: Seq<(Point, Element)>, offset: Point) -> Seq<(Point, Element)> {
    elems.map_values(|e: (Point, Element)| (shifted(e.0, offset), e.1))
}

/// The characters of a run of glyphs.
pub open spec fn glyph_chars(glyphs: Seq<Glyph>) -> Seq<char> {
    glyphs.map_values(|g: Glyph| g.c)
}

/// The text held by a sequence of elements, descending into groups.
pub open spec fn elems_text(s: Seq<(Point, Element)>) -> Seq<char>
    decreases s,
{
    if s.len() == 0 {
        seq![]
    } else {
        let rest = elems_text(s.drop_last());
        match s.last().1 {
            Element::Text(t) => rest + glyph_chars(t.glyphs@),
            Element::Group(g) => rest + elems_text(g.frame.elems()),
            _ => rest,
        }
    }
}

/// A finished layout with elements at fixed positions.
#[derive(PartialEq, Eq)]
pub struct Frame {
    /// The size of the frame.
    size: Size,
    /// The baseline of the frame measured from the top. If this is `None`, the
    /// frame's implicit baseline is at the bottom.
    baseline: Option<Length>,
    /// The semantic role of the frame.
    role: Option<Role>,
    /// The elements composing this layout.
    elements: Vec<(Point, Element)>,
}

impl Default for Frame {
    /// An empty frame of zero size.
    fn default() -> (r: Frame)
        ensures
            r.size_spec() == (Size { x: 0, y: 0 }),
            r.baseline_spec() == None::<Length>,
            r.role_spec() == None::<Role>,
            r.elems() == Seq::<(Point, Element)>::empty(),
    {
        Frame::new(Size { x: 0, y: 0 })
    }
}

impl Frame {
    pub closed spec fn size_spec(&self) -> Size {
        self.size
    }

    pub closed spec fn baseline_spec(&self) -> Option<Length> {
        self.baseline
    }

    pub closed spec fn role_spec(&self) -> Option<Role> {
        self.role
    }

    /// The elements with their positions, from the background to the front.
    pub closed spec fn elems(&self) -> Seq<(Point, Element)> {
        self.elements@
    }

    /// The characters of the text runs, descending into groups, in layer
    /// order.
    pub open spec fn text_spec(&self) -> Seq<char> {
        elems_text(self.elems())
    }

    /// The size stays in the coordinate range.
    pub open spec fn wf(&self) -> bool {
        self.size_spec().wf()
    }

    /// Create a new, empty frame.
    pub fn new(size: Size) -> (r: Frame)
        requires
            size.wf(),
        ensures
            r.size_spec() == size,
            r.baseline_spec() == None::<Length>,
            r.role_spec() == None::<Role>,
            r.elems() == Seq::<(Point, Element)>::empty(),
            r.wf(),
    {
        Frame { size, baseline: None, role: None, elements: Vec::new() }
    }

    /// The size of the frame.
    pub fn size(&self) -> (r: Size)
        ensures
            r == self.size_spec(),
    {
        self.size
    }

    /// The size of the frame, mutably.
    pub fn size_mut(&mut self) -> (r: &mut Size)
        ensures
            *r == old(self).size_spec(),
            final(self).size_spec() == *final(r),
            final(self).baseline_spec() == old(self).baseline_spec(),
            final(self).role_spec() == old(self).role_spec(),
            final(self).elems() == old(self).elems(),
    {
        &mut self.size
    }

    /// Set the size of the frame.
    pub fn set_size(&mut self, size: Size)
        requires
            size.wf(),
        ensures
            final(self).size_spec() == size,
            final(self).baseline_spec() == old(self).baseline_spec(),
            final(self).role_spec() == old(self).role_spec(),
            final(self).elems() == old(self).elems(),
    {
        self.size = size;
    }

    /// The width of the frame.
    pub fn width(&self) -> (r: Length)
        ensures
            r == self.size_spec().x,
    {
        self.size.x
    }

    /// The height of the frame.
    pub fn height(&self) -> (r: Length)
        ensures
            r == self.size_spec().y,
    {
        self.size.y
    }

    /// The baseline of the frame: the one set, else the bottom edge.
    pub fn baseline(&self) -> (r: Length)
        ensures
            r == match self.baseline_spec() {
                Some(b) => b,
                None => self.size_spec().y,
            },
    {
        match self.baseline {
            Some(b) => b,
            None => self.size.y,
        }
    }

    /// Set the frame's baseline from the top.
    pub fn set_baseline(&mut self, baseline: Length)
        ensures
            final(self).baseline_spec() == Some(baseline),
            final(self).size_spec() == old(self).size_spec(),
            final(self).role_spec() == old(self).role_spec(),
            final(self).elems() == old(self).elems(),
    {
        self.baseline = Some(baseline);
    }

    /// The role of the frame.
    pub fn role(&self) -> (r: Option<Role>)
        ensures
            r == self.role_spec(),
    {
        self.role
    }

    /// The elements inside this frame alongside their positions relative to
    /// the top-left of the frame.
    pub fn elements(&self) -> (r: &[(Point, Element)])
        ensures
            r@ == self.elems(),
    {
        self.elements.as_slice()
    }

    /// The layer the next item will be added on: the number of elements.
    pub fn layer(&self) -> (r: usize)
        ensures
            r == self.elems().len(),
    {
        self.elements.len()
    }
}


impl Frame {
    /// Recover the text inside of the frame and its children.
    pub fn text(&self) -> (r: Vec<char>)
        ensures
            r@ == self.text_spec(),
        decreases self,
    {
        let mut text: Vec<char> = Vec::new();
        let mut i: usize = 0;
        while i < self.elements.len()
            invariant
                0 <= i <= self.elements@.len(),
                text@ == elems_text(self.elements@.take(i as int)),
            decreases self.elements@.len() - i,
        {
            let ghost s = self.elements@.take(i as int + 1);
            assert(s.drop_last() == self.elements@.take(i as int));
            assert(s.last() == self.elements@[i as int]);
            match &self.elements[i].1 {
                Element::Text(content) => {
                    let mut j: usize = 0;
                    let ghost before = text@;
                    while j < content.glyphs.len()
                        invariant
                            0 <= j <= content.glyphs@.len(),
                            text@ == before + glyph_chars(content.glyphs@.take(j as int)),
                        decreases content.glyphs@.len() - j,
                    {
                        assert(glyph_chars(content.glyphs@.take(j as int + 1)) =~= glyph_chars(
                            content.glyphs@.take(j as int),
                        ).push(content.glyphs@[j as int].c));
                        text.push(content.glyphs[j].c);
                        j = j + 1;
                    }
                    assert(content.glyphs@.take(j as int) == content.glyphs@);
                },
                Element::Group(group) => {
                    assert(decreases_to!(self => self.elements@[i as int]));
                    let inner = group.frame.text();
                    let ghost before = text@;
                    let mut j: usize = 0;
                    while j < inner.len()
                        invariant
                            0 <= j <= inner@.len(),
                            text@ == before + inner@.take(j as int),
                        decreases inner@.len() - j,
                    {
                        assert(inner@.take(j as int + 1) == inner@.take(j as int).push(inner@[j as int]));
                        text.push(inner[j]);
                        j = j + 1;
                    }
                    assert(inner@.take(j as int) == inner@);
                },
                _ => {},
            }
            i = i + 1;
        }
        assert(self.elements@.take(i as int) == self.elements@);
        text
    }

    /// Add an element at a position in the foreground.
    pub fn push(&mut self, pos: Point, element: Element)
        ensures
            final(self).elems() == old(self).elems().push((pos, element)),
            final(self).size_spec() == old(self).size_spec(),
            final(self).baseline_spec() == old(self).baseline_spec(),
            final(self).role_spec() == old(self).role_spec(),
    {
        self.elements.push((pos, element));
    }

    /// Insert an element at the given layer in the frame.
    pub fn insert(&mut self, layer: usize, pos: Point, element: Element)
        requires
            layer <= old(self).elems().len(),
        ensures
            final(self).elems() == old(self).elems().insert(layer as int, (pos, element)),
            final(self).size_spec() == old(self).size_spec(),
            final(self).baseline_spec() == old(self).baseline_spec(),
            final(self).role_spec() == old(self).role_spec(),
    {
        self.elements.insert(layer, (pos, element));
    }

    /// Add an element at a position in the background.
    pub fn prepend(&mut self, pos: Point, element: Element)
        ensures
            final(self).elems() == seq![(pos, element)] + old(self).elems(),
            final(self).size_spec() == old(self).size_spec(),
            final(self).baseline_spec() == old(self).baseline_spec(),
            final(self).role_spec() == old(self).role_spec(),
    {
        self.elements.insert(0, (pos, element));
        assert(self.elements@ =~= seq![(pos, element)] + old(self).elements@);
    }

    /// Add multiple elements in the background. The first element given is
    /// the one most in the background.
    pub fn prepend_multiple(&mut self, elements: Vec<(Point, Element)>)
        ensures
            final(self).elems() == elements@ + old(self).elems(),
            final(self).size_spec() == old(self).size_spec(),
            final(self).baseline_spec() == old(self).baseline_spec(),
            final(self).role_spec() == old(self).role_spec(),
    {
        let mut src = elements;
        let ghost s0 = src@;
        let ghost base = self.elements@;
        while src.len() > 0
            invariant
                src@ == s0.take(src@.len() as int),
                src@.len() <= s0.len(),
                self.elements@ == s0.skip(src@.len() as int) + base,
                self.size == old(self).size,
                self.baseline == old(self).baseline,
                self.role == old(self).role,
            decreases src@.len(),
        {
            let ghost n = src@.len() as int;
            let e = src.pop().unwrap();
            self.elements.insert(0, e);
            assert(self.elements@ =~= s0.skip(n - 1) + base);
        }
    }

    pub open spec fn should_inline_spec(&self, frame: &Frame) -> bool {
        (self.elems().len() == 0 || frame.elems().len() <= 5) && match frame.role_spec() {
            None => true,
            Some(role) => role.weak(),
        }
    }

    /// Whether the given frame should be inlined rather than grouped.
    fn should_inline(&self, frame: &Frame) -> (r: bool)
        ensures
            r == self.should_inline_spec(frame),
    {
        (self.elements.len() == 0 || frame.elements.len() <= 5) && match frame.role {
            None => true,
            Some(role) => role.is_weak(),
        }
    }

    /// Inline the elements of a frame at the given layer, moved by `pos`.
    fn inline(&mut self, layer: usize, pos: Point, frame: Frame)
        requires
            layer <= old(self).elems().len(),
            all_shift_fit(frame.elems(), pos),
        ensures
            final(self).elems() == old(self).elems().take(layer as int) + shifted_all(frame.elems(), pos)
                + old(self).elems().skip(layer as int),
            final(self).size_spec() == old(self).size_spec(),
            final(self).baseline_spec() == old(self).baseline_spec(),
            final(self).role_spec() == old(self).role_spec(),
    {
        let mut src = frame.elements;
        let ghost s0 = src@;
        let ghost base = self.elements@;
        let zero = pos.is_zero();
        while src.len() > 0
            invariant
                src@ == s0.take(src@.len() as int),
                src@.len() <= s0.len(),
                layer <= base.len(),
                zero == (pos.x == 0 && pos.y == 0),
                all_shift_fit(s0, pos),
                self.elements@ == base.take(layer as int) + shifted_all(s0.skip(src@.len() as int), pos)
                    + base.skip(layer as int),
                self.size == old(self).size,
                self.baseline == old(self).baseline,
                self.role == old(self).role,
            decreases src@.len(),
        {
            let ghost n = src@.len() as int;
            let (p, e) = src.pop().unwrap();
            assert(s0[n - 1].0 == p);
            assert(shift_fits(s0[n - 1].0, pos));
            let q = if zero {
                p
            } else {
                Point { x: p.x + pos.x, y: p.y + pos.y }
            };
            assert(layer <= self.elements@.len());
            self.elements.insert(layer, (q, e));
            assert(shifted_all(s0.skip(n - 1), pos) =~= seq![(shifted(p, pos), e)] + shifted_all(
                s0.skip(n),
                pos,
            ));
            assert(self.elements@ =~= base.take(layer as int) + shifted_all(s0.skip(n - 1), pos)
                + base.skip(layer as int));
        }
    }

    /// Add a frame at a position in the foreground: its elements are inlined
    /// when it is small or has no descriptive role, else it becomes a group.
    pub fn push_frame(&mut self, pos: Point, frame: Frame)
        requires
            old(self).should_inline_spec(&frame) ==> all_shift_fit(frame.elems(), pos),
        ensures
            old(self).should_inline_spec(&frame) ==> final(self).elems() == old(self).elems()
                + shifted_all(frame.elems(), pos),
            !old(self).should_inline_spec(&frame) ==> final(self).elems() == old(self).elems().push(
                (pos, Element::Group(Group { frame, transform: Transform::identity_spec(), clips: false })),
            ),
            final(self).size_spec() == old(self).size_spec(),
            final(self).baseline_spec() == old(self).baseline_spec(),
            final(self).role_spec() == old(self).role_spec(),
    {
        if self.should_inline(&frame) {
            let layer = self.layer();
            self.inline(layer, pos, frame);
            assert(old(self).elems().take(layer as int) == old(self).elems());
            assert(old(self).elems().skip(layer as int) =~= Seq::<(Point, Element)>::empty());
            assert(final(self).elems() =~= old(self).elems() + shifted_all(frame.elems(), pos));
        } else {
            self.push(pos, Element::Group(Group::new(frame)));
        }
    }

    /// Add a frame at a position in the background: its elements are inlined
    /// when it is small or has no descriptive role, else it becomes a group.
    pub fn prepend_frame(&mut self, pos: Point, frame: Frame)
        requires
            old(self).should_inline_spec(&frame) ==> all_shift_fit(frame.elems(), pos),
        ensures
            old(self).should_inline_spec(&frame) ==> final(self).elems() == shifted_all(frame.elems(), pos)
                + old(self).elems(),
            !old(self).should_inline_spec(&frame) ==> final(self).elems() == seq![
                (pos, Element::Group(Group { frame, transform: Transform::identity_spec(), clips: false })),
            ] + old(self).elems(),
            final(self).size_spec() == old(self).size_spec(),
            final(self).baseline_spec() == old(self).baseline_spec(),
            final(self).role_spec() == old(self).role_spec(),
    {
        if self.should_inline(&frame) {
            self.inline(0, pos, frame);
            assert(old(self).elems().take(0) =~= Seq::<(Point, Element)>::empty());
            assert(old(self).elems().skip(0) == old(self).elems());
            assert(final(self).elems() =~= shifted_all(frame.elems(), pos) + old(self).elems());
        } else {
            self.prepend(pos, Element::Group(Group::new(frame)));
        }
    }
}

impl Frame {
    /// Remove all elements from the frame.
    pub fn clear(&mut self)
        ensures
            final(self).elems() == Seq::<(Point, Element)>::empty(),
            final(self).size_spec() == old(self).size_spec(),
            final(self).baseline_spec() == old(self).baseline_spec(),
            final(self).role_spec() == old(self).role_spec(),
    {
        self.elements = Vec::new();
    }

    /// Whether the baseline and all positions stay representable when moved
    /// by `offset`.
    pub open spec fn translate_fits(&self, offset: Point) -> bool {
        all_shift_fit(self.elems(), offset) && match self.baseline_spec() {
            Some(b) => i64::MIN <= b + offset.y <= i64::MAX,
            None => true,
        }
    }

    pub open spec fn translated_baseline(&self, offset: Point) -> Option<Length> {
        match self.baseline_spec() {
            Some(b) => Some((b + offset.y) as i64),
            None => None,
        }
    }

    /// Move the baseline and contents of the frame by an offset.
    pub fn translate(&mut self, offset: Point)
        requires
            old(self).translate_fits(offset),
        ensures
            final(self).elems() == shifted_all(old(self).elems(), offset),
            final(self).baseline_spec() == old(self).translated_baseline(offset),
            final(self).size_spec() == old(self).size_spec(),
            final(self).role_spec() == old(self).role_spec(),
    {
        if !offset.is_zero() {
            if let Some(b) = self.baseline {
                self.baseline = Some(b + offset.y);
            }
            let mut moved: Vec<(Point, Element)> = Vec::new();
            let mut src: Vec<(Point, Element)> = Vec::new();
            std::mem::swap(&mut src, &mut self.elements);
            let ghost s0 = src@;
            while src.len() > 0
                invariant
                    src@ == s0.take(src@.len() as int),
                    src@.len() <= s0.len(),
                    all_shift_fit(s0, offset),
                    moved@ == shifted_all(s0.skip(src@.len() as int), offset),
                decreases src@.len(),
            {
                let ghost n = src@.len() as int;
                let (p, e) = src.pop().unwrap();
                assert(shift_fits(s0[n - 1].0, offset));
                moved.insert(0, (Point { x: p.x + offset.x, y: p.y + offset.y }, e));
                assert(moved@ =~= shifted_all(s0.skip(n - 1), offset));
            }
            assert(s0.skip(0) == s0);
            self.elements = moved;
        } else {
            assert(shifted_all(old(self).elems(), offset) =~= old(self).elems());
        }
    }

    /// The offset by which `resize` moves the contents.
    pub open spec fn resize_offset(&self, target: Size, aligns: Spec<Align>) -> Point {
        Point {
            x: aligns.x.position_spec(target.x - self.size_spec().x) as i64,
            y: aligns.y.position_spec(target.y - self.size_spec().y) as i64,
        }
    }

    /// Resize the frame to a new size, distributing new space according to the
    /// given alignments: the contents move by the aligned share of the change.
    pub fn resize(&mut self, target: Size, aligns: Spec<Align>)
        requires
            old(self).wf(),
            target.wf(),
            old(self).size_spec() != target ==> old(self).translate_fits(
                old(self).resize_offset(target, aligns),
            ),
        ensures
            final(self).size_spec() == target,
            final(self).role_spec() == old(self).role_spec(),
            old(self).size_spec() == target ==> final(self).elems() == old(self).elems()
                && final(self).baseline_spec() == old(self).baseline_spec(),
            old(self).size_spec() != target ==> final(self).elems() == shifted_all(
                old(self).elems(),
                old(self).resize_offset(target, aligns),
            ) && final(self).baseline_spec() == old(self).translated_baseline(
                old(self).resize_offset(target, aligns),
            ),
    {
        if self.size != target {
            let offset = Point {
                x: aligns.x.position(target.x - self.size.x),
                y: aligns.y.position(target.y - self.size.y),
            };
            self.size = target;
            self.translate(offset);
        }
    }

    pub open spec fn role_after(&self, role: Role) -> Option<Role> {
        match self.role_spec() {
            None => Some(role),
            Some(prev) => if prev.weak() && !role.weak() {
                Some(role)
            } else {
                Some(prev)
            },
        }
    }

    /// Apply the given role to the frame if it has none, or only a weak one
    /// and the new one is not weak.
    pub fn apply_role(&mut self, role: Role)
        ensures
            final(self).role_spec() == old(self).role_after(role),
            final(self).size_spec() == old(self).size_spec(),
            final(self).baseline_spec() == old(self).baseline_spec(),
            final(self).elems() == old(self).elems(),
    {
        let replace = match self.role {
            None => true,
            Some(prev) => prev.is_weak() && !role.is_weak(),
        };
        if replace {
            self.role = Some(role);
        }
    }

    /// Link the whole frame to a resource.
    pub fn link(&mut self, dest: Destination)
        ensures
            final(self).elems() == old(self).elems().push(
                (Point { x: 0, y: 0 }, Element::Link(dest, old(self).size_spec())),
            ),
            final(self).size_spec() == old(self).size_spec(),
            final(self).baseline_spec() == old(self).baseline_spec(),
            final(self).role_spec() == old(self).role_spec(),
    {
        let size = self.size;
        self.push(Point::zero(), Element::Link(dest, size));
    }

    /// Whether `self` is `old` wrapped in one group with the given settings.
    pub open spec fn wraps(&self, old: Frame, transform: Transform, clips: bool) -> bool {
        &&& self.size_spec() == old.size_spec()
        &&& self.baseline_spec() == old.baseline_spec()
        &&& self.role_spec() == None::<Role>
        &&& self.elems().len() == 1
        &&& self.elems()[0].0 == Point { x: 0, y: 0 }
        &&& self.elems()[0].1 == Element::Group(Group { frame: old, transform, clips })
    }

    /// Arbitrarily transform the contents of the frame.
    pub fn transform(&mut self, transform: Transform)
        requires
            old(self).wf(),
        ensures
            final(self).wraps(*old(self), transform, false),
            final(self).wf(),
    {
        self.group(transform, false);
    }

    /// Clip the contents of a frame to its size.
    pub fn clip(&mut self)
        requires
            old(self).wf(),
        ensures
            final(self).wraps(*old(self), Transform::identity_spec(), true),
            final(self).wf(),
    {
        self.group(Transform::identity(), true);
    }

    /// Wrap the frame's contents in a group with the given settings.
    fn group(&mut self, transform: Transform, clips: bool)
        requires
            old(self).wf(),
        ensures
            final(self).wraps(*old(self), transform, clips),
            final(self).wf(),
    {
        let mut wrapper = Frame::new(self.size);
        wrapper.baseline = self.baseline;
        std::mem::swap(self, &mut wrapper);
        let mut group = Group::new(wrapper);
        group.transform = transform;
        group.clips = clips;
        self.push(Point::zero(), Element::Group(group));
    }
}

/// The building block frames are composed of.
#[derive(PartialEq, Eq)]
pub enum Element {
    /// A group of elements.
    Group(Group),
    /// A run of shaped text.
    Text(Text),
    /// A geometric shape.
    Shape(Shape),
    /// An image and its size.
    Image(Image, Size),
    /// A link to an external resource and its trigger region.
    Link(Destination, Size),
}

/// A group of elements with optional clipping.
#[derive(PartialEq, Eq)]
pub struct Group {
    /// The group's frame.
    pub frame: Frame,
    /// A transformation to apply to the group.
    pub transform: Transform,
    /// Whether the frame should be a clipping boundary.
    pub clips: bool,
}

impl Group {
    /// Create a new group with the identity transform and no clipping.
    pub fn new(frame: Frame) -> (r: Group)
        ensures
            r.frame == frame,
            r.transform == Transform::identity_spec(),
            !r.clips,
    {
        Group { frame, transform: Transform::identity(), clips: false }
    }
}

/// A run of shaped text.
#[derive(Clone, PartialEq, Eq)]
pub struct Text {
    /// The font size.
    pub size: Length,
    /// The glyphs.
    pub glyphs: Vec<Glyph>,
}

/// The sum of the advances of a run of glyphs.
pub open spec fn em_sum(glyphs: Seq<Glyph>) -> int
    decreases glyphs.len(),
{
    if glyphs.len() == 0 {
        0
    } else {
        em_sum(glyphs.drop_last()) + glyphs.last().x_advance
    }
}

impl Text {
    pub open spec fn width_spec(&self) -> int {
        tdiv(em_sum(self.glyphs@) * self.size, UNIT as int)
    }

    /// The width of the text run: the sum of the advances at the font size,
    /// rounded toward zero.
    pub fn width(&self) -> (r: Length)
        requires
            self.glyphs@.len() <= u32::MAX,
            in_range(self.size as int),
            forall|i: int| 0 <= i < self.glyphs@.len() ==> in_range(#[trigger] self.glyphs@[i].x_advance as int),
            -0x8000_0000_0000_0000 <= em_sum(self.glyphs@) <= 0x7fff_ffff_ffff_ffff,
            i64::MIN <= self.width_spec() <= i64::MAX,
        ensures
            r == self.width_spec(),
    {
        let mut sum: i128 = 0;
        let mut i: usize = 0;
        while i < self.glyphs.len()
            invariant
                0 <= i <= self.glyphs@.len(),
                self.glyphs@.len() <= u32::MAX,
                forall|k: int| 0 <= k < self.glyphs@.len() ==> in_range(#[trigger] self.glyphs@[k].x_advance as int),
                sum == em_sum(self.glyphs@.take(i as int)),
                -i * 0x1_0000_0000_0000 <= sum <= i * 0x1_0000_0000_0000,
            decreases self.glyphs@.len() - i,
        {
            assert(self.glyphs@.take(i as int + 1).drop_last() == self.glyphs@.take(i as int));
            sum = sum + self.glyphs[i].x_advance as i128;
            i = i + 1;
        }
        assert(self.glyphs@.take(i as int) == self.glyphs@);
        let total = sum as i64;
        assert(-0x8000_0000_0000_0000 * 0x1_0000_0000_0000 <= (total as int) * (self.size as int)
            <= 0x8000_0000_0000_0000 * 0x1_0000_0000_0000) by (nonlinear_arith)
            requires
                -0x8000_0000_0000_0000 <= total <= 0x7fff_ffff_ffff_ffff,
                -0x1_0000_0000_0000 <= self.size <= 0x1_0000_0000_0000,
        ;
        let w = (total as i128 * self.size as i128) / (UNIT as i128);
        w as i64
    }
}

/// A glyph in a run of shaped text.
#[derive(Clone, Copy, Debug, PartialEq, Eq, Structural)]
pub struct Glyph {
    /// The glyph's index in the font.
    pub id: u16,
    /// The advance width of the glyph.
    pub x_advance: Em,
    /// The horizontal offset of the glyph.
    pub x_offset: Em,
    /// The first character of the glyph's cluster.
    pub c: char,
}

/// A geometric shape, as the path segments that outline it.
#[derive(Clone, PartialEq, Eq)]
pub struct Shape {
    pub segments: Vec<PathSeg>,
}

/// An image, by the index under which its decoded data is kept, and its
/// pixel dimensions.
#[derive(Clone, Copy, Debug, PartialEq, Eq, Structural, Hash)]
pub struct Image {
    pub id: usize,
    pub width: u32,
    pub height: u32,
}

/// A link destination.
#[derive(Clone, PartialEq, Eq)]
pub enum Destination {
    /// A link to a point on a page.
    Internal(Location),
    /// A link to a URL.
    Url(String),
}

/// A value of a location's user-facing dictionary.
#[derive(Clone, Copy, Debug, PartialEq, Eq, Structural, Hash)]
pub enum Value {
    Int(i64),
    Length(Length),
}

/// A physical location in a document.
#[derive(Clone, Copy, Debug, PartialEq, Eq, Structural, Hash)]
pub struct Location {
    /// The page, starting at 1.
    pub page: usize,
    /// The exact coordinates on the page (from the top left, as usual).
    pub pos: Point,
}

impl Location {
    /// Pages are counted from one.
    pub open spec fn valid(&self) -> bool {
        self.page >= 1
    }

    /// Encode into a user-facing dictionary with the keys `page`, `x` and `y`.
    pub fn encode(&self) -> (r: Vec<(String, Value)>)
        ensures
            r@.len() == 3,
            r@[0].0@ == "page"@,
            r@[0].1 == Value::Int(self.page as i64),
            r@[1].0@ == "x"@,
            r@[1].1 == Value::Length(self.pos.x),
            r@[2].0@ == "y"@,
            r@[2].1 == Value::Length(self.pos.y),
    {
        let mut r: Vec<(String, Value)> = Vec::new();
        r.push(("page".to_owned(), Value::Int(self.page as i64)));
        r.push(("x".to_owned(), Value::Length(self.pos.x)));
        r.push(("y".to_owned(), Value::Length(self.pos.y)));
        r
    }
}

/// A semantic role of a frame.
#[derive(Clone, Copy, Debug, PartialEq, Eq, Structural, Hash)]
pub enum Role {
    /// A paragraph.
    Paragraph,
    /// A heading of the given level (starting at 1) and whether it should be
    /// part of the outline.
    Heading { level: usize, outlined: bool },
    /// A generic block-level subdivision.
    GenericBlock,
    /// A generic inline subdivision.
    GenericInline,
    /// A list and whether it is ordered.
    List { ordered: bool },
    /// A list item. Must have a list parent.
    ListItem,
    /// The label of a list item. Must have a list item parent.
    ListLabel,
    /// The body of a list item. Must have a list item parent.
    ListItemBody,
    /// A mathematical formula.
    Formula,
    /// A table.
    Table,
    /// A table row. Must have a table parent.
    TableRow,
    /// A table cell. Must have a table row parent.
    TableCell,
    /// A code fragment.
    Code,
    /// A page header.
    Header,
    /// A page footer.
    Footer,
    /// A page background.
    Background,
    /// A page foreground.
    Foreground,
}

impl Role {
    /// Heading levels are counted from one.
    pub open spec fn valid(self) -> bool {
        match self {
            Role::Heading { level, .. } => level >= 1,
            _ => true,
        }
    }

    pub open spec fn weak(self) -> bool {
        self is Paragraph || self is GenericBlock || self is GenericInline
    }

    /// Whether the role describes a generic element and is not very
    /// descriptive. All text sits in a paragraph, so a paragraph is weak.
    pub fn is_weak(self) -> (r: bool)
        ensures
            r == self.weak(),
    {
        match self {
            Role::Paragraph | Role::GenericBlock | Role::GenericInline => true,
            _ => false,
        }
    }
}

} // verus!
