//! Layout of the bar: where each item of a section starts, how wide it is,
//! which item a click hits, and which item the pointer hovers.
use vstd::prelude::*;
use crate::renderer::{powerline_width, powerline_width_spec};
use crate::types::{Alignment, PowerlineDirection, PowerlineFill, PowerlineStyle, RGBA};

verus! {

/// Total width of items.
pub open spec fn sum_widths(ws: Seq<u32>) -> int
    decreases ws.len(),
{
    if ws.len() == 0 {
        0
    } else {
        sum_widths(ws.drop_last()) + ws.last()
    }
}

/// Where a section of total width `total` starts on a bar `width` pixels
/// wide: at the left edge, centered, or flush right (at the left edge when
/// it does not fit).
pub open spec fn section_start(align: Alignment, width: u32, total: int) -> int {
    let free = if width >= total { width - total } else { 0 };
    match align {
        Alignment::Left => 0,
        Alignment::Center => free / 2,
        Alignment::Right => free,
    }
}

proof fn lemma_sum_monotone(ws: Seq<u32>, i: int, j: int)
    requires
        0 <= i <= j <= ws.len(),
    ensures
        sum_widths(ws.take(i)) <= sum_widths(ws.take(j)),
        sum_widths(ws.take(i)) >= 0,
    decreases j - i,
{
    if i < j {
        lemma_sum_monotone(ws, i, j - 1);
        assert(ws.take(j).drop_last() =~= ws.take(j - 1));
    } else {
        lemma_sum_nonneg(ws.take(i));
    }
}

proof fn lemma_sum_nonneg(ws: Seq<u32>)
    ensures
        sum_widths(ws) >= 0,
    decreases ws.len(),
{
    if ws.len() > 0 {
        lemma_sum_nonneg(ws.drop_last());
    }
}

/// Start position of every item of a section whose items have the widths
/// `widths`: each item starts where the previous one ends.
pub fn section_positions(align: Alignment, width: u32, widths: &Vec<u32>) -> (pos: Vec<u32>)
    requires
        section_start(align, width, sum_widths(widths@)) + sum_widths(widths@) <= u32::MAX,
    ensures
        pos@.len() == widths@.len(),
        forall|i: int| 0 <= i < pos@.len() ==>
            pos@[i] == section_start(align, width, sum_widths(widths@)) + sum_widths(widths@.take(i)),
{
    let n = widths.len();
    let mut total: u32 = 0;
    let mut i: usize = 0;
    proof {
        lemma_sum_nonneg(widths@);
    }
    while i < n
        invariant
            n == widths@.len(),
            i <= n,
            total == sum_widths(widths@.take(i as int)),
            section_start(align, width, sum_widths(widths@)) + sum_widths(widths@) <= u32::MAX,
            sum_widths(widths@) >= 0,
        decreases n - i,
    {
        proof {
            lemma_sum_monotone(widths@, i + 1, n as int);
            assert(widths@.take(n as int) =~= widths@);
            assert(widths@.take(i + 1).drop_last() =~= widths@.take(i as int));
        }
        total = total + widths[i];
        i += 1;
    }
    assert(widths@.take(n as int) =~= widths@);
    let free: u32 = if width >= total { width - total } else { 0 };
    let start: u32 = match align {
        Alignment::Left => 0,
        Alignment::Center => free / 2,
        Alignment::Right => free,
    };
    let mut pos: Vec<u32> = Vec::new();
    let mut cursor: u32 = start;
    let mut k: usize = 0;
    while k < n
        invariant
            n == widths@.len(),
            k <= n,
            start == section_start(align, width, sum_widths(widths@)),
            start + sum_widths(widths@) <= u32::MAX,
            cursor == start + sum_widths(widths@.take(k as int)),
            pos@.len() == k,
            forall|i: int| 0 <= i < k ==> pos@[i] == start + sum_widths(widths@.take(i)),
        decreases n - k,
    {
        pos.push(cursor);
        proof {
            lemma_sum_monotone(widths@, k + 1, n as int);
            assert(widths@.take(n as int) =~= widths@);
            assert(widths@.take(k + 1).drop_last() =~= widths@.take(k as int));
        }
        cursor = cursor + widths[k];
        k += 1;
    }
    pos
}

/// Items laid out one after another never overlap: each ends at or before
/// the start of every later one.
pub proof fn law_items_do_not_overlap(align: Alignment, width: u32, widths: Seq<u32>, pos: Seq<u32>, i: int, j: int)
    requires
        pos.len() == widths.len(),
        forall|k: int| 0 <= k < pos.len() ==>
            pos[k] == section_start(align, width, sum_widths(widths)) + sum_widths(widths.take(k)),
        0 <= i < j < pos.len(),
    ensures
        pos[i] + widths[i] <= pos[j],
{
    lemma_sum_monotone(widths, i + 1, j);
    assert(widths.take(i + 1).drop_last() =~= widths.take(i));
}

/// `i` is the first zone that holds the position `x`.
pub open spec fn is_first_zone(zones: Seq<(u32, u32)>, x: u32, i: int) -> bool {
    0 <= i < zones.len() && zones[i].0 <= x < zones[i].1
        && forall|j: int| 0 <= j < i ==> !((#[trigger] zones[j]).0 <= x && x < zones[j].1)
}

/// The first zone `[start, end)` that holds the position `x`, if any.
pub open spec fn zone_at(zones: Seq<(u32, u32)>, x: u32) -> Option<int> {
    if exists|i: int| is_first_zone(zones, x, i) {
        Some(choose|i: int| is_first_zone(zones, x, i))
    } else {
        None
    }
}

proof fn lemma_first_zone_unique(zones: Seq<(u32, u32)>, x: u32, i: int)
    requires
        is_first_zone(zones, x, i),
    ensures
        zone_at(zones, x) == Some(i),
{
    let k = choose|k: int| is_first_zone(zones, x, k);
    assert(is_first_zone(zones, x, k));
    if k < i {
        assert(!(zones[k].0 <= x < zones[k].1));
    }
    if i < k {
        assert(!(zones[i].0 <= x < zones[i].1));
    }
}

/// The zone hit by a click at `x`: the first zone that holds it.
pub fn hit_zone(zones: &Vec<(u32, u32)>, x: u32) -> (r: Option<usize>)
    ensures
        match r {
            Some(i) => zone_at(zones@, x) == Some(i as int),
            None => zone_at(zones@, x) is None,
        },
{
    let mut i: usize = 0;
    while i < zones.len()
        invariant
            i <= zones@.len(),
            forall|j: int| 0 <= j < i ==> !((#[trigger] zones@[j]).0 <= x && x < zones@[j].1),
        decreases zones@.len() - i,
    {
        let (s, e) = zones[i];
        if s <= x && x < e {
            proof {
                lemma_first_zone_unique(zones@, x, i as int);
            }
            return Some(i);
        }
        i += 1;
    }
    assert(!exists|k: int| is_first_zone(zones@, x, k));
    None
}

/// The hover state of one bar surface: the last pointer position on it and
/// the hover zone that is lit.
#[derive(Debug, Clone, Copy, PartialEq, Eq, Structural)]
pub struct HoverTracker {
    pub pointer: Option<u32>,
    pub active: Option<usize>,
}

/// What the bar does to the hover flags after an update: whether the lit
/// zone changed, which zone's flag to clear and which zone's flag to set.
#[derive(Debug, Clone, Copy, PartialEq, Eq, Structural)]
pub struct HoverUpdate {
    pub changed: bool,
    pub clear: Option<usize>,
    pub set: Option<usize>,
}

/// The zone that the pointer position `p` lies in.
pub open spec fn pointed_zone(zones: Seq<(u32, u32)>, p: Option<u32>) -> Option<int> {
    match p {
        Some(x) => zone_at(zones, x),
        None => None,
    }
}

/// An optional zone index as an integer.
pub open spec fn opt_int(a: Option<usize>) -> Option<int> {
    match a {
        Some(i) => Some(i as int),
        None => None,
    }
}

/// Result of re-evaluating the hover state `t` against the zones `zones`.
pub open spec fn hover_step(t: HoverTracker, zones: Seq<(u32, u32)>, next: HoverTracker, u: HoverUpdate) -> bool {
    let new = pointed_zone(zones, t.pointer);
    if new == opt_int(t.active) {
        &&& !u.changed
        &&& u.clear is None
        &&& u.set is None
        &&& next == t
    } else {
        &&& u.changed
        &&& next.pointer == t.pointer
        &&& opt_int(next.active) == new
        &&& u.set == next.active
        &&& u.clear == match t.active {
            Some(p) => if p < zones.len() { Some(p) } else { None },
            None => None,
        }
    }
}

impl HoverTracker {
    /// A surface that the pointer has not entered.
    pub fn new() -> (t: HoverTracker)
        ensures
            t.pointer is None,
            t.active is None,
    {
        HoverTracker { pointer: None, active: None }
    }

    /// Re-evaluates which zone the pointer is over (after a redraw moved the
    /// zones, or after the pointer moved).
    pub fn update(&mut self, zones: &Vec<(u32, u32)>) -> (u: HoverUpdate)
        ensures
            hover_step(*old(self), zones@, *final(self), u),
    {
        let new = match self.pointer {
            Some(x) => hit_zone(zones, x),
            None => None,
        };
        if new == self.active {
            return HoverUpdate { changed: false, clear: None, set: None };
        }
        let clear = match self.active {
            Some(p) => if p < zones.len() { Some(p) } else { None },
            None => None,
        };
        self.active = new;
        HoverUpdate { changed: true, clear, set: new }
    }

    /// The pointer moved to `x` on this surface.
    pub fn pointer_moved(&mut self, x: u32, zones: &Vec<(u32, u32)>) -> (u: HoverUpdate)
        ensures
            hover_step(HoverTracker { pointer: Some(x), ..*old(self) }, zones@, *final(self), u),
    {
        self.pointer = Some(x);
        self.update(zones)
    }

    /// The pointer left this surface.
    pub fn pointer_left(&mut self, zones: &Vec<(u32, u32)>) -> (u: HoverUpdate)
        ensures
            hover_step(HoverTracker { pointer: None, ..*old(self) }, zones@, *final(self), u),
    {
        self.pointer = None;
        self.update(zones)
    }
}

/// After an update the lit zone is the one under the pointer, so updating
/// again with the same zones changes nothing.
pub proof fn law_hover_settles(t: HoverTracker, zones: Seq<(u32, u32)>, t1: HoverTracker, u1: HoverUpdate, t2: HoverTracker, u2: HoverUpdate)
    requires
        hover_step(t, zones, t1, u1),
        hover_step(t1, zones, t2, u2),
    ensures
        opt_int(t1.active) == pointed_zone(zones, t.pointer),
        !u2.changed,
        t2 == t1,
{
}

/// What an item occupies on the bar, as far as its width is concerned.
#[derive(Debug, Clone, Copy, PartialEq, Eq, Structural)]
pub enum ShapeKind {
    Text,
    CircledText,
    RingedText,
    /// A separator: its style, fill and direction.
    Powerline(PowerlineStyle, PowerlineFill, PowerlineDirection),
    Spinner,
    /// An icon of the given width.
    Icon(u32),
    /// Horizontal space of the given width.
    HSpace(u32),
}

/// Width of an item on a bar `height` pixels high, whose text (if any) is
/// `text_w` pixels wide.
pub open spec fn item_width_spec(shape: ShapeKind, height: u32, text_w: u32) -> int {
    match shape {
        ShapeKind::Text => text_w as int,
        ShapeKind::CircledText | ShapeKind::RingedText => {
            let padded = text_w + height / 4;
            if height >= padded { height as int } else { padded }
        },
        ShapeKind::Powerline(style, _, _) => powerline_width_spec(height, style),
        ShapeKind::Spinner => height as int,
        ShapeKind::Icon(w) => w as int,
        ShapeKind::HSpace(w) => w as int,
    }
}

/// Width of an item on a bar `height` pixels high, whose text (if any) is
/// `text_w` pixels wide: circled text is at least as wide as the bar is high.
pub fn item_width(shape: ShapeKind, height: u32, text_w: u32) -> (w: u32)
    requires
        (shape is CircledText || shape is RingedText) ==> text_w + height / 4 <= u32::MAX,
        shape matches ShapeKind::Powerline(s, _, _) && s is Octagon ==> height < u32::MAX,
    ensures
        w == item_width_spec(shape, height, text_w),
{
    match shape {
        ShapeKind::Text => text_w,
        ShapeKind::CircledText | ShapeKind::RingedText => {
            let padded = text_w + height / 4;
            if height >= padded { height } else { padded }
        },
        ShapeKind::Powerline(style, _, _) => powerline_width(height, style),
        ShapeKind::Spinner => crate::renderer::spinner_size(height),
        ShapeKind::Icon(w) => w,
        ShapeKind::HSpace(w) => w,
    }
}

/// Left and right end colors of a fade between a section's background `bg`
/// and the next section's color `fg`: the more opaque of the two colors,
/// fully transparent at the side of the less opaque one.
pub open spec fn fade_colors_spec(direction: PowerlineDirection, bg: RGBA, fg: RGBA) -> (RGBA, RGBA) {
    let (l, r) = match direction {
        PowerlineDirection::Left => (bg, fg),
        PowerlineDirection::Right => (fg, bg),
    };
    let solid = if l.3 >= r.3 { l } else { r };
    let left = if l.3 >= r.3 { solid } else { (solid.0, solid.1, solid.2, 0u8) };
    let right = if r.3 >= l.3 { solid } else { (solid.0, solid.1, solid.2, 0u8) };
    (left, right)
}

/// Left and right end colors of a fade separator.
pub fn fade_colors(direction: PowerlineDirection, bg: RGBA, fg: RGBA) -> (r: (RGBA, RGBA))
    ensures
        r == fade_colors_spec(direction, bg, fg),
{
    let (l, r) = match direction {
        PowerlineDirection::Left => (bg, fg),
        PowerlineDirection::Right => (fg, bg),
    };
    let solid = if l.3 >= r.3 { l } else { r };
    let left = if l.3 >= r.3 { solid } else { (solid.0, solid.1, solid.2, 0u8) };
    let right = if r.3 >= l.3 { solid } else { (solid.0, solid.1, solid.2, 0u8) };
    (left, right)
}

/// What is drawn over an item's background and under its text.
#[derive(Debug, Clone, Copy, PartialEq, Eq, Structural)]
pub enum Decoration {
    /// A filled circle (the item is no wider than the bar is high).
    Circle,
    /// A filled pill (a wider item).
    Pill,
    /// A circle outline.
    Ring,
    /// A pill outline.
    PillRing,
}

/// What is drawn as an item's content.
#[derive(Debug, Clone, Copy)]
pub enum ContentOp {
    /// The item's text, from `x` on.
    Text { x: u32 },
    /// A horizontal gradient over the item between two colors.
    Gradient { left: RGBA, right: RGBA },
    /// A separator's polygons of the given style, in the item's
    /// foreground color.
    Polys { style: PowerlineStyle, direction: PowerlineDirection, fill: PowerlineFill },
    /// The spinner.
    Spinner,
    /// The icon.
    Icon,
    /// Nothing (empty space).
    Nothing,
}

/// How one item of a section is drawn: where it starts, how wide it is,
/// whether its background is filled, its decoration and its content.
#[derive(Debug, Clone, Copy)]
pub struct ItemPlan {
    pub x: u32,
    pub width: u32,
    pub background: bool,
    pub decoration: Option<Decoration>,
    pub content: ContentOp,
}

/// How an item of shape `shape`, placed at `x` and `w` pixels wide on a
/// bar `height` pixels high, with text `text_w` pixels wide (if any) and
/// colors `bg` and `fg`, is drawn. A full fade is drawn as a gradient
/// instead of a background; circled and ringed text is centered in the
/// bar's height; a sparse fade is drawn as a powerline outline.
pub open spec fn plan_item_spec(shape: ShapeKind, x: u32, w: u32, height: u32, text_w: u32, bg: RGBA, fg: RGBA) -> ItemPlan {
    let centered = x + (if height >= text_w { (height - text_w) / 2 } else { 0 });
    ItemPlan {
        x,
        width: w,
        background: !(shape matches ShapeKind::Powerline(s, f, _) && s is Fade && f is Full),
        decoration: match shape {
            ShapeKind::CircledText => Some(if w <= height { Decoration::Circle } else { Decoration::Pill }),
            ShapeKind::RingedText => Some(if w <= height { Decoration::Ring } else { Decoration::PillRing }),
            _ => None,
        },
        content: match shape {
            ShapeKind::Text => ContentOp::Text { x },
            ShapeKind::CircledText | ShapeKind::RingedText => ContentOp::Text { x: centered as u32 },
            ShapeKind::Powerline(s, f, d) => if s is Fade && f is Full {
                let (l, r) = fade_colors_spec(d, bg, fg);
                ContentOp::Gradient { left: l, right: r }
            } else if s is Fade {
                ContentOp::Polys { style: PowerlineStyle::Powerline, direction: d, fill: f }
            } else {
                ContentOp::Polys { style: s, direction: d, fill: f }
            },
            ShapeKind::Spinner => ContentOp::Spinner,
            ShapeKind::Icon(_) => ContentOp::Icon,
            ShapeKind::HSpace(_) => ContentOp::Nothing,
        },
    }
}

/// How an item is drawn (see `plan_item_spec`).
pub fn plan_item(shape: ShapeKind, x: u32, w: u32, height: u32, text_w: u32, bg: RGBA, fg: RGBA) -> (r: ItemPlan)
    requires
        (shape is CircledText || shape is RingedText) ==>
            x + (if height >= text_w { (height - text_w) / 2 } else { 0 }) <= u32::MAX,
    ensures
        r == plan_item_spec(shape, x, w, height, text_w, bg, fg),
{
    let background = match shape {
        ShapeKind::Powerline(PowerlineStyle::Fade, PowerlineFill::Full, _) => false,
        _ => true,
    };
    let decoration = match shape {
        ShapeKind::CircledText => Some(if w <= height { Decoration::Circle } else { Decoration::Pill }),
        ShapeKind::RingedText => Some(if w <= height { Decoration::Ring } else { Decoration::PillRing }),
        _ => None,
    };
    let content = match shape {
        ShapeKind::Text => ContentOp::Text { x },
        ShapeKind::CircledText | ShapeKind::RingedText => {
            let off = if height >= text_w { (height - text_w) / 2 } else { 0 };
            ContentOp::Text { x: x + off }
        },
        ShapeKind::Powerline(s, f, d) => match (s, f) {
            (PowerlineStyle::Fade, PowerlineFill::Full) => {
                let (l, r) = fade_colors(d, bg, fg);
                ContentOp::Gradient { left: l, right: r }
            },
            (PowerlineStyle::Fade, _) => ContentOp::Polys { style: PowerlineStyle::Powerline, direction: d, fill: f },
            _ => ContentOp::Polys { style: s, direction: d, fill: f },
        },
        ShapeKind::Spinner => ContentOp::Spinner,
        ShapeKind::Icon(_) => ContentOp::Icon,
        ShapeKind::HSpace(_) => ContentOp::Nothing,
    };
    ItemPlan { x, width: w, background, decoration, content }
}

/// The zones `[start, end)` of the marked items, with each item's index, in
/// order (the click zones of items with a click handler, the hover zones
/// of items with a hover flag).
pub open spec fn zones_spec(pos: Seq<u32>, widths: Seq<u32>, marked: Seq<bool>, n: int) -> Seq<(u32, u32, usize)>
    decreases n,
{
    if n <= 0 {
        Seq::empty()
    } else {
        let rest = zones_spec(pos, widths, marked, n - 1);
        if marked[n - 1] {
            rest.push((pos[n - 1], (pos[n - 1] + widths[n - 1]) as u32, (n - 1) as usize))
        } else {
            rest
        }
    }
}

/// The zones of the marked items of a section whose items start at `pos`
/// and have the widths `widths`.
pub fn item_zones(pos: &Vec<u32>, widths: &Vec<u32>, marked: &Vec<bool>) -> (r: Vec<(u32, u32, usize)>)
    requires
        pos@.len() == widths@.len(),
        marked@.len() == widths@.len(),
        forall|i: int| 0 <= i < pos@.len() ==> pos@[i] + widths@[i] <= u32::MAX,
    ensures
        r@ == zones_spec(pos@, widths@, marked@, pos@.len() as int),
{
    let mut r: Vec<(u32, u32, usize)> = Vec::new();
    let mut i: usize = 0;
    while i < pos.len()
        invariant
            pos@.len() == widths@.len(),
            marked@.len() == widths@.len(),
            forall|k: int| 0 <= k < pos@.len() ==> pos@[k] + widths@[k] <= u32::MAX,
            i <= pos@.len(),
            r@ == zones_spec(pos@, widths@, marked@, i as int),
        decreases pos@.len() - i,
    {
        if marked[i] {
            r.push((pos[i], pos[i] + widths[i], i));
        }
        i += 1;
    }
    r
}

} // verus!
