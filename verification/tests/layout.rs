use schrottbar::layout::{fade_colors, hit_zone, item_width, item_zones, plan_item, section_positions, ContentOp, Decoration, HoverTracker, ShapeKind};
use schrottbar::outputs::{configured_size, initial_surface_width, output_order, output_size, pool_size, updated_output_size};
use schrottbar::renderer::{baseline_offset, canvas_offset, clamp_rect, glyph_alpha, icon_y_offset, powerline_width, spinner_size, GlyphContent};
use schrottbar::scheduler::{AfterDrain, DrainStep, LoopEvent, LoopStep, RedrawScheduler};
use schrottbar::sort::stable_order;
use schrottbar::types::{Alignment, MainAction, PowerlineDirection, PowerlineFill, PowerlineStyle};

#[test]
fn sections_are_placed_left_centered_and_right() {
    let w = vec![10u32, 20, 30];
    assert_eq!(section_positions(Alignment::Left, 100, &w), vec![0, 10, 30]);
    assert_eq!(section_positions(Alignment::Center, 100, &w), vec![20, 30, 50]);
    assert_eq!(section_positions(Alignment::Right, 100, &w), vec![40, 50, 70]);
    assert_eq!(section_positions(Alignment::Right, 50, &w), vec![0, 10, 30]);
}

#[test]
fn items_placed_in_a_row_do_not_overlap() {
    let w = vec![7u32, 0, 5, 9];
    let p = section_positions(Alignment::Center, 40, &w);
    for i in 0..p.len() {
        for j in (i + 1)..p.len() {
            assert!(p[i] + w[i] <= p[j]);
        }
    }
}

#[test]
fn clicks_hit_the_first_zone_holding_them() {
    let zones = vec![(0u32, 10u32), (10, 20), (15, 30)];
    assert_eq!(hit_zone(&zones, 0), Some(0));
    assert_eq!(hit_zone(&zones, 10), Some(1));
    assert_eq!(hit_zone(&zones, 17), Some(1));
    assert_eq!(hit_zone(&zones, 25), Some(2));
    assert_eq!(hit_zone(&zones, 30), None);
}

#[test]
fn hover_follows_the_pointer_and_settles() {
    let zones = vec![(0u32, 10u32), (10, 20)];
    let mut t = HoverTracker::new();
    let u = t.pointer_moved(5, &zones);
    assert!(u.changed && u.clear.is_none() && u.set == Some(0));
    let u = t.pointer_moved(15, &zones);
    assert!(u.changed && u.clear == Some(0) && u.set == Some(1));
    let u = t.update(&zones);
    assert!(!u.changed);
    let u = t.pointer_left(&zones);
    assert!(u.changed && u.clear == Some(1) && u.set.is_none());
    assert!(t.active.is_none());
}

#[test]
fn item_widths_by_shape() {
    assert_eq!(item_width(ShapeKind::Text, 30, 57), 57);
    assert_eq!(item_width(ShapeKind::CircledText, 30, 10), 30);
    assert_eq!(item_width(ShapeKind::CircledText, 30, 40), 47);
    assert_eq!(item_width(ShapeKind::Powerline(PowerlineStyle::Powerline, PowerlineFill::Full, PowerlineDirection::Left), 31, 0), 16);
    assert_eq!(item_width(ShapeKind::Powerline(PowerlineStyle::Octagon, PowerlineFill::No, PowerlineDirection::Right), 31, 0), 8);
    assert_eq!(item_width(ShapeKind::Powerline(PowerlineStyle::Block, PowerlineFill::No, PowerlineDirection::Right), 31, 0), 3);
    assert_eq!(item_width(ShapeKind::Powerline(PowerlineStyle::Fade, PowerlineFill::Full, PowerlineDirection::Right), 31, 0), 15);
    assert_eq!(item_width(ShapeKind::Spinner, 31, 0), 31);
    assert_eq!(item_width(ShapeKind::Icon(24), 31, 0), 24);
    assert_eq!(item_width(ShapeKind::HSpace(20), 31, 0), 20);
}

#[test]
fn powerline_widths_and_spinner() {
    assert_eq!(powerline_width(25, PowerlineStyle::Powerline), 13);
    assert_eq!(powerline_width(25, PowerlineStyle::Circle), 13);
    assert_eq!(powerline_width(25, PowerlineStyle::Octagon), 6);
    assert_eq!(powerline_width(24, PowerlineStyle::Fade), 12);
    assert_eq!(spinner_size(25), 25);
}

#[test]
fn fade_goes_from_the_opaque_color_to_transparent() {
    let bg = (10, 20, 30, 255);
    let fg = (1, 2, 3, 0);
    assert_eq!(fade_colors(PowerlineDirection::Left, bg, fg), (bg, (10, 20, 30, 0)));
    assert_eq!(fade_colors(PowerlineDirection::Right, bg, fg), ((10, 20, 30, 0), bg));
}

#[test]
fn draw_plans_by_shape() {
    let bg = (10, 20, 30, 255);
    let fg = (1, 2, 3, 0);
    let p = plan_item(ShapeKind::CircledText, 100, 30, 30, 10, bg, fg);
    assert!(p.background);
    assert_eq!(p.decoration, Some(Decoration::Circle));
    assert!(matches!(p.content, ContentOp::Text { x: 110 }));
    let p = plan_item(ShapeKind::RingedText, 100, 47, 30, 40, bg, fg);
    assert_eq!(p.decoration, Some(Decoration::PillRing));
    assert!(matches!(p.content, ContentOp::Text { x: 100 }));
    let p = plan_item(ShapeKind::Powerline(PowerlineStyle::Fade, PowerlineFill::Full, PowerlineDirection::Left), 0, 15, 30, 0, bg, fg);
    assert!(!p.background);
    assert!(matches!(p.content, ContentOp::Gradient { left: (10, 20, 30, 255), right: (10, 20, 30, 0) }));
    let p = plan_item(ShapeKind::Powerline(PowerlineStyle::Fade, PowerlineFill::No, PowerlineDirection::Left), 0, 15, 30, 0, bg, fg);
    assert!(p.background);
    assert!(matches!(p.content, ContentOp::Polys { style: PowerlineStyle::Powerline, .. }));
    let p = plan_item(ShapeKind::HSpace(4), 7, 4, 30, 0, bg, fg);
    assert!(matches!(p.content, ContentOp::Nothing));
    assert_eq!(p.decoration, None);
}

#[test]
fn zones_of_marked_items() {
    let z = item_zones(&vec![0, 10, 30], &vec![10, 20, 5], &vec![true, false, true]);
    assert_eq!(z, vec![(0, 10, 0), (30, 35, 2)]);
}

#[test]
fn rectangles_are_clamped_to_the_canvas() {
    assert_eq!(clamp_rect(100, 30, 90, 0, 20, 30), Some((10, 30)));
    assert_eq!(clamp_rect(100, 30, 100, 0, 20, 30), None);
    assert_eq!(clamp_rect(100, 30, 120, 0, 20, 30), None);
    assert_eq!(clamp_rect(100, 30, 0, 10, 5, 50), Some((5, 20)));
}

#[test]
fn text_and_icon_placement() {
    assert_eq!(baseline_offset(30, 15, 5), 20);
    assert_eq!(icon_y_offset(30, 24), 3);
    assert_eq!(icon_y_offset(20, 24), 0);
}

#[test]
fn glyph_coverage_by_content_kind() {
    let data = [1u8, 2, 3, 4, 5, 6, 7, 8];
    assert_eq!(glyph_alpha(GlyphContent::Mask, &data, 2), 3);
    assert_eq!(glyph_alpha(GlyphContent::Color, &data, 1), 8);
    assert_eq!(glyph_alpha(GlyphContent::SubpixelMask, &data, 1), 5);
    assert_eq!(glyph_alpha(GlyphContent::Color, &data, 2), 0);
}

#[test]
fn canvas_offsets_and_clipping() {
    assert_eq!(canvas_offset(3, 2, 10, 5), Some(92));
    assert_eq!(canvas_offset(-1, 2, 10, 5), None);
    assert_eq!(canvas_offset(10, 2, 10, 5), None);
    assert_eq!(canvas_offset(0, 5, 10, 5), None);
}

#[test]
fn stable_order_keeps_ties_in_place() {
    let keys = vec![(1u64, 0u64, 0u64), (0, 5, 0), (1, 0, 0), (0, 1, 0)];
    assert_eq!(stable_order(&keys), vec![3, 1, 0, 2]);
}

#[test]
fn outputs_are_ordered_left_to_right_then_top_to_bottom() {
    let p = vec![(1920, 0), (0, 1080), (0, 0), (-1280, 500)];
    assert_eq!(output_order(&p), vec![3, 2, 1, 0]);
}

#[test]
fn output_and_surface_sizes() {
    assert_eq!(initial_surface_width(0), 1920);
    assert_eq!(initial_surface_width(2560), 2560);
    assert_eq!(pool_size(1920, 30), 230400);
    assert_eq!(output_size(Some((2560, 1440))), (2560, 1440));
    assert_eq!(output_size(None), (0, 0));
    assert_eq!(updated_output_size((1, 2), None), (1, 2));
    assert_eq!(updated_output_size((1, 2), Some((3, 4))), (3, 4));
    assert_eq!(configured_size((1920, 30), (2560, 0)), (2560, 30, false));
    assert_eq!(configured_size((1920, 30), (0, 32)), (1920, 32, true));
}

#[test]
fn redraw_requests_are_coalesced_and_rate_limited() {
    let mut s = RedrawScheduler::new();
    assert_eq!(s.wait_ms(0), None);
    assert_eq!(s.on_event(LoopEvent::Request(Some(MainAction::Redraw))), LoopStep::Drain(AfterDrain::RedrawWhenDue));
    assert_eq!(RedrawScheduler::drain_step(Some(MainAction::Redraw)), DrainStep::Coalesce);
    assert_eq!(RedrawScheduler::drain_step(None), DrainStep::Finished);
    assert!(!s.after_drain(AfterDrain::RedrawWhenDue, 40));
    assert!(s.pending);
    assert_eq!(s.wait_ms(40), Some(60));
    assert_eq!(s.wait_ms(150), Some(0));
    assert_eq!(s.on_event(LoopEvent::Deadline), LoopStep::Drain(AfterDrain::Redraw));
    assert!(s.after_drain(AfterDrain::Redraw, 100));
    assert!(!s.pending);
    assert!(s.after_drain(AfterDrain::RedrawWhenDue, 100));
}

#[test]
fn terminate_and_reinit_requests() {
    let s = RedrawScheduler::new();
    assert_eq!(s.on_event(LoopEvent::Request(Some(MainAction::Terminate))), LoopStep::Stop);
    assert_eq!(s.on_event(LoopEvent::Interrupt), LoopStep::Stop);
    assert_eq!(s.on_event(LoopEvent::Request(Some(MainAction::Reinit))), LoopStep::RebuildBar);
    assert_eq!(s.on_event(LoopEvent::Deadline), LoopStep::Continue);
    assert_eq!(s.on_event(LoopEvent::Request(None)), LoopStep::Continue);
    assert_eq!(RedrawScheduler::drain_step(Some(MainAction::Terminate)), DrainStep::Stop);
    assert_eq!(RedrawScheduler::drain_step(Some(MainAction::Reinit)), DrainStep::RebuildBar);
}
