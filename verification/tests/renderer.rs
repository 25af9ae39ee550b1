use framebuf::pixel_buffer::ZERO_COLOR;
use framebuf::renderer::GRID_COLOR;
use framebuf::renderer::Renderer;

#[test]
fn rect_sets_inside_and_leaves_outside() {
    let mut r = Renderer::new(10, 10);
    r.draw_rect(2, 2, 3, 3, 0xFFFF0000);
    assert_eq!(r.get_pixel(3, 3), 0xFFFF0000);
    assert_eq!(r.get_pixel(0, 0), ZERO_COLOR);
    for y in 0..10u32 {
        for x in 0..10u32 {
            let inside = (2..5).contains(&x) && (2..5).contains(&y);
            let expected = if inside { 0xFFFF0000 } else { ZERO_COLOR };
            assert_eq!(r.get_pixel(x as usize, y as usize), expected);
        }
    }
}

#[test]
fn rect_near_the_edge_is_clipped_silently() {
    let mut r = Renderer::new(10, 10);
    r.draw_rect(2, 2, 3, 3, 0xFFFF0000);
    r.draw_rect(8, 8, 5, 5, 0xFF00FF00);
    assert_eq!(r.get_pixel(9, 9), 0xFF00FF00);
    assert_eq!(r.get_pixel(8, 8), 0xFF00FF00);
    assert_eq!(r.get_pixel(7, 8), ZERO_COLOR);
    assert_eq!(r.get_pixel(3, 3), 0xFFFF0000);
}

#[test]
fn rect_fully_off_buffer_changes_nothing() {
    let mut r = Renderer::new(10, 10);
    r.draw_rect(10, 10, 4, 4, 0xFFFFFFFF);
    for y in 0..10 {
        for x in 0..10 {
            assert_eq!(r.get_pixel(x, y), ZERO_COLOR);
        }
    }
}

#[test]
fn empty_rect_changes_nothing() {
    let mut r = Renderer::new(10, 10);
    r.draw_rect(3, 3, 0, 5, 0xFFFFFFFF);
    r.draw_rect(3, 3, 5, 0, 0xFFFFFFFF);
    for y in 0..10 {
        for x in 0..10 {
            assert_eq!(r.get_pixel(x, y), ZERO_COLOR);
        }
    }
}

#[test]
fn grid_sets_exactly_the_intersection_dots() {
    let mut r = Renderer::new(4, 4);
    r.draw_grid(2);
    for y in 0..4 {
        for x in 0..4 {
            let dot = x % 2 == 0 && y % 2 == 0;
            let expected = if dot { GRID_COLOR } else { ZERO_COLOR };
            assert_eq!(r.get_pixel(x, y), expected);
        }
    }
    assert_eq!(r.get_pixel(0, 0), GRID_COLOR);
    assert_eq!(r.get_pixel(0, 2), GRID_COLOR);
    assert_eq!(r.get_pixel(2, 0), GRID_COLOR);
    assert_eq!(r.get_pixel(2, 2), GRID_COLOR);
    assert_eq!(r.get_pixel(1, 1), ZERO_COLOR);
}

#[test]
fn grid_leaves_other_pixels_unchanged() {
    let mut r = Renderer::new(4, 4);
    r.draw_rect(1, 1, 1, 1, 0xFF654321);
    r.draw_grid(2);
    assert_eq!(r.get_pixel(1, 1), 0xFF654321);
    assert_eq!(r.get_pixel(2, 2), GRID_COLOR);
}

#[test]
fn grid_spacing_zero_is_a_no_op() {
    let mut r = Renderer::new(4, 4);
    r.draw_rect(0, 0, 2, 2, 0xFF111111);
    r.draw_grid(0);
    for y in 0..4 {
        for x in 0..4 {
            let inside = x < 2 && y < 2;
            let expected = if inside { 0xFF111111 } else { ZERO_COLOR };
            assert_eq!(r.get_pixel(x, y), expected);
        }
    }
}

#[test]
fn grid_spacing_larger_than_buffer_sets_only_origin() {
    let mut r = Renderer::new(4, 4);
    r.draw_grid(9);
    for y in 0..4 {
        for x in 0..4 {
            let expected = if x == 0 && y == 0 { GRID_COLOR } else { ZERO_COLOR };
            assert_eq!(r.get_pixel(x, y), expected);
        }
    }
}

#[test]
fn render_returns_the_frame_and_resets_the_buffer() {
    let mut r = Renderer::new(3, 2);
    r.draw_rect(1, 0, 1, 2, 0xFFAABBCC);
    let frame = r.render();
    assert_eq!(
        frame,
        vec![ZERO_COLOR, 0xFFAABBCC, ZERO_COLOR, ZERO_COLOR, 0xFFAABBCC, ZERO_COLOR]
    );
    for y in 0..2 {
        for x in 0..3 {
            assert_eq!(r.get_pixel(x, y), ZERO_COLOR);
        }
    }
}

#[test]
fn post_frame_state_is_the_same_whatever_was_drawn() {
    let mut a = Renderer::new(5, 5);
    let mut b = Renderer::new(5, 5);
    a.draw_grid(1);
    a.draw_rect(0, 0, 5, 5, 0xFF123456);
    a.render();
    b.render();
    for y in 0..5 {
        for x in 0..5 {
            assert_eq!(a.get_pixel(x, y), b.get_pixel(x, y));
            assert_eq!(a.get_pixel(x, y), ZERO_COLOR);
        }
    }
}

#[test]
fn renderer_clear_resets_the_buffer() {
    let mut r = Renderer::new(5, 5);
    assert_eq!(r.width(), 5);
    assert_eq!(r.height(), 5);
    r.draw_rect(0, 0, 5, 5, 0xFF777777);
    r.clear();
    for y in 0..5 {
        for x in 0..5 {
            assert_eq!(r.get_pixel(x, y), ZERO_COLOR);
        }
    }
}

#[test]
fn frames_are_consistent_across_renders() {
    let mut r = Renderer::new(4, 4);
    r.draw_grid(2);
    let first = r.render();
    r.draw_grid(2);
    let second = r.render();
    assert_eq!(first, second);
}
