use boxtui::geom::{DrawKind, Mouse, Position, Size, UIBox};
use boxtui::hooks::Hooks;
use boxtui::input::Decoded;
use boxtui::ui::UI;

struct TestHooks {
    draws: usize,
    draw_text: String,
    clicks: Vec<(i32, i32, bool)>,
    hovers: Vec<(i32, i32, i32)>,
    keys: Vec<u64>,
    click_sets_data1: bool,
}

impl TestHooks {
    fn new() -> TestHooks {
        TestHooks {
            draws: 0,
            draw_text: String::new(),
            clicks: Vec::new(),
            hovers: Vec::new(),
            keys: Vec::new(),
            click_sets_data1: false,
        }
    }
}

impl Hooks for TestHooks {
    fn draw(&mut self, _b: &mut UIBox) -> String {
        self.draws += 1;
        self.draw_text.clone()
    }

    fn on_click(&mut self, b: &mut UIBox, x: i32, y: i32, m: Mouse) {
        if self.click_sets_data1 {
            b.data1 = "clicked".to_string();
        }
        self.clicks.push((x, y, m == Mouse::Down));
    }

    fn on_hover(&mut self, b: &mut UIBox, x: i32, y: i32) {
        self.hovers.push((b.id, x, y));
    }

    fn on_key(&mut self, tag: u64) {
        self.keys.push(tag);
    }
}

fn plain_box(x: i32, y: i32, w: i32, h: i32) -> UIBox {
    UIBox {
        id: 0,
        x,
        y,
        size: Size { w, h },
        screen: 0,
        cache: String::new(),
        state_cur: 0,
        state_next: 0,
        draw: DrawKind::NoDraw,
        has_click: false,
        has_hover: false,
        data1: String::new(),
        data2: String::new(),
    }
}

fn out_string(out: &[char]) -> String {
    out.iter().collect()
}

#[test]
fn no_draw_box_renders_nothing() {
    let ui = UI::new(0);
    let mut h = TestHooks::new();
    let mut b = plain_box(1, 1, 4, 2);
    let mut out: Vec<char> = Vec::new();
    ui.draw_one(&mut h, &mut b, &mut out);
    assert_eq!(out.len(), 0);
    assert_eq!(h.draws, 0);
    assert_eq!(b.state_cur, b.state_next);
    // Even a dirty no-draw box emits nothing and comes out clean.
    b.state_next = 5;
    ui.draw_one(&mut h, &mut b, &mut out);
    assert_eq!(out.len(), 0);
    assert_eq!(h.draws, 0);
    assert_eq!(b.state_cur, 5);
}

#[test]
fn clean_render_is_idempotent() {
    let mut ui = UI::new(0);
    let mut h = TestHooks::new();
    h.draw_text = "AB".to_string();
    ui.add(
        &mut h,
        Position::Specific(1),
        Position::Specific(1),
        Size { w: 2, h: 1 },
        0,
        DrawKind::Hosted,
        false,
        false,
        String::new(),
        String::new(),
    );
    assert_eq!(h.draws, 1); // the cache was seeded once at registration
    let mut b = ui.boxs.remove(0);
    let mut out1: Vec<char> = Vec::new();
    ui.draw_one(&mut h, &mut b, &mut out1);
    let mut out2: Vec<char> = Vec::new();
    ui.draw_one(&mut h, &mut b, &mut out2);
    assert_eq!(h.draws, 1); // the cache was reused, not recomputed
    assert_eq!(out_string(&out1), out_string(&out2));
    assert_eq!(out_string(&out1), "\x1b[1;1HAB");
}

#[test]
fn dirty_render_cleans_and_stays_clean() {
    let mut ui = UI::new(0);
    let mut h = TestHooks::new();
    h.draw_text = "X".to_string();
    ui.add(
        &mut h,
        Position::Specific(1),
        Position::Specific(1),
        Size { w: 1, h: 1 },
        0,
        DrawKind::Hosted,
        false,
        false,
        String::new(),
        String::new(),
    );
    let mut b = ui.boxs.remove(0);
    b.state_next = 7;
    let mut out: Vec<char> = Vec::new();
    ui.draw_one(&mut h, &mut b, &mut out);
    assert_eq!(h.draws, 2); // seeding plus one dirty recomputation
    assert_eq!(b.state_cur, 7);
    assert_eq!(b.state_next, 7);
    ui.draw_one(&mut h, &mut b, &mut out);
    assert_eq!(h.draws, 2); // no further change, no further draw call
}

#[test]
fn hit_test_is_edge_inclusive() {
    let b = plain_box(5, 5, 3, 2);
    assert!(b.contains(8, 7));
    assert!(!b.contains(9, 7));
    assert!(b.contains(5, 5));
    assert!(!b.contains(4, 5));
    assert!(!b.contains(5, 8));
}

#[test]
fn click_dispatch_down_then_up() {
    let mut ui = UI::new(0);
    let mut h = TestHooks::new();
    h.click_sets_data1 = true;
    ui.add(
        &mut h,
        Position::Specific(1),
        Position::Specific(1),
        Size { w: 10, h: 3 },
        0,
        DrawKind::NoDraw,
        true,
        false,
        String::new(),
        String::new(),
    );
    let mut out: Vec<char> = Vec::new();
    ui.update(&mut h, "\x1b[<0;3;2M", &mut out);
    assert_eq!(h.clicks, vec![(3, 2, true)]);
    assert!(ui.click.is_some());
    assert_eq!(ui.boxs[0].data1, "clicked");
    ui.update(&mut h, "\x1b[<0;3;2m", &mut out);
    assert_eq!(h.clicks, vec![(3, 2, true), (3, 2, false)]);
    assert!(ui.click.is_none()); // back to idle
    assert_eq!(out.len(), 0); // mouse dispatch writes nothing itself
}

#[test]
fn wheel_scrolls_and_redraws() {
    let mut ui = UI::new(0);
    let mut h = TestHooks::new();
    assert!(ui.canscroll);
    assert_eq!(ui.scroll, 0);
    let mut out: Vec<char> = Vec::new();
    ui.update(&mut h, "\x1b[<64;1;1M", &mut out);
    assert_eq!(ui.scroll, 2);
    // one clear from the wheel event, one from the full redraw
    assert_eq!(out_string(&out), "\x1b[0m\x1b[2J\x1b[0m\x1b[2J");
    out.clear();
    ui.update(&mut h, "\x1b[<65;1;1M", &mut out);
    assert_eq!(ui.scroll, 0);
}

#[test]
fn hover_fans_out_to_all_matches() {
    let mut ui = UI::new(0);
    let mut h = TestHooks::new();
    let first = ui.add(
        &mut h,
        Position::Specific(1),
        Position::Specific(1),
        Size { w: 3, h: 3 },
        0,
        DrawKind::NoDraw,
        false,
        true,
        String::new(),
        String::new(),
    );
    let second = ui.add(
        &mut h,
        Position::Specific(1),
        Position::Specific(1),
        Size { w: 5, h: 5 },
        0,
        DrawKind::NoDraw,
        false,
        true,
        String::new(),
        String::new(),
    );
    let mut out: Vec<char> = Vec::new();
    ui.update(&mut h, "\x1b[<35;2;2M", &mut out);
    assert_eq!(h.hovers, vec![(first, 2, 2), (second, 2, 2)]);
}

#[test]
fn key_binding_fires_exactly_the_bound_handler() {
    let mut ui = UI::new(0);
    let mut h = TestHooks::new();
    ui.key('q', 7);
    ui.key('x', 9);
    let mut out: Vec<char> = Vec::new();
    ui.update(&mut h, "q", &mut out);
    assert_eq!(h.keys, vec![7]);
}

#[test]
fn duplicate_key_bindings_all_fire_in_order() {
    let mut ui = UI::new(0);
    let mut h = TestHooks::new();
    ui.key('q', 1);
    ui.key('q', 2);
    let mut out: Vec<char> = Vec::new();
    ui.update(&mut h, "q", &mut out);
    assert_eq!(h.keys, vec![1, 2]);
}

#[test]
fn other_screen_box_is_not_rendered_or_hit() {
    let mut ui = UI::new(1);
    let mut h = TestHooks::new();
    ui.text(
        &mut h,
        Position::Specific(1),
        Position::Specific(1),
        "hello".to_string(),
        0,
        true,
        true,
    );
    ui.screen = 0; // the active screen no longer matches the box's
    let mut out: Vec<char> = Vec::new();
    ui.draw(&mut h, &mut out);
    assert_eq!(out_string(&out), "\x1b[0m\x1b[2J"); // only the clear prefix
    ui.update(&mut h, "\x1b[<0;2;1M", &mut out);
    ui.update(&mut h, "\x1b[<35;2;1M", &mut out);
    assert!(h.clicks.is_empty());
    assert!(h.hovers.is_empty());
    assert!(ui.click.is_none());
}

#[test]
fn text_box_renders_its_content_once() {
    let mut ui = UI::new(0);
    let mut h = TestHooks::new();
    ui.text(
        &mut h,
        Position::Specific(2),
        Position::Specific(3),
        "hi".to_string(),
        0,
        false,
        false,
    );
    assert_eq!(ui.boxs[0].size.w, 2);
    assert_eq!(ui.boxs[0].size.h, 1);
    assert_eq!(ui.boxs[0].cache, "hi");
    assert_eq!(ui.boxs[0].data1, "");
    let mut out: Vec<char> = Vec::new();
    ui.draw(&mut h, &mut out);
    assert_eq!(out_string(&out), "\x1b[0m\x1b[2J\x1b[3;2Hhi");
    // A forced redraw re-invokes the one-shot draw: the stored text was
    // already consumed, so the box now renders empty.
    out.clear();
    ui.redraw(&mut h, &mut out);
    assert_eq!(ui.boxs[0].cache, "");
    assert_eq!(out_string(&out), "\x1b[0m\x1b[2J\x1b[3;2H");
}

#[test]
fn centered_position_resolves_against_screen_size() {
    let mut ui = UI::new(0);
    let mut h = TestHooks::new();
    ui.add(
        &mut h,
        Position::Center,
        Position::Center,
        Size { w: 10, h: 4 },
        0,
        DrawKind::NoDraw,
        false,
        false,
        String::new(),
        String::new(),
    );
    assert_eq!(ui.boxs[0].x, 35); // (80 - 10) / 2
    assert_eq!(ui.boxs[0].y, 10); // (24 - 4) / 2
}

#[test]
fn lines_outside_the_terminal_vanish() {
    let mut ui = UI::new(0);
    let mut h = TestHooks::new();
    ui.text(
        &mut h,
        Position::Specific(1),
        Position::Specific(24),
        "a\nb".to_string(),
        0,
        false,
        false,
    );
    let mut out: Vec<char> = Vec::new();
    ui.draw(&mut h, &mut out);
    // row 24 is the last visible row; the second line would land on 25
    assert_eq!(out_string(&out), "\x1b[0m\x1b[2J\x1b[24;1Ha");
}

#[test]
fn decoder_classifies_mouse_reports() {
    let ui = UI::new(0);
    assert_eq!(ui.decode("\x1b[<0;3;2M"), Decoded::Down(3, 2));
    assert_eq!(ui.decode("\x1b[<0;3;2m"), Decoded::Up(3, 2));
    assert_eq!(ui.decode("\x1b[<32;4;5M"), Decoded::Drag(4, 5));
    assert_eq!(ui.decode("\x1b[<35;4;5M"), Decoded::Hover(4, 5));
    assert_eq!(ui.decode("\x1b[<64;1;1M"), Decoded::WheelDown);
    assert_eq!(ui.decode("\x1b[<65;1;1M"), Decoded::WheelUp);
    assert_eq!(ui.decode("q"), Decoded::Key('q'));
    assert_eq!(ui.decode(""), Decoded::Nothing);
    assert_eq!(ui.decode("\x1b[<99;1;1M"), Decoded::Nothing);
}

#[test]
fn decoder_translates_y_by_scroll_offset() {
    let mut ui = UI::new(0);
    ui.scroll = 2;
    assert_eq!(ui.decode("\x1b[<35;5;7M"), Decoded::Hover(5, 5));
    ui.canscroll = false;
    assert_eq!(ui.decode("\x1b[<35;5;7M"), Decoded::Hover(5, 7));
    // with scrolling off, a wheel report is not a wheel event
    assert_eq!(ui.decode("\x1b[<64;1;1M"), Decoded::Nothing);
}

#[test]
fn decoder_accepts_signed_x() {
    let ui = UI::new(0);
    assert_eq!(ui.decode("\x1b[<0;-3;2M"), Decoded::Down(-3, 2));
    assert_eq!(ui.decode("\x1b[<0;+3;2M"), Decoded::Down(3, 2));
}

#[test]
fn malformed_reports_are_dropped_without_panic() {
    let mut ui = UI::new(0);
    let mut h = TestHooks::new();
    ui.key('q', 7);
    let mut out: Vec<char> = Vec::new();
    for s in [
        "\x1b[<",
        "\x1b[<;1;1M",
        "\x1b[<0;x;2M",
        "\x1b[<0;3;M",
        "\x1b[<0;3M",
        "\x1b[<0;3;99999999999M",
        "\x1b[<6",
        "\x1b[<0;3;2",
    ] {
        ui.update(&mut h, s, &mut out);
    }
    assert_eq!(ui.scroll, 0);
    assert!(ui.click.is_none());
    assert!(h.keys.is_empty());
    assert!(h.clicks.is_empty());
    assert_eq!(out.len(), 0);
}

#[test]
fn drag_follows_the_pressed_box() {
    let mut ui = UI::new(0);
    let mut h = TestHooks::new();
    ui.add(
        &mut h,
        Position::Specific(1),
        Position::Specific(1),
        Size { w: 4, h: 2 },
        0,
        DrawKind::NoDraw,
        true,
        false,
        String::new(),
        String::new(),
    );
    let mut out: Vec<char> = Vec::new();
    ui.update(&mut h, "\x1b[<0;2;2M", &mut out);
    ui.update(&mut h, "\x1b[<32;3;2M", &mut out);
    ui.update(&mut h, "\x1b[<32;9;9M", &mut out); // drag outside still delivers
    ui.update(&mut h, "\x1b[<0;9;9m", &mut out); // release outside the box
    assert_eq!(
        h.clicks,
        vec![(2, 2, true), (3, 2, true), (9, 9, true)],
    );
    assert!(ui.click.is_none()); // release clears the target either way
}

#[test]
fn release_inside_delivers_up_to_the_target() {
    let mut ui = UI::new(0);
    let mut h = TestHooks::new();
    ui.add(
        &mut h,
        Position::Specific(1),
        Position::Specific(1),
        Size { w: 4, h: 2 },
        0,
        DrawKind::NoDraw,
        true,
        false,
        String::new(),
        String::new(),
    );
    let mut out: Vec<char> = Vec::new();
    ui.update(&mut h, "\x1b[<0;2;2m", &mut out); // release with no press first
    assert!(h.clicks.is_empty());
    ui.update(&mut h, "\x1b[<0;2;2M", &mut out);
    ui.update(&mut h, "\x1b[<0;3;1m", &mut out);
    assert_eq!(h.clicks, vec![(2, 2, true), (3, 1, false)]);
}

#[test]
fn first_matching_box_takes_the_click() {
    let mut ui = UI::new(0);
    let mut h = TestHooks::new();
    // the first box overlaps but has no click handler, so the press
    // falls through to the second
    ui.add(
        &mut h,
        Position::Specific(1),
        Position::Specific(1),
        Size { w: 5, h: 5 },
        0,
        DrawKind::NoDraw,
        false,
        false,
        String::new(),
        String::new(),
    );
    let id = ui.add(
        &mut h,
        Position::Specific(1),
        Position::Specific(1),
        Size { w: 5, h: 5 },
        0,
        DrawKind::NoDraw,
        true,
        false,
        String::new(),
        String::new(),
    );
    let mut out: Vec<char> = Vec::new();
    ui.update(&mut h, "\x1b[<0;2;2M", &mut out);
    assert_eq!(h.clicks.len(), 1);
    assert_eq!(ui.click.as_ref().map(|b| b.id), Some(id));
}

#[test]
fn clear_resets_the_session_but_keeps_the_screen() {
    let mut ui = UI::new(3);
    let mut h = TestHooks::new();
    ui.key('a', 1);
    ui.add(
        &mut h,
        Position::Specific(1),
        Position::Specific(1),
        Size { w: 1, h: 1 },
        0,
        DrawKind::NoDraw,
        false,
        false,
        String::new(),
        String::new(),
    );
    ui.scroll = 6;
    ui.clear();
    assert_eq!(ui.screen, 3);
    assert_eq!(ui.scroll, 0);
    assert_eq!(ui.id, 0);
    assert!(ui.boxs.is_empty());
    assert!(ui.evts.is_empty());
}

#[test]
fn ids_increase_by_one_per_registration() {
    let mut ui = UI::new(0);
    let mut h = TestHooks::new();
    let a = ui.add(
        &mut h,
        Position::Specific(1),
        Position::Specific(1),
        Size { w: 1, h: 1 },
        0,
        DrawKind::NoDraw,
        false,
        false,
        String::new(),
        String::new(),
    );
    let b = ui.text(
        &mut h,
        Position::Specific(1),
        Position::Specific(2),
        "t".to_string(),
        0,
        false,
        false,
    );
    assert_eq!(a, 0);
    assert_eq!(b, 1);
    assert_eq!(ui.id, 2);
}

struct MeddlingHooks {
    calls: usize,
}

impl Hooks for MeddlingHooks {
    fn draw(&mut self, b: &mut UIBox) -> String {
        b.x = 99;
        b.id = 99;
        "T".to_string()
    }

    fn on_click(&mut self, b: &mut UIBox, _x: i32, _y: i32, _m: Mouse) {
        self.calls += 1;
        b.x = 77;
        b.screen = 9;
        b.has_click = false;
        b.data1 = "touched".to_string();
    }

    fn on_hover(&mut self, b: &mut UIBox, _x: i32, _y: i32) {
        b.y = 55;
        b.data2 = "hovered".to_string();
    }

    fn on_key(&mut self, _tag: u64) {}
}

#[test]
fn hooks_cannot_move_or_reidentify_a_box() {
    let mut ui = UI::new(0);
    let mut h = MeddlingHooks { calls: 0 };
    let id = ui.add(
        &mut h,
        Position::Specific(1),
        Position::Specific(1),
        Size { w: 4, h: 2 },
        0,
        DrawKind::Hosted,
        true,
        true,
        String::new(),
        String::new(),
    );
    // the draw hook's attempt to move and re-identify the box is undone,
    // while its returned text seeds the cache
    assert_eq!(ui.boxs[0].id, id);
    assert_eq!(ui.boxs[0].x, 1);
    assert_eq!(ui.boxs[0].cache, "T");
    let mut out: Vec<char> = Vec::new();
    ui.update(&mut h, "\x1b[<0;2;2M", &mut out);
    // the click hook ran and its writes to the open fields stuck, but
    // the box kept its place, screen and click handler
    assert_eq!(h.calls, 1);
    assert_eq!(ui.boxs[0].data1, "touched");
    assert_eq!(ui.boxs[0].x, 1);
    assert_eq!(ui.boxs[0].screen, 0);
    assert!(ui.boxs[0].has_click);
    ui.update(&mut h, "\x1b[<35;2;2M", &mut out);
    assert_eq!(ui.boxs[0].y, 1);
    assert_eq!(ui.boxs[0].data2, "hovered");
}
