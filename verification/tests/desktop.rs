use wormhole::icon::{
    draw_brush, draw_line, draw_pixel, draw_rounded_link, tray_status_icon, TRAY_ICON_BYTES,
    TRAY_ICON_SIZE,
};
use wormhole::keyfile::{answered_path, chosen_path, key_chooser_script};
use wormhole::tray::{
    menu_command, quick_panel_work_area, service_event, toggle_quick_panel, tray_title,
    tray_tooltip, window_reaction, MenuCommand, PanelAction, WindowChange, WindowReaction,
    WorkArea,
};

const INK: [u8; 4] = [1, 2, 3, 4];

/// The pixels of a picture that are not clear, row by row.
fn drawn(rgba: &[u8]) -> Vec<(usize, usize)> {
    (0..TRAY_ICON_SIZE * TRAY_ICON_SIZE)
        .filter(|p| rgba[p * 4..p * 4 + 4] != [0; 4])
        .map(|p| (p % TRAY_ICON_SIZE, p / TRAY_ICON_SIZE))
        .collect()
}

fn clear() -> Vec<u8> {
    vec![0; TRAY_ICON_BYTES]
}

#[test]
fn pixel_is_four_bytes() {
    let mut rgba = clear();
    draw_pixel(&mut rgba, 3, 2, INK);
    assert_eq!(&rgba[156..160], INK);
    assert_eq!(drawn(&rgba), [(3, 2)]);
    for (x, y) in [(-1, 0), (0, -1), (18, 0), (0, 18), (i32::MAX, i32::MIN)] {
        draw_pixel(&mut rgba, x, y, INK);
    }
    assert_eq!(drawn(&rgba), [(3, 2)]);
}

#[test]
fn brush_is_round() {
    let mut rgba = clear();
    draw_brush(&mut rgba, 5, 5, 1, INK);
    assert_eq!(drawn(&rgba), [(5, 4), (4, 5), (5, 5), (6, 5), (5, 6)]);

    let mut rgba = clear();
    draw_brush(&mut rgba, 0, 0, 0, INK);
    assert_eq!(drawn(&rgba), [(0, 0)]);

    let mut rgba = clear();
    draw_brush(&mut rgba, 5, 5, -1, INK);
    assert!(drawn(&rgba).is_empty());

    let mut rgba = clear();
    draw_brush(&mut rgba, 9, 9, 5, INK);
    for (x, y) in drawn(&rgba) {
        let (dx, dy) = (x as i32 - 9, y as i32 - 9);
        assert!(dx * dx + dy * dy <= 25);
    }
    assert_eq!(drawn(&rgba).len(), 81);
}

#[test]
fn line_joins_its_ends() {
    let mut rgba = clear();
    draw_line(&mut rgba, 2, 3, 9, 6, 0, INK);
    assert_eq!(
        drawn(&rgba),
        [(2, 3), (3, 3), (4, 4), (5, 4), (6, 5), (7, 5), (8, 6), (9, 6)]
    );

    let mut rgba = clear();
    draw_line(&mut rgba, 4, 12, 2, 7, -1, INK);
    assert_eq!(
        drawn(&rgba),
        [(2, 7), (2, 8), (3, 9), (3, 10), (4, 11), (4, 12)]
    );

    let mut rgba = clear();
    draw_line(&mut rgba, 4, 4, 4, 4, 1, INK);
    assert_eq!(drawn(&rgba), [(4, 4)]);

    let mut rgba = clear();
    draw_line(&mut rgba, 4, 4, 9, 9, -2, INK);
    assert!(drawn(&rgba).is_empty());
}

/// The line of a point that steps along both sides by their error term.
fn stepped(x0: i32, y0: i32, x1: i32, y1: i32) -> Vec<(usize, usize)> {
    let (mut x, mut y) = (x0, y0);
    let dx = (x1 - x0).abs();
    let sx = if x0 < x1 { 1 } else { -1 };
    let dy = -(y1 - y0).abs();
    let sy = if y0 < y1 { 1 } else { -1 };
    let mut err = dx + dy;
    let mut points = Vec::new();
    loop {
        points.push((x as usize, y as usize));
        if x == x1 && y == y1 {
            points.sort_by_key(|(x, y)| (*y, *x));
            return points;
        }
        let e2 = 2 * err;
        if e2 >= dy {
            err += dy;
            x += sx;
        }
        if e2 <= dx {
            err += dx;
            y += sy;
        }
    }
}

#[test]
fn lines_in_every_direction_are_stepped_alike() {
    for x1 in 0..18 {
        for y1 in 0..18 {
            let mut rgba = clear();
            draw_line(&mut rgba, 8, 7, x1, y1, 0, INK);
            assert_eq!(drawn(&rgba), stepped(8, 7, x1, y1));
        }
    }
}

#[test]
fn link_has_round_corners() {
    let mut rgba = clear();
    draw_rounded_link(&mut rgba, 4, 4, 12, 12, INK);
    let area = drawn(&rgba);
    assert!(!area.contains(&(4, 4)));
    assert!(!area.contains(&(8, 8)));
    for pixel in [(5, 5), (11, 5), (5, 11), (11, 11), (8, 4), (8, 12), (4, 8), (12, 8)] {
        assert!(area.contains(&pixel));
    }
}

#[test]
fn icon_shows_whether_tunnels_are_up() {
    let up = tray_status_icon(true);
    let down = tray_status_icon(false);
    assert_eq!(up.len(), 18 * 18 * 4);
    assert_eq!(down.len(), 18 * 18 * 4);
    let pixel = |rgba: &[u8], x: usize, y: usize| rgba[(y * 18 + x) * 4..][..4].to_vec();
    assert_eq!(pixel(&up, 9, 2), [244, 180, 28, 255]);
    assert_eq!(pixel(&down, 9, 2), [148, 163, 184, 255]);
    assert_eq!(pixel(&up, 2, 12), [0, 150, 185, 255]);
    assert_eq!(pixel(&down, 2, 12), [100, 116, 139, 255]);
    assert_eq!(pixel(&up, 15, 14), [0, 0, 0, 0]);
    assert_eq!(pixel(&down, 15, 14), [220, 38, 38, 255]);
    assert_eq!(pixel(&down, 13, 12), [220, 38, 38, 255]);
    assert_eq!(pixel(&up, 0, 0), [0, 0, 0, 0]);
}

#[test]
fn menu_bar_tells_the_numbers() {
    assert_eq!(tray_title(0), "0");
    assert_eq!(tray_title(128), "128");
    assert_eq!(
        tray_tooltip(12, 3),
        "Wormhole · 12 client(s), 3 tunnel(s) running"
    );
    assert_eq!(service_event("started"), "service:started");
}

#[test]
fn menu_entries_are_commands() {
    assert_eq!(menu_command("show"), Some(MenuCommand::Show));
    assert_eq!(menu_command("hide"), Some(MenuCommand::Hide));
    assert_eq!(menu_command("start_service"), Some(MenuCommand::StartService));
    assert_eq!(menu_command("stop_service"), Some(MenuCommand::StopService));
    assert_eq!(menu_command("quit"), None);
}

#[test]
fn closing_a_window_hides_it() {
    let reaction = |prevent_close, hide, leave_dock| WindowReaction {
        prevent_close,
        hide,
        leave_dock,
    };
    assert_eq!(
        window_reaction("main", WindowChange::CloseRequested),
        reaction(true, true, true)
    );
    assert_eq!(
        window_reaction("quick-panel", WindowChange::CloseRequested),
        reaction(true, true, false)
    );
    assert_eq!(
        window_reaction("about", WindowChange::CloseRequested),
        reaction(false, false, false)
    );
    assert_eq!(
        window_reaction("quick-panel", WindowChange::FocusLost),
        reaction(false, true, false)
    );
    assert_eq!(
        window_reaction("main", WindowChange::FocusLost),
        reaction(false, false, false)
    );
    assert_eq!(
        window_reaction("main", WindowChange::Other),
        reaction(false, false, false)
    );
}

#[test]
fn click_toggles_the_panel() {
    assert_eq!(toggle_quick_panel(Some(true)), PanelAction::Hide);
    assert_eq!(toggle_quick_panel(Some(false)), PanelAction::Show);
    assert_eq!(toggle_quick_panel(None), PanelAction::Build);
}

#[test]
fn panel_opens_on_the_screen_that_was_clicked() {
    let area = |x, y, width, height| WorkArea {
        x,
        y,
        width,
        height,
    };
    let areas = vec![
        area(0, 0, 1440, 900),
        area(-1920, 0, 1920, 1080),
        area(0, 0, u32::MAX, u32::MAX),
    ];
    assert_eq!(quick_panel_work_area(&areas, 1200, 24), Some(0));
    assert_eq!(quick_panel_work_area(&areas, -40, 24), Some(1));
    assert_eq!(quick_panel_work_area(&areas, -1920, 0), Some(1));
    assert_eq!(quick_panel_work_area(&areas, 1440, 24), None);
    assert_eq!(quick_panel_work_area(&areas, 0, 900), None);
    assert_eq!(quick_panel_work_area(&vec![], 0, 0), None);
}

#[test]
fn chooser_begins_in_the_directory() {
    assert_eq!(
        key_chooser_script("/Users/me/.ssh"),
        "POSIX path of (choose file with prompt \"Select private key\" default location POSIX file \"/Users/me/.ssh\")"
    );
    assert_eq!(
        key_chooser_script(r#"a"b\c"#),
        r#"POSIX path of (choose file with prompt "Select private key" default location POSIX file "a\"b\\c")"#
    );
}

#[test]
fn chosen_file_is_trimmed() {
    assert_eq!(
        chosen_path(true, b"/Users/me/key\n"),
        Some("/Users/me/key".to_string())
    );
    assert_eq!(chosen_path(true, b"a\xff\n"), Some("a\u{fffd}".to_string()));
    assert_eq!(chosen_path(true, b" \n"), None);
    assert_eq!(chosen_path(false, b"/Users/me/key\n"), None);
    assert_eq!(answered_path(" x "), Some("x".to_string()));
    assert_eq!(answered_path(""), None);
}
