use whisplay_launcher::apps::{AppConfig, IconData};
use whisplay_launcher::color::rgb565;
use whisplay_launcher::framebuffer::Framebuffer;
use whisplay_launcher::menu::{
    draw_icon_image, icon_kind, render, render_splash, Align, DrawOp, Font, IconKind,
};
use whisplay_launcher::status::WifiState;

fn app(name: &str, icon: Option<&str>) -> AppConfig {
    AppConfig {
        name: name.to_string(),
        script: String::new(),
        description: None,
        icon: icon.map(|s| s.to_string()),
        color: None,
        resolved_script: Vec::new(),
        resolved_dir: Vec::new(),
        icon_data: None,
    }
}

fn green() -> u16 {
    rgb565(29, 185, 84)
}

#[test]
fn icon_kinds() {
    assert_eq!(icon_kind("music"), IconKind::Music);
    assert_eq!(icon_kind("bird"), IconKind::Bird);
    assert_eq!(icon_kind("game"), IconKind::Game);
    assert_eq!(icon_kind("settings"), IconKind::Settings);
    assert_eq!(icon_kind("default"), IconKind::Dots);
    assert_eq!(icon_kind("Music"), IconKind::Dots);
    assert_eq!(icon_kind(""), IconKind::Dots);
}

fn status_bar(time: &str, color: u16) -> Vec<DrawOp<String>> {
    vec![
        DrawOp::Text { text: time.to_string(), x: 18, y: 12, font: Font::Bold12, align: Align::Left, color: 0xFFFF },
        DrawOp::WifiArc { cx: 66, cy: 15, radius: 4, color },
        DrawOp::WifiArc { cx: 66, cy: 15, radius: 7, color },
        DrawOp::WifiArc { cx: 66, cy: 15, radius: 10, color },
        DrawOp::Dot { x: 65, y: 13, diameter: 3, color },
    ]
}

#[test]
fn empty_registry_shows_hint() {
    let ops = render(&Vec::new(), 0, "12:34", WifiState::Disconnected);
    let mut expected = vec![DrawOp::Clear { color: 0 }];
    expected.extend(status_bar("12:34", rgb565(255, 69, 58)));
    expected.push(DrawOp::Text {
        text: "No apps found".to_string(),
        x: 120,
        y: 130,
        font: Font::Bold18,
        align: Align::Center,
        color: rgb565(142, 142, 147),
    });
    expected.push(DrawOp::Text {
        text: "Edit apps.json".to_string(),
        x: 120,
        y: 160,
        font: Font::Regular14,
        align: Align::Center,
        color: rgb565(72, 72, 74),
    });
    assert_eq!(ops, expected);
}

#[test]
fn two_apps_first_selected() {
    let apps = vec![app("Spotify", Some("music")), app("Flappy", Some("bird"))];
    let ops = render(&apps, 0, "09:00", WifiState::Connected);
    let mut expected = vec![DrawOp::Clear { color: 0 }];
    expected.extend(status_bar("09:00", green()));
    expected.extend(vec![
        DrawOp::RoundedOutline { x: 26, y: 28, size: 88, corner: 23, stroke: 3, color: 0xFFFF },
        DrawOp::RoundedTile { x: 30, y: 32, size: 80, corner: 20, color: green() },
        DrawOp::Glyph { kind: IconKind::Music, cx: 70, cy: 72, size: 80, selected: true, color: 0 },
        DrawOp::Text { text: "Spotify".to_string(), x: 60, y: 126, font: Font::Bold12, align: Align::Center, color: 0xFFFF },
        DrawOp::RoundedTile { x: 130, y: 32, size: 80, corner: 20, color: green() },
        DrawOp::Glyph { kind: IconKind::Bird, cx: 170, cy: 72, size: 80, selected: true, color: 0 },
        DrawOp::Text {
            text: "Flappy".to_string(),
            x: 180,
            y: 126,
            font: Font::Bold12,
            align: Align::Center,
            color: rgb565(200, 200, 204),
        },
    ]);
    assert_eq!(ops, expected);
}

#[test]
fn second_page_and_dots() {
    let mut apps: Vec<AppConfig> = (0..6).map(|i| app(&format!("app{i}"), None)).collect();
    apps[5].color = Some([255, 0, 0]);
    apps[4].icon_data = Some(IconData { rgba_64: vec![], rgba_80: vec![], rgba_96: vec![] });
    let ops = render(&apps, 5, "00:00", WifiState::Unknown);
    let tail = &ops[6..];
    assert_eq!(
        tail,
        &[
            DrawOp::IconImage { app: 4, x: 30, y: 32, size: 80, corner: 20 },
            DrawOp::Text { text: "app4".to_string(), x: 60, y: 126, font: Font::Bold12, align: Align::Center, color: rgb565(200, 200, 204) },
            DrawOp::RoundedOutline { x: 126, y: 28, size: 88, corner: 23, stroke: 3, color: 0xFFFF },
            DrawOp::RoundedTile { x: 130, y: 32, size: 80, corner: 20, color: 0xF800 },
            DrawOp::Glyph { kind: IconKind::Dots, cx: 170, cy: 72, size: 80, selected: true, color: 0 },
            DrawOp::Text { text: "app5".to_string(), x: 180, y: 126, font: Font::Bold12, align: Align::Center, color: 0xFFFF },
            DrawOp::Dot { x: 109, y: 270, diameter: 8, color: rgb565(50, 50, 54) },
            DrawOp::Dot { x: 123, y: 270, diameter: 8, color: 0xF800 },
        ][..]
    );
}

#[test]
fn four_apps_fill_one_page_without_dots() {
    let apps: Vec<AppConfig> = (0..4).map(|i| app(&format!("a{i}"), None)).collect();
    let ops = render(&apps, 3, "00:00", WifiState::Unknown);
    assert!(!ops.iter().any(|o| matches!(o, DrawOp::Dot { y: 270, .. })));
    let names: Vec<&str> = ops
        .iter()
        .filter_map(|o| match o {
            DrawOp::Text { text, font: Font::Bold12, align: Align::Center, .. } => Some(text.as_str()),
            _ => None,
        })
        .collect();
    assert_eq!(names, vec!["a0", "a1", "a2", "a3"]);
    let outlines: Vec<(i32, i32)> = ops
        .iter()
        .filter_map(|o| match o {
            DrawOp::RoundedOutline { x, y, .. } => Some((*x, *y)),
            _ => None,
        })
        .collect();
    assert_eq!(outlines, vec![(126, 144)]);
}

#[test]
fn many_pages_center_the_dots() {
    let apps: Vec<AppConfig> = (0..9).map(|i| app(&format!("a{i}"), None)).collect();
    let ops = render(&apps, 8, "00:00", WifiState::Unknown);
    let dots: Vec<i32> = ops
        .iter()
        .filter_map(|o| match o {
            DrawOp::Dot { x, y: 270, .. } => Some(*x),
            _ => None,
        })
        .collect();
    // three dots, 8 wide, 14 apart: 36 pixels centered on 240
    assert_eq!(dots, vec![102, 116, 130]);
}

#[test]
fn splash_shows_icon_and_name() {
    let apps = vec![app("Flappy Bird", Some("bird"))];
    let ops = render_splash(&apps, 0);
    assert_eq!(
        ops,
        vec![
            DrawOp::Clear { color: 0 },
            DrawOp::RoundedTile { x: 72, y: 60, size: 96, corner: 22, color: green() },
            DrawOp::Glyph { kind: IconKind::Bird, cx: 120, cy: 108, size: 96, selected: true, color: 0 },
            DrawOp::Text {
                text: "Launching Flappy Bird...".to_string(),
                x: 120,
                y: 184,
                font: Font::Bold18,
                align: Align::Center,
                color: 0xFFFF
            },
        ]
    );
}

#[test]
fn splash_uses_own_icon_image() {
    let mut a = app("X", None);
    a.icon_data = Some(IconData { rgba_64: vec![], rgba_80: vec![], rgba_96: vec![] });
    let ops = render_splash(&vec![a], 0);
    assert_eq!(ops[1], DrawOp::IconImage { app: 0, x: 72, y: 60, size: 96, corner: 22 });
}

#[test]
fn icon_image_resolution_follows_tile_size() {
    let data = IconData {
        rgba_64: [255, 0, 0, 255].repeat(64 * 64),
        rgba_80: [0, 255, 0, 255].repeat(80 * 80),
        rgba_96: [0, 0, 255, 255].repeat(96 * 96),
    };
    let word = |fb: &Framebuffer, x: usize, y: usize| {
        let b = fb.as_bytes();
        let i = (y * 240 + x) * 2;
        ((b[i] as u16) << 8) | b[i + 1] as u16
    };
    let mut fb = Framebuffer::new();
    draw_icon_image(&mut fb, &data, 0, 0, 40, 0);
    assert_eq!(word(&fb, 63, 63), 0xF800);
    assert_eq!(word(&fb, 64, 64), 0);
    let mut fb = Framebuffer::new();
    draw_icon_image(&mut fb, &data, 0, 0, 80, 20);
    assert_eq!(word(&fb, 40, 40), 0x07E0);
    assert_eq!(word(&fb, 0, 0), 0);
    assert_eq!(word(&fb, 80, 40), 0);
    let mut fb = Framebuffer::new();
    draw_icon_image(&mut fb, &data, 10, 10, 96, 22);
    assert_eq!(word(&fb, 100, 60), 0x001F);
}

#[test]
fn both_screens_start_with_a_black_clear() {
    let apps = vec![app("a", None), app("b", Some("music"))];
    let ops = render(&apps, 1, "09:41", WifiState::Unknown);
    assert_eq!(ops[0], DrawOp::Clear { color: 0 });
    let ops = render(&Vec::new(), 0, "", WifiState::Disconnected);
    assert_eq!(ops[0], DrawOp::Clear { color: 0 });
    let ops = render_splash(&apps, 0);
    assert_eq!(ops[0], DrawOp::Clear { color: 0 });
}

#[test]
fn unknown_icon_type_is_drawn_as_default() {
    let unknown = vec![app("x", Some("rocket"))];
    let default = vec![app("x", None)];
    assert_eq!(render_splash(&unknown, 0), render_splash(&default, 0));
    assert_eq!(render(&unknown, 0, "12:00", WifiState::Connected), render(&default, 0, "12:00", WifiState::Connected));
    let ops = render_splash(&unknown, 0);
    assert_eq!(ops[1], DrawOp::RoundedTile { x: 72, y: 60, size: 96, corner: 22, color: green() });
    assert_eq!(
        ops[2],
        DrawOp::Glyph { kind: IconKind::Dots, cx: 120, cy: 108, size: 96, selected: true, color: 0 }
    );
}
