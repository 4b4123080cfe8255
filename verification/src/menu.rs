//! Layout of the launcher's two screens, the app grid and the launch
//! splash, as an ordered list of drawing operations in panel coordinates.
//!
//! Layout of the grid screen (240x280):
//!
//! ```text
//!  y=0..24    status bar: [time] [wifi]
//!  y=32..264  2x2 grid of app tiles, 116 pixels per row
//!  y=270..278 page dots, when the apps fill more than one page
//! ```

use vstd::prelude::*;

use crate::apps::{AppConfig, IconData, accent_of, default_icon_type, icon_type_of};
use crate::color::{rgb565, rgb565_spec};
use crate::framebuffer::{BUF_SIZE, Framebuffer, blit_image};
use crate::status::WifiState;
use crate::text::slice_is;

verus! {

/// The fonts the screens use (Helvetica from the u8g2 collection).
#[derive(Clone, Copy, Debug, PartialEq, Eq, Structural)]
pub enum Font {
    /// Helvetica bold, 12 pixels.
    Bold12,
    /// Helvetica bold, 18 pixels.
    Bold18,
    /// Helvetica regular, 14 pixels.
    Regular14,
}

/// Horizontal placement of a text relative to its anchor point; texts are
/// always centered vertically on it.
#[derive(Clone, Copy, Debug, PartialEq, Eq, Structural)]
pub enum Align {
    Left,
    Center,
}

/// The drawn glyph of an app without its own icon image.
#[derive(Clone, Copy, Debug, PartialEq, Eq, Structural)]
pub enum IconKind {
    /// A pair of eighth notes (`music`).
    Music,
    /// A bird silhouette (`bird`).
    Bird,
    /// A gamepad (`game`).
    Game,
    /// A gear (`settings`).
    Settings,
    /// A grid of four dots (any other icon type).
    Dots,
}

/// One drawing operation; `T` is the text type (`String` when run,
/// `Seq<char>` in specifications). Colors are RGB565 words, sizes and
/// positions are pixels.
#[derive(Debug, PartialEq)]
pub enum DrawOp<T> {
    /// Fill the whole panel.
    Clear { color: u16 },
    /// A line of text anchored at `(x, y)`.
    Text { text: T, x: i32, y: i32, font: Font, align: Align, color: u16 },
    /// The outline of a `size` x `size` square with top-left corner `(x, y)`
    /// and rounded corners, `stroke` pixels wide.
    RoundedOutline { x: i32, y: i32, size: u32, corner: u32, stroke: u32, color: u16 },
    /// A filled `size` x `size` square with top-left corner `(x, y)` and
    /// rounded corners.
    RoundedTile { x: i32, y: i32, size: u32, corner: u32, color: u16 },
    /// The glyph of an icon tile of side `size` centered at `(cx, cy)`.
    Glyph { kind: IconKind, cx: i32, cy: i32, size: u32, selected: bool, color: u16 },
    /// The icon image of app `app` (an index into the apps the screen was
    /// laid out for), blitted at `(x, y)` for a tile of side `size`.
    IconImage { app: usize, x: i32, y: i32, size: u32, corner: u32 },
    /// A filled circle of the given diameter whose bounding square has its
    /// top-left corner at `(x, y)`.
    Dot { x: i32, y: i32, diameter: u32, color: u16 },
    /// One 90-degree arc of the Wi-Fi symbol, centered at `(cx, cy)`,
    /// opening upwards, two pixels thick from `radius` outwards.
    WifiArc { cx: i32, cy: i32, radius: i32, color: u16 },
}

/// A drawing operation with its text as characters.
pub type OpView = DrawOp<Seq<char>>;

impl View for DrawOp<String> {
    type V = OpView;

    open spec fn view(&self) -> OpView {
        match *self {
            DrawOp::Clear { color } => DrawOp::Clear { color },
            DrawOp::Text { text, x, y, font, align, color } => DrawOp::Text {
                text: text@,
                x,
                y,
                font,
                align,
                color,
            },
            DrawOp::RoundedOutline { x, y, size, corner, stroke, color } => DrawOp::RoundedOutline {
                x,
                y,
                size,
                corner,
                stroke,
                color,
            },
            DrawOp::RoundedTile { x, y, size, corner, color } => DrawOp::RoundedTile {
                x,
                y,
                size,
                corner,
                color,
            },
            DrawOp::Glyph { kind, cx, cy, size, selected, color } => DrawOp::Glyph {
                kind,
                cx,
                cy,
                size,
                selected,
                color,
            },
            DrawOp::IconImage { app, x, y, size, corner } => DrawOp::IconImage {
                app,
                x,
                y,
                size,
                corner,
            },
            DrawOp::Dot { x, y, diameter, color } => DrawOp::Dot { x, y, diameter, color },
            DrawOp::WifiArc { cx, cy, radius, color } => DrawOp::WifiArc { cx, cy, radius, color },
        }
    }
}

/// The operations `ops` with their texts as characters.
pub open spec fn op_views(ops: Seq<DrawOp<String>>) -> Seq<OpView> {
    ops.map_values(|o: DrawOp<String>| o@)
}

proof fn lemma_op_views_push(ops: Seq<DrawOp<String>>, o: DrawOp<String>)
    ensures
        op_views(ops.push(o)) == op_views(ops).push(o@),
{
    assert(op_views(ops.push(o)) =~= op_views(ops).push(o@));
}

/// Appends `o` to `out`.
fn emit(out: &mut Vec<DrawOp<String>>, o: DrawOp<String>)
    ensures
        op_views(final(out)@) == op_views(old(out)@).push(o@),
{
    proof {
        lemma_op_views_push(out@, o);
    }
    out.push(o);
}

/// White.
pub open spec fn white() -> u16 {
    0xffff
}

/// The background, black.
pub open spec fn black() -> u16 {
    0
}

/// RGB565 word of an 8-bit color, as a `u16`.
pub open spec fn rgb(r: u8, g: u8, b: u8) -> u16 {
    rgb565_spec(r, g, b) as u16
}

/// Fill of an unselected icon tile.
pub open spec fn dim_icon_fill() -> u16 {
    rgb(44, 44, 46)
}

/// The accent color of `app` as an RGB565 word.
pub open spec fn accent_word(app: AppConfig) -> u16 {
    rgb(accent_of(app)[0], accent_of(app)[1], accent_of(app)[2])
}

/// The glyph an icon type names.
pub open spec fn icon_kind_of(t: Seq<char>) -> IconKind {
    if t == seq!['m', 'u', 's', 'i', 'c'] {
        IconKind::Music
    } else if t == seq!['b', 'i', 'r', 'd'] {
        IconKind::Bird
    } else if t == seq!['g', 'a', 'm', 'e'] {
        IconKind::Game
    } else if t == seq!['s', 'e', 't', 't', 'i', 'n', 'g', 's'] {
        IconKind::Settings
    } else {
        IconKind::Dots
    }
}

/// The glyph for an app's icon type: `music`, `bird`, `game` and `settings`
/// have their own, anything else gets the dot grid.
pub fn icon_kind(icon_type: &str) -> (k: IconKind)
    ensures
        k == icon_kind_of(icon_type@),
{
    proof {
        reveal_strlit("music");
        reveal_strlit("bird");
        reveal_strlit("game");
        reveal_strlit("settings");
        assert("music"@ =~= seq!['m', 'u', 's', 'i', 'c']);
        assert("bird"@ =~= seq!['b', 'i', 'r', 'd']);
        assert("game"@ =~= seq!['g', 'a', 'm', 'e']);
        assert("settings"@ =~= seq!['s', 'e', 't', 't', 'i', 'n', 'g', 's']);
        assert(icon_type@.subrange(0, icon_type@.len() as int) =~= icon_type@);
    }
    let n = icon_type.unicode_len();
    if slice_is(icon_type, 0, n, "music") {
        IconKind::Music
    } else if slice_is(icon_type, 0, n, "bird") {
        IconKind::Bird
    } else if slice_is(icon_type, 0, n, "game") {
        IconKind::Game
    } else if slice_is(icon_type, 0, n, "settings") {
        IconKind::Settings
    } else {
        IconKind::Dots
    }
}

/// Color of the Wi-Fi symbol: green when connected, red when disconnected,
/// grey when unknown.
pub open spec fn wifi_color(state: WifiState) -> u16 {
    match state {
        WifiState::Connected => rgb(29, 185, 84),
        WifiState::Disconnected => rgb(255, 69, 58),
        WifiState::Unknown => rgb(100, 100, 104),
    }
}

/// The Wi-Fi symbol with its left edge at `x`: three arcs of radius 4, 7
/// and 10 around `(x + 8, 15)` and a 3-pixel dot at their center.
pub open spec fn wifi_icon_ops(x: int, state: WifiState) -> Seq<OpView> {
    let c = wifi_color(state);
    let cx = (x + 8) as i32;
    seq![
        DrawOp::WifiArc { cx, cy: 15, radius: 4, color: c },
        DrawOp::WifiArc { cx, cy: 15, radius: 7, color: c },
        DrawOp::WifiArc { cx, cy: 15, radius: 10, color: c },
        DrawOp::Dot { x: (x + 7) as i32, y: 13, diameter: 3, color: c },
    ]
}

/// The status bar: the clock text at the left, then the Wi-Fi symbol.
pub open spec fn status_bar_ops(time: Seq<char>, wifi: WifiState) -> Seq<OpView> {
    seq![
        DrawOp::Text {
            text: time,
            x: 18,
            y: 12,
            font: Font::Bold12,
            align: Align::Left,
            color: white(),
        },
    ] + wifi_icon_ops(58, wifi)
}

/// "No apps found".
pub open spec fn no_apps_text() -> Seq<char> {
    seq!['N', 'o', ' ', 'a', 'p', 'p', 's', ' ', 'f', 'o', 'u', 'n', 'd']
}

/// "Edit apps.json".
pub open spec fn edit_hint_text() -> Seq<char> {
    seq!['E', 'd', 'i', 't', ' ', 'a', 'p', 'p', 's', '.', 'j', 's', 'o', 'n']
}

/// The message of an empty registry, under the status bar.
pub open spec fn no_apps_ops() -> Seq<OpView> {
    seq![
        DrawOp::Text {
            text: no_apps_text(),
            x: 120,
            y: 130,
            font: Font::Bold18,
            align: Align::Center,
            color: rgb(142, 142, 147),
        },
        DrawOp::Text {
            text: edit_hint_text(),
            x: 120,
            y: 160,
            font: Font::Regular14,
            align: Align::Center,
            color: rgb(72, 72, 74),
        },
    ]
}

/// The icon tile of side `size` with top-left corner `(x, y)` for app
/// `apps[idx]`: its own image when it has one, otherwise a rounded tile
/// (in the accent color when selected) with the glyph of its icon type
/// drawn over it (black on a selected tile, accent on a dim one).
pub open spec fn icon_ops(
    apps: Seq<AppConfig>,
    idx: int,
    x: int,
    y: int,
    size: u32,
    corner: u32,
    accent: u16,
    selected: bool,
) -> Seq<OpView> {
    match apps[idx].icon_data {
        Some(_) => seq![
            DrawOp::IconImage { app: idx as usize, x: x as i32, y: y as i32, size, corner },
        ],
        None => seq![
            DrawOp::RoundedTile {
                x: x as i32,
                y: y as i32,
                size,
                corner,
                color: if selected {
                    accent
                } else {
                    dim_icon_fill()
                },
            },
            DrawOp::Glyph {
                kind: icon_kind_of(icon_type_of(apps[idx])),
                cx: (x + size / 2) as i32,
                cy: (y + size / 2) as i32,
                size,
                selected,
                color: if selected {
                    black()
                } else {
                    accent
                },
            },
        ],
    }
}

/// An app without an icon image whose icon type is none of `music`,
/// `bird`, `game` and `settings` is drawn as an app of type `default`: a
/// rounded tile (accent when selected, dark grey otherwise) with the dot
/// grid glyph centered on it (black when selected, accent otherwise).
pub proof fn lemma_unknown_icon_type_draws_dot_grid(
    apps: Seq<AppConfig>,
    idx: int,
    x: int,
    y: int,
    size: u32,
    corner: u32,
    accent: u16,
    selected: bool,
)
    requires
        0 <= idx < apps.len(),
        apps[idx].icon_data is None,
        icon_type_of(apps[idx]) != seq!['m', 'u', 's', 'i', 'c'],
        icon_type_of(apps[idx]) != seq!['b', 'i', 'r', 'd'],
        icon_type_of(apps[idx]) != seq!['g', 'a', 'm', 'e'],
        icon_type_of(apps[idx]) != seq!['s', 'e', 't', 't', 'i', 'n', 'g', 's'],
    ensures
        icon_ops(apps, idx, x, y, size, corner, accent, selected) == icon_ops(
            apps.update(idx, (AppConfig { icon: None, ..apps[idx] })),
            idx,
            x,
            y,
            size,
            corner,
            accent,
            selected,
        ),
        icon_ops(apps, idx, x, y, size, corner, accent, selected) == seq![
            (DrawOp::<Seq<char>>::RoundedTile {
                x: x as i32,
                y: y as i32,
                size,
                corner,
                color: if selected {
                    accent
                } else {
                    dim_icon_fill()
                },
            }),
            (DrawOp::<Seq<char>>::Glyph {
                kind: IconKind::Dots,
                cx: (x + size / 2) as i32,
                cy: (y + size / 2) as i32,
                size,
                selected,
                color: if selected {
                    black()
                } else {
                    accent
                },
            }),
        ],
{
    let dflt = apps.update(idx, AppConfig { icon: None, ..apps[idx] });
    assert(icon_type_of(dflt[idx]) == default_icon_type());
    assert(icon_kind_of(default_icon_type()) == IconKind::Dots);
}

/// "Launching <name>...".
pub open spec fn launching_text(name: Seq<char>) -> Seq<char> {
    seq!['L', 'a', 'u', 'n', 'c', 'h', 'i', 'n', 'g', ' '] + name + seq!['.', '.', '.']
}

/// The launch splash of `apps[idx]`: a black screen, the app's 96-pixel
/// icon centered horizontally at the top, and "Launching <name>..." under
/// it.
pub open spec fn splash_ops(apps: Seq<AppConfig>, idx: int) -> Seq<OpView> {
    seq![DrawOp::Clear { color: black() }] + icon_ops(
        apps,
        idx,
        72,
        60,
        96,
        22,
        accent_word(apps[idx]),
        true,
    ) + seq![
        DrawOp::Text {
            text: launching_text(apps[idx].name@),
            x: 120,
            y: 184,
            font: Font::Bold18,
            align: Align::Center,
            color: white(),
        },
    ]
}

/// Both screens begin by filling the whole panel with black.
pub proof fn lemma_screens_begin_with_black(
    apps: Seq<AppConfig>,
    selected: int,
    time: Seq<char>,
    wifi: WifiState,
    idx: int,
)
    ensures
        menu_ops(apps, selected, time, wifi).len() > 0,
        menu_ops(apps, selected, time, wifi)[0] == (DrawOp::<Seq<char>>::Clear { color: black() }),
        splash_ops(apps, idx).len() > 0,
        splash_ops(apps, idx)[0] == (DrawOp::<Seq<char>>::Clear { color: black() }),
{
}

/// The color an operation draws in, if it has one.
pub open spec fn op_color(o: OpView) -> Option<u16> {
    match o {
        DrawOp::Clear { color } => Some(color),
        DrawOp::Text { color, .. } => Some(color),
        DrawOp::RoundedOutline { color, .. } => Some(color),
        DrawOp::RoundedTile { color, .. } => Some(color),
        DrawOp::Glyph { color, .. } => Some(color),
        DrawOp::IconImage { .. } => None,
        DrawOp::Dot { color, .. } => Some(color),
        DrawOp::WifiArc { color, .. } => Some(color),
    }
}

/// The Wi-Fi symbol of the menu's status bar (its three arcs and its dot,
/// right after the clock) tells the link state apart: it is green
/// (RGB565 0x1DCA, from 29, 185, 84) exactly when the state is connected,
/// red (0xFA27, from 255, 69, 58) when disconnected, and grey (0x632D, from
/// 100, 100, 104) when the state is unknown.
pub proof fn lemma_wifi_symbol_shows_link_state(
    apps: Seq<AppConfig>,
    selected: int,
    time: Seq<char>,
    wifi: WifiState,
)
    ensures
        menu_ops(apps, selected, time, wifi)[2] is WifiArc,
        menu_ops(apps, selected, time, wifi)[3] is WifiArc,
        menu_ops(apps, selected, time, wifi)[4] is WifiArc,
        menu_ops(apps, selected, time, wifi)[5] is Dot,
        wifi == WifiState::Connected <==> (forall|k: int|
            2 <= k < 6 ==> #[trigger] op_color(menu_ops(apps, selected, time, wifi)[k]) == Some(
                0x1DCAu16,
            )),
        wifi == WifiState::Disconnected ==> (forall|k: int|
            2 <= k < 6 ==> #[trigger] op_color(menu_ops(apps, selected, time, wifi)[k]) == Some(
                0xFA27u16,
            )),
        wifi == WifiState::Unknown ==> (forall|k: int|
            2 <= k < 6 ==> #[trigger] op_color(menu_ops(apps, selected, time, wifi)[k]) == Some(
                0x632Du16,
            )),
{
    let ops = menu_ops(apps, selected, time, wifi);
    let c = wifi_color(wifi);
    assert(rgb(29, 185, 84) == 0x1DCAu16);
    assert(rgb(255, 69, 58) == 0xFA27u16);
    assert(rgb(100, 100, 104) == 0x632Du16);
    assert(ops[2] == wifi_icon_ops(58, wifi)[0]);
    assert(ops[3] == wifi_icon_ops(58, wifi)[1]);
    assert(ops[4] == wifi_icon_ops(58, wifi)[2]);
    assert(ops[5] == wifi_icon_ops(58, wifi)[3]);
    assert forall|k: int| 2 <= k < 6 implies #[trigger] op_color(ops[k]) == Some(c) by {
        assert(ops[k] == wifi_icon_ops(58, wifi)[k - 2]);
    }
    if wifi != WifiState::Connected {
        assert(op_color(ops[2]) == Some(c));
    }
}

/// The RGB565 accent word of `app`.
fn accent_rgb565(app: &AppConfig) -> (c: u16)
    ensures
        c == accent_word(*app),
{
    let c = app.accent_color();
    rgb565(c[0], c[1], c[2])
}

fn push_wifi_icon(out: &mut Vec<DrawOp<String>>, x: i32, state: WifiState)
    requires
        0 <= x <= 1000,
    ensures
        op_views(final(out)@) == op_views(old(out)@) + wifi_icon_ops(x as int, state),
{
    let color: u16 = match state {
        WifiState::Connected => rgb565(29, 185, 84),
        WifiState::Disconnected => rgb565(255, 69, 58),
        WifiState::Unknown => rgb565(100, 100, 104),
    };
    let cx = x + 8;
    emit(out, DrawOp::WifiArc { cx, cy: 15, radius: 4, color });
    emit(out, DrawOp::WifiArc { cx, cy: 15, radius: 7, color });
    emit(out, DrawOp::WifiArc { cx, cy: 15, radius: 10, color });
    emit(out, DrawOp::Dot { x: cx - 1, y: 13, diameter: 3, color });
    assert(op_views(out@) =~= op_views(old(out)@) + wifi_icon_ops(x as int, state));
}

fn push_status_bar(out: &mut Vec<DrawOp<String>>, time: &str, wifi: WifiState)
    ensures
        op_views(final(out)@) == op_views(old(out)@) + status_bar_ops(time@, wifi),
{
    let text = String::from_str(time);
    emit(
        out,
        DrawOp::Text { text, x: 18, y: 12, font: Font::Bold12, align: Align::Left, color: 0xffff },
    );
    let ghost mid = op_views(out@);
    push_wifi_icon(out, 58, wifi);
    assert(op_views(out@) =~= op_views(old(out)@) + status_bar_ops(time@, wifi));
}

fn push_no_apps(out: &mut Vec<DrawOp<String>>)
    ensures
        op_views(final(out)@) == op_views(old(out)@) + no_apps_ops(),
{
    proof {
        reveal_strlit("No apps found");
        reveal_strlit("Edit apps.json");
    }
    let t1 = String::from_str("No apps found");
    let t2 = String::from_str("Edit apps.json");
    assert(t1@ =~= no_apps_text());
    assert(t2@ =~= edit_hint_text());
    emit(
        out,
        DrawOp::Text {
            text: t1,
            x: 120,
            y: 130,
            font: Font::Bold18,
            align: Align::Center,
            color: rgb565(142, 142, 147),
        },
    );
    emit(
        out,
        DrawOp::Text {
            text: t2,
            x: 120,
            y: 160,
            font: Font::Regular14,
            align: Align::Center,
            color: rgb565(72, 72, 74),
        },
    );
    assert(op_views(out@) =~= op_views(old(out)@) + no_apps_ops());
}

fn push_icon(
    out: &mut Vec<DrawOp<String>>,
    apps: &Vec<AppConfig>,
    idx: usize,
    x: i32,
    y: i32,
    size: u32,
    corner: u32,
    accent: u16,
    selected: bool,
)
    requires
        idx < apps.len(),
        -1000 <= x <= 1000,
        -1000 <= y <= 1000,
        size <= 1000,
    ensures
        op_views(final(out)@) == op_views(old(out)@) + icon_ops(
            apps@,
            idx as int,
            x as int,
            y as int,
            size,
            corner,
            accent,
            selected,
        ),
{
    let app = &apps[idx];
    match &app.icon_data {
        Some(_) => {
            emit(out, DrawOp::IconImage { app: idx, x, y, size, corner });
        },
        None => {
            let fill: u16 = if selected {
                accent
            } else {
                rgb565(44, 44, 46)
            };
            emit(out, DrawOp::RoundedTile { x, y, size, corner, color: fill });
            let kind = icon_kind(app.icon_type());
            let half: i32 = (size / 2) as i32;
            emit(
                out,
                DrawOp::Glyph {
                    kind,
                    cx: x + half,
                    cy: y + half,
                    size,
                    selected,
                    color: if selected {
                        0
                    } else {
                        accent
                    },
                },
            );
        },
    }
    assert(op_views(out@) =~= op_views(old(out)@) + icon_ops(
        apps@,
        idx as int,
        x as int,
        y as int,
        size,
        corner,
        accent,
        selected,
    ));
}

/// Lays out the launch splash of `apps[idx]` (see `splash_ops`). The index
/// is the one `IconImage` refers to.
pub fn render_splash(apps: &Vec<AppConfig>, idx: usize) -> (ops: Vec<DrawOp<String>>)
    requires
        idx < apps.len(),
    ensures
        op_views(ops@) == splash_ops(apps@, idx as int),
{
    let mut out: Vec<DrawOp<String>> = Vec::new();
    emit(&mut out, DrawOp::Clear { color: 0 });
    let app = &apps[idx];
    let accent = accent_rgb565(app);
    push_icon(&mut out, apps, idx, 72, 60, 96, 22, accent, true);
    proof {
        reveal_strlit("Launching ");
        reveal_strlit("...");
    }
    let mut text = String::from_str("Launching ");
    text.append(app.name.as_str());
    text.append("...");
    assert(text@ =~= launching_text(app.name@));
    emit(
        &mut out,
        DrawOp::Text { text, x: 120, y: 184, font: Font::Bold18, align: Align::Center, color: 0xffff },
    );
    assert(op_views(out@) =~= splash_ops(apps@, idx as int));
    out
}

/// Apps per grid page (two rows of two).
pub const ITEMS_PER_PAGE: usize = 4;

/// The grid cell in slot `slot` (0..4, row-major) of the page, showing
/// `apps[idx]`: a white outline around the tile when the app is selected,
/// the 80-pixel icon tile (pulled 10 pixels towards the screen's middle),
/// and the app's name under it, white when selected and light grey
/// otherwise.
pub open spec fn cell_ops(apps: Seq<AppConfig>, idx: int, slot: int, selected: bool) -> Seq<OpView> {
    let row = slot / 2;
    let col = slot % 2;
    let cell_x = col * 120;
    let cell_y = 32 + row * 116;
    let icon_x = cell_x + 20 + if col == 0 {
        10int
    } else {
        -10int
    };
    let icon_y = cell_y;
    (if selected {
        seq![
            DrawOp::RoundedOutline {
                x: (icon_x - 4) as i32,
                y: (icon_y - 4) as i32,
                size: 88,
                corner: 23,
                stroke: 3,
                color: white(),
            },
        ]
    } else {
        Seq::<OpView>::empty()
    }) + icon_ops(apps, idx, icon_x, icon_y, 80, 20, accent_word(apps[idx]), true) + seq![
        DrawOp::Text {
            text: apps[idx].name@,
            x: (cell_x + 60) as i32,
            y: (icon_y + 94) as i32,
            font: Font::Bold12,
            align: Align::Center,
            color: if selected {
                white()
            } else {
                rgb(200, 200, 204)
            },
        },
    ]
}

/// Index of the first app on the page that shows `apps[selected]`.
pub open spec fn page_start(selected: int) -> int {
    (selected / ITEMS_PER_PAGE as int) * ITEMS_PER_PAGE as int
}

/// How many cells a page starting at app `start` shows out of `n` apps.
pub open spec fn slots_shown(n: int, start: int) -> int {
    if start >= n {
        0
    } else if n - start < ITEMS_PER_PAGE {
        n - start
    } else {
        ITEMS_PER_PAGE as int
    }
}

/// The first `k` cells of the page starting at app `start`.
pub open spec fn grid_ops(apps: Seq<AppConfig>, selected: int, start: int, k: int) -> Seq<OpView>
    decreases k,
{
    if k <= 0 {
        Seq::empty()
    } else {
        grid_ops(apps, selected, start, k - 1) + cell_ops(
            apps,
            start + k - 1,
            k - 1,
            start + k - 1 == selected,
        )
    }
}

/// Number of grid pages for `n` apps.
pub open spec fn page_count(n: int) -> int {
    (n + ITEMS_PER_PAGE as int - 1) / ITEMS_PER_PAGE as int
}

/// `a / 2` rounded toward zero, as integer division does.
pub open spec fn half_toward_zero(a: int) -> int {
    if a >= 0 {
        a / 2
    } else {
        -((-a) / 2)
    }
}

/// Left edge of the first of `total` page dots: the row of 8-pixel dots,
/// 14 pixels apart, is centered on the panel.
pub open spec fn dots_left(total: int) -> int {
    half_toward_zero(240 - (total * 8 + (total - 1) * 6))
}

/// The first `k` of `total` page dots, the one of page `page` in `accent`
/// and the rest dark grey.
pub open spec fn dot_ops(total: int, page: int, accent: u16, k: int) -> Seq<OpView>
    decreases k,
{
    if k <= 0 {
        Seq::empty()
    } else {
        dot_ops(total, page, accent, k - 1) + seq![
            DrawOp::Dot {
                x: (dots_left(total) + (k - 1) * 14) as i32,
                y: 270,
                diameter: 8,
                color: if k - 1 == page {
                    accent
                } else {
                    rgb(50, 50, 54)
                },
            },
        ]
    }
}

/// The page dots, shown when the apps fill more than one page, the current
/// page's dot in the selected app's accent color.
pub open spec fn page_dots_ops(apps: Seq<AppConfig>, selected: int) -> Seq<OpView> {
    let total = page_count(apps.len() as int);
    if total > 1 {
        dot_ops(total, selected / ITEMS_PER_PAGE as int, accent_word(apps[selected]), total)
    } else {
        Seq::empty()
    }
}

/// The menu screen: a black screen, the status bar, and either the
/// empty-registry message or the page of the grid that holds the selected
/// app followed by the page dots.
pub open spec fn menu_ops(
    apps: Seq<AppConfig>,
    selected: int,
    time: Seq<char>,
    wifi: WifiState,
) -> Seq<OpView> {
    seq![DrawOp::Clear { color: black() }] + status_bar_ops(time, wifi) + if apps.len() == 0 {
        no_apps_ops()
    } else {
        grid_ops(apps, selected, page_start(selected), slots_shown(apps.len() as int, page_start(selected)))
            + page_dots_ops(apps, selected)
    }
}

fn push_cell(out: &mut Vec<DrawOp<String>>, apps: &Vec<AppConfig>, idx: usize, slot: usize, selected: bool)
    requires
        idx < apps.len(),
        slot < ITEMS_PER_PAGE,
    ensures
        op_views(final(out)@) == op_views(old(out)@) + cell_ops(apps@, idx as int, slot as int, selected),
{
    let app = &apps[idx];
    let accent = accent_rgb565(app);
    let row: i32 = (slot / 2) as i32;
    let col: i32 = (slot % 2) as i32;
    let cell_x: i32 = col * 120;
    let cell_y: i32 = 32 + row * 116;
    let inset: i32 = if col == 0 {
        10
    } else {
        -10
    };
    let icon_x: i32 = cell_x + 20 + inset;
    let icon_y: i32 = cell_y;
    let ghost start = op_views(out@);
    if selected {
        emit(
            out,
            DrawOp::RoundedOutline {
                x: icon_x - 4,
                y: icon_y - 4,
                size: 88,
                corner: 23,
                stroke: 3,
                color: 0xffff,
            },
        );
    }
    let ghost after_outline = op_views(out@);
    push_icon(out, apps, idx, icon_x, icon_y, 80, 20, accent, true);
    let text_color: u16 = if selected {
        0xffff
    } else {
        rgb565(200, 200, 204)
    };
    emit(
        out,
        DrawOp::Text {
            text: app.name.clone(),
            x: cell_x + 60,
            y: icon_y + 94,
            font: Font::Bold12,
            align: Align::Center,
            color: text_color,
        },
    );
    assert(op_views(out@) =~= start + cell_ops(apps@, idx as int, slot as int, selected));
}

fn push_page_dots(out: &mut Vec<DrawOp<String>>, total: usize, page: usize, accent: u16)
    requires
        1 <= total <= 153_391_689,
    ensures
        op_views(final(out)@) == op_views(old(out)@) + dot_ops(
            total as int,
            page as int,
            accent,
            total as int,
        ),
{
    let t: i32 = total as i32;
    let total_w: i32 = t * 8 + (t - 1) * 6;
    let room: i32 = 240 - total_w;
    let start_x: i32 = if room >= 0 {
        room / 2
    } else {
        -((-room) / 2)
    };
    assert(start_x == dots_left(total as int));
    let ghost start = op_views(out@);
    let mut i: usize = 0;
    while i < total
        invariant
            i <= total,
            1 <= total <= 153_391_689,
            t == total,
            start_x == dots_left(total as int),
            op_views(out@) == start + dot_ops(total as int, page as int, accent, i as int),
        decreases total - i,
    {
        let color: u16 = if i == page {
            accent
        } else {
            rgb565(50, 50, 54)
        };
        emit(out, DrawOp::Dot { x: start_x + i as i32 * 14, y: 270, diameter: 8, color });
        assert(op_views(out@) =~= start + dot_ops(total as int, page as int, accent, i + 1));
        i = i + 1;
    }
}

/// Lays out the menu screen for the registry `apps`, with `apps[selected]`
/// selected, the clock text `time_str` and the Wi-Fi state `wifi` (see
/// `menu_ops`). With more than one page of apps, `selected` must name one
/// of them. The registry holds at most 613 566 756 apps: with more pages
/// than that, the width of the row of page dots overflows an `i32`.
pub fn render(apps: &Vec<AppConfig>, selected: usize, time_str: &str, wifi: WifiState) -> (ops: Vec<
    DrawOp<String>,
>)
    requires
        apps.len() > ITEMS_PER_PAGE ==> selected < apps.len(),
        apps.len() <= 613_566_756,
    ensures
        op_views(ops@) == menu_ops(apps@, selected as int, time_str@, wifi),
{
    let mut out: Vec<DrawOp<String>> = Vec::new();
    emit(&mut out, DrawOp::Clear { color: 0 });
    push_status_bar(&mut out, time_str, wifi);
    let ghost head = op_views(out@);
    let n = apps.len();
    if n == 0 {
        push_no_apps(&mut out);
        assert(op_views(out@) =~= menu_ops(apps@, selected as int, time_str@, wifi));
        return out;
    }
    let page = selected / ITEMS_PER_PAGE;
    let start = page * ITEMS_PER_PAGE;
    let shown: usize = if start >= n {
        0
    } else if n - start < ITEMS_PER_PAGE {
        n - start
    } else {
        ITEMS_PER_PAGE
    };
    assert(start == page_start(selected as int));
    assert(shown == slots_shown(n as int, start as int));
    let mut slot: usize = 0;
    while slot < shown
        invariant
            slot <= shown,
            shown <= ITEMS_PER_PAGE,
            shown > 0 ==> start + shown <= n,
            n == apps.len(),
            op_views(out@) == head + grid_ops(apps@, selected as int, start as int, slot as int),
        decreases shown - slot,
    {
        let idx = start + slot;
        push_cell(&mut out, apps, idx, slot, idx == selected);
        slot = slot + 1;
        assert(op_views(out@) =~= head + grid_ops(apps@, selected as int, start as int, slot as int));
    }
    let ghost with_grid = op_views(out@);
    let total = (n + ITEMS_PER_PAGE - 1) / ITEMS_PER_PAGE;
    if total > 1 {
        let accent = accent_rgb565(&apps[selected]);
        push_page_dots(&mut out, total, page, accent);
    }
    assert(op_views(out@) =~= menu_ops(apps@, selected as int, time_str@, wifi));
    out
}

/// The resolution of an app's icon used for a tile of side `size`: the
/// 64-pixel image up to 64, the 80-pixel one up to 80, the 96-pixel one
/// above.
pub open spec fn icon_resolution(data: IconData, size: u32) -> (Seq<u8>, u32) {
    if size <= 64 {
        (data.rgba_64@, 64)
    } else if size <= 80 {
        (data.rgba_80@, 80)
    } else {
        (data.rgba_96@, 96)
    }
}

/// Draws an app's own icon for a tile of side `size` at `(x, y)`: the
/// resolution chosen by `icon_resolution`, blitted with corners rounded to
/// `corner` (what an `IconImage` operation stands for).
pub fn draw_icon_image(fb: &mut Framebuffer, data: &IconData, x: i32, y: i32, size: u32, corner: u32)
    requires
        old(fb)@.len() == BUF_SIZE,
    ensures
        final(fb)@ == blit_image(
            old(fb)@,
            x,
            y,
            icon_resolution(*data, size).1,
            icon_resolution(*data, size).1,
            corner,
            icon_resolution(*data, size).0,
        ),
{
    if size <= 64 {
        fb.blit_rgba_rounded(x, y, 64, 64, corner, data.rgba_64.as_slice());
    } else if size <= 80 {
        fb.blit_rgba_rounded(x, y, 80, 80, corner, data.rgba_80.as_slice());
    } else {
        fb.blit_rgba_rounded(x, y, 96, 96, corner, data.rgba_96.as_slice());
    }
}

/// The page on screen holds the selected app: its cell is among the ones
/// `render` lays out.
pub proof fn lemma_selected_on_shown_page(n: int, selected: int)
    requires
        0 <= selected < n,
    ensures
        page_start(selected) <= selected < page_start(selected) + slots_shown(n, page_start(selected)),
{
}

/// There is one page dot per page, and exactly the current page's dot is
/// drawn in the accent color (when it differs from the other dots' grey).
pub proof fn lemma_one_dot_per_page(total: int, page: int, accent: u16, k: int)
    requires
        0 <= k,
        accent != rgb(50, 50, 54),
    ensures
        dot_ops(total, page, accent, k).len() == k,
        forall|i: int|
            0 <= i < k ==> (#[trigger] dot_ops(total, page, accent, k)[i] matches DrawOp::Dot {
                color,
                ..
            } && (
            color == accent <==> i == page)),
    decreases k,
{
    if k > 0 {
        lemma_one_dot_per_page(total, page, accent, k - 1);
        assert forall|i: int| 0 <= i < k implies (#[trigger] dot_ops(total, page, accent, k)[i] matches DrawOp::Dot {
            color,
            ..
        } && (color == accent <==> i == page)) by {
            if i < k - 1 {
                assert(dot_ops(total, page, accent, k)[i] == dot_ops(total, page, accent, k - 1)[i]);
            }
        }
    }
}

/// Number of selection outlines among `ops`.
pub open spec fn outline_count(ops: Seq<OpView>) -> nat
    decreases ops.len(),
{
    if ops.len() == 0 {
        0
    } else {
        outline_count(ops.drop_last()) + if ops.last() is RoundedOutline {
            1nat
        } else {
            0nat
        }
    }
}

proof fn lemma_outline_count_concat(a: Seq<OpView>, b: Seq<OpView>)
    ensures
        outline_count(a + b) == outline_count(a) + outline_count(b),
    decreases b.len(),
{
    if b.len() > 0 {
        lemma_outline_count_concat(a, b.drop_last());
        assert((a + b).drop_last() =~= a + b.drop_last());
    } else {
        assert(a + b =~= a);
    }
}

proof fn lemma_no_outline_in_icon(
    apps: Seq<AppConfig>,
    idx: int,
    x: int,
    y: int,
    size: u32,
    corner: u32,
    accent: u16,
    selected: bool,
)
    ensures
        outline_count(icon_ops(apps, idx, x, y, size, corner, accent, selected)) == 0,
{
    let ops = icon_ops(apps, idx, x, y, size, corner, accent, selected);
    reveal_with_fuel(outline_count, 3);
    assert(ops.len() <= 2);
    if ops.len() == 2 {
        assert(ops.drop_last().drop_last() =~= Seq::<OpView>::empty());
    } else {
        assert(ops.drop_last() =~= Seq::<OpView>::empty());
    }
}

proof fn lemma_cell_outlines(apps: Seq<AppConfig>, idx: int, slot: int, selected: bool)
    ensures
        outline_count(cell_ops(apps, idx, slot, selected)) == if selected {
            1nat
        } else {
            0nat
        },
{
    let row = slot / 2;
    let col = slot % 2;
    let cell_x = col * 120;
    let icon_x = cell_x + 20 + if col == 0 {
        10int
    } else {
        -10int
    };
    let icon_y = 32 + row * 116;
    let head: Seq<OpView> = if selected {
        seq![
            DrawOp::RoundedOutline {
                x: (icon_x - 4) as i32,
                y: (icon_y - 4) as i32,
                size: 88,
                corner: 23,
                stroke: 3,
                color: white(),
            },
        ]
    } else {
        Seq::<OpView>::empty()
    };
    let icon = icon_ops(apps, idx, icon_x, icon_y, 80, 20, accent_word(apps[idx]), true);
    let text: Seq<OpView> = seq![
        DrawOp::Text {
            text: apps[idx].name@,
            x: (cell_x + 60) as i32,
            y: (icon_y + 94) as i32,
            font: Font::Bold12,
            align: Align::Center,
            color: if selected {
                white()
            } else {
                rgb(200, 200, 204)
            },
        },
    ];
    assert(cell_ops(apps, idx, slot, selected) == head + icon + text);
    lemma_outline_count_concat(head + icon, text);
    lemma_outline_count_concat(head, icon);
    lemma_no_outline_in_icon(apps, idx, icon_x, icon_y, 80, 20, accent_word(apps[idx]), true);
    reveal_with_fuel(outline_count, 2);
    assert(text.drop_last() =~= Seq::<OpView>::empty());
    if selected {
        assert(head.drop_last() =~= Seq::<OpView>::empty());
    }
}

proof fn lemma_grid_outlines(apps: Seq<AppConfig>, selected: int, start: int, k: int)
    ensures
        outline_count(grid_ops(apps, selected, start, k)) == if start <= selected < start + k {
            1nat
        } else {
            0nat
        },
    decreases k,
{
    if k > 0 {
        lemma_grid_outlines(apps, selected, start, k - 1);
        lemma_outline_count_concat(
            grid_ops(apps, selected, start, k - 1),
            cell_ops(apps, start + k - 1, k - 1, start + k - 1 == selected),
        );
        lemma_cell_outlines(apps, start + k - 1, k - 1, start + k - 1 == selected);
    }
}

proof fn lemma_no_outline_in_dots(total: int, page: int, accent: u16, k: int)
    ensures
        outline_count(dot_ops(total, page, accent, k)) == 0,
    decreases k,
{
    if k > 0 {
        lemma_no_outline_in_dots(total, page, accent, k - 1);
        assert(dot_ops(total, page, accent, k).drop_last() =~= dot_ops(total, page, accent, k - 1));
    }
}

proof fn lemma_no_outline_in(ops: Seq<OpView>)
    requires
        forall|i: int| 0 <= i < ops.len() ==> !(#[trigger] ops[i] is RoundedOutline),
    ensures
        outline_count(ops) == 0,
    decreases ops.len(),
{
    if ops.len() > 0 {
        lemma_no_outline_in(ops.drop_last());
    }
}

/// The menu outlines exactly one tile, the selected app's, whenever there
/// are apps and the selection names one of them.
pub proof fn lemma_one_app_highlighted(
    apps: Seq<AppConfig>,
    selected: int,
    time: Seq<char>,
    wifi: WifiState,
)
    requires
        0 <= selected < apps.len(),
    ensures
        outline_count(menu_ops(apps, selected, time, wifi)) == 1,
{
    let head = seq![DrawOp::Clear { color: black() }] + status_bar_ops(time, wifi);
    let start = page_start(selected);
    let grid = grid_ops(apps, selected, start, slots_shown(apps.len() as int, start));
    let dots = page_dots_ops(apps, selected);
    assert(menu_ops(apps, selected, time, wifi) == head + (grid + dots));
    lemma_no_outline_in(head);
    lemma_selected_on_shown_page(apps.len() as int, selected);
    lemma_grid_outlines(apps, selected, start, slots_shown(apps.len() as int, start));
    let total = page_count(apps.len() as int);
    if total > 1 {
        lemma_no_outline_in_dots(total, selected / ITEMS_PER_PAGE as int, accent_word(apps[selected]), total);
    } else {
        lemma_no_outline_in(dots);
    }
    lemma_outline_count_concat(grid, dots);
    lemma_outline_count_concat(head, grid + dots);
}

} // verus!
