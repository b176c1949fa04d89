//! The manager's window: scaling, the places of its parts, and what is drawn.

use crate::capture::DEFAULT_DPI;
use crate::geometry::{max_int, min_int, ScreenRect};
use crate::manager_text::TextKey;
use vstd::prelude::*;

verus! {

pub const NAV_WIDTH: i32 = 176;

pub const PAGE_HEADER_HEIGHT: i32 = 56;

pub const MIN_CONTENT_WIDTH: i32 = 780;

pub const MIN_CLIENT_HEIGHT: i32 = 610;

pub const WINDOW_WIDTH: i32 = 980;

pub const WINDOW_HEIGHT: i32 = 680;

/// Colors, as blue, green and red bytes.
pub const MANAGER_BG: u32 = 0x002A_170F;

pub const NAV_BG: u32 = 0x001C_0F0A;

pub const SURFACE_BG: u32 = 0x0036_2218;

pub const SURFACE_HOVER: u32 = 0x0045_2D21;

pub const BORDER: u32 = 0x0055_4133;

pub const TEXT: u32 = 0x00F0_E8E2;

pub const MUTED: u32 = 0x00B8_A394;

pub const ACCENT: u32 = 0x00FA_A560;

pub const DANGER: u32 = 0x0071_71F8;

pub const ID_SETTINGS_TAB: usize = 100;

pub const ID_PROMPTS_TAB: usize = 101;

pub const ID_HISTORY_TAB: usize = 102;

pub const ID_SAVE_SETTINGS: usize = 110;

pub const ID_SAVE_KEY: usize = 111;

pub const ID_DELETE_KEY: usize = 112;

pub const ID_SAVE_PROMPT: usize = 120;

pub const ID_NEW_PROMPT: usize = 121;

pub const ID_PREVIOUS_PROMPT: usize = 122;

pub const ID_NEXT_PROMPT: usize = 123;

pub const ID_CLOSE: usize = 130;

pub const ID_HISTORY_PROMPT: usize = 141;

pub const ID_HISTORY_SOURCE: usize = 142;

pub const ID_HISTORY_ORDER: usize = 143;

pub const ID_HISTORY_LIST: usize = 144;

pub const ID_HISTORY_REFRESH: usize = 145;

pub const ID_HISTORY_COPY: usize = 146;

pub const ID_HISTORY_DELETE: usize = 147;

pub const ID_LANGUAGE: usize = 148;

/// A page of the manager.
#[derive(Clone, Copy, Debug, PartialEq, Eq, Structural)]
pub enum Page {
    Settings,
    Prompts,
    History,
}

/// Exactly one page is visible: the selected one.
pub fn page_is_visible(page: Page, selected_page: Page) -> (visible: bool)
    ensures
        visible == (page == selected_page),
{
    page == selected_page
}

/// A length of the design, in pixels of a display with `dpi` dots per inch: at
/// least one.
pub open spec fn scaled(value: int, dpi: int) -> int {
    min_int(max_int(value * max_int(dpi, 96) / 96, 1), i32::MAX as int)
}

/// A length in pixels, in units of the design: at least one.
pub open spec fn unscaled(value: int, dpi: int) -> int {
    min_int(max_int(value * 96 / max_int(dpi, 96), 1), i32::MAX as int)
}

fn effective_dpi(dpi: u32) -> (effective: i64)
    ensures
        effective == max_int(dpi as int, 96),
{
    if dpi < 96 {
        96
    } else {
        dpi as i64
    }
}

fn clamped_length(value: i64) -> (length: i32)
    ensures
        length == min_int(max_int(value as int, 1), i32::MAX as int),
{
    if value < 1 {
        1
    } else if value > 2_147_483_647 {
        i32::MAX
    } else {
        value as i32
    }
}

pub fn scale_for_dpi(value: i32, dpi: u32) -> (length: i32)
    ensures
        length == scaled(value as int, dpi as int),
{
    if value < 1 {
        proof {
            assert(value * max_int(dpi as int, 96) / 96 <= 0) by (nonlinear_arith)
                requires
                    value <= 0,
            ;
        }
        return 1;
    }
    let factor: i64 = effective_dpi(dpi);
    proof {
        assert(0 <= value * factor <= 0x7fff_ffff * 0xffff_ffff) by (nonlinear_arith)
            requires
                0 <= value <= 0x7fff_ffff,
                0 <= factor <= 0xffff_ffff,
        ;
    }
    let product: i64 = value as i64 * factor;
    clamped_length(product / 96)
}

pub fn unscale_from_dpi(value: i32, dpi: u32) -> (length: i32)
    ensures
        length == unscaled(value as int, dpi as int),
{
    if value < 1 {
        proof {
            assert(value * 96 / max_int(dpi as int, 96) <= 0) by (nonlinear_arith)
                requires
                    value <= 0,
                    max_int(dpi as int, 96) >= 96,
            ;
        }
        return 1;
    }
    let factor: i64 = effective_dpi(dpi);
    let product: i64 = value as i64 * 96;
    clamped_length(product / factor)
}

/// Scaling a length and back loses less than one unit, and nothing where the
/// scaled length is a whole number of pixels.
pub proof fn lemma_scaling_and_back(value: int, dpi: int)
    requires
        value >= 1,
        dpi >= 96,
        value * dpi / 96 <= i32::MAX,
    ensures
        value - 1 <= unscaled(scaled(value, dpi), dpi) <= value,
        (value * dpi) % 96 == 0 ==> unscaled(scaled(value, dpi), dpi) == value,
{
    let product = value * dpi;
    assert(product >= value * 96) by (nonlinear_arith)
        requires
            value >= 1,
            dpi >= 96,
            product == value * dpi,
    ;
    let pixels = product / 96;
    assert(pixels >= value >= 1);
    assert(scaled(value, dpi) == pixels);
    let rest = product % 96;
    assert(pixels * 96 == product - rest);
    let back = (pixels * 96) / dpi;
    assert(value - 1 <= back <= value) by (nonlinear_arith)
        requires
            back == (value * dpi - rest) / dpi,
            0 <= rest < 96 <= dpi,
    ;
    if rest == 0 {
        assert(back == value) by (nonlinear_arith)
            requires
                back == (value * dpi) / dpi,
                dpi >= 96,
        ;
    }
    assert(value <= i32::MAX);
}

pub open spec fn scaled_rect_of(rect: ScreenRect, dpi: int) -> ScreenRect {
    ScreenRect {
        left: scaled(rect.left as int, dpi) as i32,
        top: scaled(rect.top as int, dpi) as i32,
        right: scaled(rect.right as int, dpi) as i32,
        bottom: scaled(rect.bottom as int, dpi) as i32,
    }
}

pub fn scaled_rect(rect: ScreenRect, dpi: u32) -> (pixels: ScreenRect)
    ensures
        pixels == scaled_rect_of(rect, dpi as int),
{
    ScreenRect::new(
        scale_for_dpi(rect.left, dpi),
        scale_for_dpi(rect.top, dpi),
        scale_for_dpi(rect.right, dpi),
        scale_for_dpi(rect.bottom, dpi),
    )
}

/// The position and size that a window is given.
#[derive(Clone, Copy, Debug, PartialEq, Eq, Structural)]
pub struct Frame {
    pub left: i32,
    pub top: i32,
    pub width: i32,
    pub height: i32,
}

/// The frame with the edges of `rect`, at least one pixel wide and high.
pub open spec fn frame_of(rect: ScreenRect) -> Frame {
    Frame {
        left: rect.left,
        top: rect.top,
        width: max_int(rect.right - rect.left, 1) as i32,
        height: max_int(rect.bottom - rect.top, 1) as i32,
    }
}

fn extent(from: i32, to: i32) -> (length: i32)
    requires
        i32::MIN <= to - from <= i32::MAX,
    ensures
        length == max_int(to - from, 1),
{
    let length: i32 = to - from;
    if length < 1 {
        1
    } else {
        length
    }
}

/// The frame of a window that takes over the edges of `rect`, as the system
/// suggests them when the display changes.
pub fn suggested_frame(rect: ScreenRect) -> (frame: Frame)
    requires
        i32::MIN <= rect.right - rect.left <= i32::MAX,
        i32::MIN <= rect.bottom - rect.top <= i32::MAX,
    ensures
        frame == frame_of(rect),
{
    Frame {
        left: rect.left,
        top: rect.top,
        width: extent(rect.left, rect.right),
        height: extent(rect.top, rect.bottom),
    }
}

/// The frame, in pixels, of a part with the edges `rect` in the design.
pub fn place_control(rect: ScreenRect, dpi: u32) -> (frame: Frame)
    ensures
        frame == frame_of(scaled_rect_of(rect, dpi as int)),
{
    let pixels: ScreenRect = scaled_rect(rect, dpi);
    suggested_frame(pixels)
}

/// The frame of a new control, whose edges are scaled one by one.
pub fn control_frame(x: i32, y: i32, width: i32, height: i32, dpi: u32) -> (frame: Frame)
    ensures
        frame == (Frame {
            left: scaled(x as int, dpi as int) as i32,
            top: scaled(y as int, dpi as int) as i32,
            width: scaled(width as int, dpi as int) as i32,
            height: scaled(height as int, dpi as int) as i32,
        }),
{
    Frame {
        left: scale_for_dpi(x, dpi),
        top: scale_for_dpi(y, dpi),
        width: scale_for_dpi(width, dpi),
        height: scale_for_dpi(height, dpi),
    }
}

/// The parts of the window, in units of the design.
#[derive(Clone, Copy, Debug)]
pub struct ManagerLayout {
    pub nav: ScreenRect,
    pub page: ScreenRect,
    pub status: ScreenRect,
    /// The three pages' buttons, and the one that closes the window.
    pub nav_buttons: [ScreenRect; 4],
}

pub open spec fn nav_width(width: int) -> int {
    min_int(NAV_WIDTH as int, width)
}

/// The right edge of the navigation's buttons.
pub open spec fn button_right(width: int) -> int {
    max_int(nav_width(width) - 16, 17)
}

/// The top of the button that closes the window.
pub open spec fn close_top(height: int) -> int {
    max_int(height - 58, 216)
}

pub open spec fn nav_button(width: int, top: int) -> ScreenRect {
    ScreenRect {
        left: 16,
        top: top as i32,
        right: button_right(width) as i32,
        bottom: (top + 42) as i32,
    }
}

pub open spec fn page_rect(width: int, height: int) -> ScreenRect {
    ScreenRect {
        left: nav_width(width) as i32,
        top: 0,
        right: width as i32,
        bottom: height as i32,
    }
}

pub open spec fn status_rect(width: int, height: int) -> ScreenRect {
    ScreenRect {
        left: 16,
        top: 238,
        right: button_right(width) as i32,
        bottom: (close_top(height) - 12) as i32,
    }
}

/// The layout of a client area of `width` by `height` units of the design.
pub open spec fn is_layout(layout: ManagerLayout, width: int, height: int) -> bool {
    &&& layout.nav == (ScreenRect {
        left: 0,
        top: 0,
        right: nav_width(width) as i32,
        bottom: height as i32,
    })
    &&& layout.page == page_rect(width, height)
    &&& layout.status == status_rect(width, height)
    &&& layout.nav_buttons@ == seq![
        nav_button(width, 78),
        nav_button(width, 126),
        nav_button(width, 174),
        nav_button(width, close_top(height)),
    ]
}

impl ManagerLayout {
    /// The layout of a client area of `width` by `height` pixels.
    pub fn for_client(width: i32, height: i32, dpi: u32) -> (layout: ManagerLayout)
        ensures
            is_layout(
                layout,
                unscaled(max_int(width as int, 1), dpi as int),
                unscaled(max_int(height as int, 1), dpi as int),
            ),
    {
        let logical_width: i32 = unscale_from_dpi(
            if width < 1 {
                1
            } else {
                width
            },
            dpi,
        );
        let logical_height: i32 = unscale_from_dpi(
            if height < 1 {
                1
            } else {
                height
            },
            dpi,
        );
        let nav_right: i32 = if NAV_WIDTH <= logical_width {
            NAV_WIDTH
        } else {
            logical_width
        };
        let right: i32 = if nav_right - 16 >= 17 {
            nav_right - 16
        } else {
            17
        };
        let close: i32 = if logical_height - 58 >= 216 {
            logical_height - 58
        } else {
            216
        };
        let layout = ManagerLayout {
            nav: ScreenRect::new(0, 0, nav_right, logical_height),
            page: ScreenRect::new(nav_right, 0, logical_width, logical_height),
            status: ScreenRect::new(16, 238, right, close - 12),
            nav_buttons: [
                ScreenRect::new(16, 78, right, 120),
                ScreenRect::new(16, 126, right, 168),
                ScreenRect::new(16, 174, right, 216),
                ScreenRect::new(16, close, right, close + 42),
            ],
        };
        proof {
            let w = unscaled(max_int(width as int, 1), dpi as int);
            let h = unscaled(max_int(height as int, 1), dpi as int);
            assert(layout.nav_buttons@ =~= seq![
                nav_button(w, 78),
                nav_button(w, 126),
                nav_button(w, 174),
                nav_button(w, close_top(h)),
            ]);
        }
        layout
    }
}

/// The navigation and the page are side by side and fill the client area.
pub proof fn lemma_navigation_and_page_fill_the_window(
    layout: ManagerLayout,
    width: int,
    height: int,
    x: int,
    y: int,
)
    requires
        is_layout(layout, width, height),
        1 <= width <= i32::MAX,
        1 <= height <= i32::MAX,
    ensures
        layout.nav.right == layout.page.left,
        !(layout.nav.covers(x, y) && layout.page.covers(x, y)),
        (0 <= x < width && 0 <= y < height) == (layout.nav.covers(x, y) || layout.page.covers(
            x,
            y,
        )),
{
}

/// The buttons of the navigation follow one another without touching, and the
/// status ends above the button that closes the window.
pub proof fn lemma_navigation_is_stacked(layout: ManagerLayout, width: int, height: int)
    requires
        is_layout(layout, width, height),
        1 <= width <= i32::MAX,
        1 <= height <= i32::MAX,
    ensures
        layout.nav_buttons@[0].bottom < layout.nav_buttons@[1].top,
        layout.nav_buttons@[1].bottom < layout.nav_buttons@[2].top,
        layout.nav_buttons@[2].bottom <= layout.nav_buttons@[3].top,
        layout.status.bottom <= layout.nav_buttons@[3].top - 12,
        forall|i: int| 0 <= i < 4 ==> (#[trigger] layout.nav_buttons@[i]).nonempty(),
{
}

/// Room beyond the navigation goes to the page: the navigation stays.
pub proof fn lemma_navigation_is_fixed(
    a: ManagerLayout,
    b: ManagerLayout,
    a_width: int,
    b_width: int,
    height: int,
)
    requires
        is_layout(a, a_width, height),
        is_layout(b, b_width, height),
        NAV_WIDTH <= a_width < b_width <= i32::MAX,
        1 <= height <= i32::MAX,
    ensures
        a.nav == b.nav,
        a.nav_buttons@ == b.nav_buttons@,
        a.status == b.status,
        a.page.left == b.page.left,
        a.page.right < b.page.right,
{
    assert(a.nav_buttons@ =~= b.nav_buttons@);
}

/// The smallest size of the window.
pub fn min_track_size(dpi: u32) -> (size: (i32, i32))
    ensures
        size.0 == scaled(NAV_WIDTH + MIN_CONTENT_WIDTH, dpi as int),
        size.1 == scaled(MIN_CLIENT_HEIGHT + 40, dpi as int),
{
    (scale_for_dpi(NAV_WIDTH + MIN_CONTENT_WIDTH, dpi), scale_for_dpi(MIN_CLIENT_HEIGHT + 40, dpi))
}

/// The size that the window opens with.
pub fn window_size(dpi: u32) -> (size: (i32, i32))
    ensures
        size.0 == scaled(WINDOW_WIDTH as int, dpi as int),
        size.1 == scaled(WINDOW_HEIGHT as int, dpi as int),
{
    (scale_for_dpi(WINDOW_WIDTH, dpi), scale_for_dpi(WINDOW_HEIGHT, dpi))
}

/// The dots per inch that the manager goes by: never less than the default.
pub fn usable_dpi(reported: u32) -> (dpi: u32)
    ensures
        dpi == max_int(reported as int, DEFAULT_DPI as int),
{
    if reported < DEFAULT_DPI {
        DEFAULT_DPI
    } else {
        reported
    }
}

/// The dots per inch that a changed display reports in its message.
pub fn dpi_of_message(wparam: usize) -> (dpi: u32)
    ensures
        dpi == max_int(wparam as int / 0x1_0000 % 0x1_0000_0000, DEFAULT_DPI as int),
{
    let reported: u64 = wparam as u64 / 0x1_0000 % 0x1_0000_0000;
    usable_dpi(reported as u32)
}

/// The colors of a button.
#[derive(Clone, Copy, Debug, PartialEq, Eq, Structural)]
pub struct ButtonStyle {
    pub fill: u32,
    pub text: u32,
    pub border: u32,
    pub focused: bool,
}

/// The button leads to the page that is shown.
pub open spec fn is_selected_nav(id: usize, page: Page) -> bool {
    ||| id == ID_SETTINGS_TAB && page == Page::Settings
    ||| id == ID_PROMPTS_TAB && page == Page::Prompts
    ||| id == ID_HISTORY_TAB && page == Page::History
}

pub open spec fn is_destructive(id: usize) -> bool {
    id == ID_DELETE_KEY || id == ID_HISTORY_DELETE
}

pub open spec fn is_primary(id: usize) -> bool {
    id == ID_SAVE_SETTINGS || id == ID_SAVE_KEY || id == ID_SAVE_PROMPT || id == ID_HISTORY_REFRESH
}

/// The bit of a button's state that says so.
pub open spec fn is_pressed(state: u32) -> bool {
    state % 2 == 1
}

pub open spec fn is_disabled(state: u32) -> bool {
    state / 4 % 2 == 1
}

pub open spec fn is_focused(state: u32) -> bool {
    state / 16 % 2 == 1
}

/// How a button is drawn. A disabled button fades into the window, a pressed
/// one lights up, and the shown page and the primary actions stand out.
pub fn draw_manager_button(id: usize, state: u32, page: Page) -> (style: ButtonStyle)
    ensures
        style.fill == if is_disabled(state) {
            MANAGER_BG
        } else if is_pressed(state) {
            SURFACE_HOVER
        } else if is_selected_nav(id, page) || is_primary(id) {
            ACCENT
        } else {
            SURFACE_BG
        },
        style.text == if is_destructive(id) {
            DANGER
        } else {
            TEXT
        },
        style.border == if is_focused(state) || is_selected_nav(id, page) {
            ACCENT
        } else {
            BORDER
        },
        style.focused == is_focused(state),
{
    let pressed: bool = state % 2 == 1;
    let disabled: bool = state / 4 % 2 == 1;
    let focused: bool = state / 16 % 2 == 1;
    let selected: bool = match page {
        Page::Settings => id == ID_SETTINGS_TAB,
        Page::Prompts => id == ID_PROMPTS_TAB,
        Page::History => id == ID_HISTORY_TAB,
    };
    let destructive: bool = id == ID_DELETE_KEY || id == ID_HISTORY_DELETE;
    let primary: bool = id == ID_SAVE_SETTINGS || id == ID_SAVE_KEY || id == ID_SAVE_PROMPT || id
        == ID_HISTORY_REFRESH;
    let fill: u32 = if disabled {
        MANAGER_BG
    } else if pressed {
        SURFACE_HOVER
    } else if selected || primary {
        ACCENT
    } else {
        SURFACE_BG
    };
    let text: u32 = if destructive {
        DANGER
    } else {
        TEXT
    };
    let border: u32 = if focused || selected {
        ACCENT
    } else {
        BORDER
    };
    ButtonStyle { fill, text, border, focused }
}

/// The radius of a button's corners.
pub fn button_radius(dpi: u32) -> (radius: i32)
    ensures
        radius == max_int(scaled(8, dpi as int), 2),
{
    let radius: i32 = scale_for_dpi(8, dpi);
    if radius < 2 {
        2
    } else {
        radius
    }
}

/// The frame of the focus within a button.
pub fn focus_rect(rect: ScreenRect, dpi: u32) -> (inner: ScreenRect)
    requires
        rect.left + scaled(4, dpi as int) <= i32::MAX,
        rect.top + scaled(4, dpi as int) <= i32::MAX,
        rect.right - scaled(4, dpi as int) >= i32::MIN,
        rect.bottom - scaled(4, dpi as int) >= i32::MIN,
    ensures
        inner == (ScreenRect {
            left: (rect.left + scaled(4, dpi as int)) as i32,
            top: (rect.top + scaled(4, dpi as int)) as i32,
            right: (rect.right - scaled(4, dpi as int)) as i32,
            bottom: (rect.bottom - scaled(4, dpi as int)) as i32,
        }),
{
    let inset: i32 = scale_for_dpi(4, dpi);
    ScreenRect::new(rect.left + inset, rect.top + inset, rect.right - inset, rect.bottom - inset)
}

/// A brush of the theme.
#[derive(Clone, Copy, Debug, PartialEq, Eq, Structural)]
pub enum Brush {
    Navigation,
    Background,
    Surface,
}

#[derive(Clone, Copy, Debug, PartialEq, Eq, Structural)]
pub struct ControlColors {
    pub text: u32,
    pub background: u32,
    pub brush: Brush,
}

/// Asks for the colors of a label.
pub const WM_CTLCOLORSTATIC: u32 = 0x0138;

/// The colors of a control: those of the navigation for the status, those of
/// the window for other labels, and those of a surface for the rest.
pub fn themed_control_color(message: u32, is_status: bool) -> (colors: ControlColors)
    ensures
        colors == if is_status {
            ControlColors { text: MUTED, background: NAV_BG, brush: Brush::Navigation }
        } else if message == WM_CTLCOLORSTATIC {
            ControlColors { text: TEXT, background: MANAGER_BG, brush: Brush::Background }
        } else {
            ControlColors { text: TEXT, background: SURFACE_BG, brush: Brush::Surface }
        },
{
    if is_status {
        ControlColors { text: MUTED, background: NAV_BG, brush: Brush::Navigation }
    } else if message == WM_CTLCOLORSTATIC {
        ControlColors { text: TEXT, background: MANAGER_BG, brush: Brush::Background }
    } else {
        ControlColors { text: TEXT, background: SURFACE_BG, brush: Brush::Surface }
    }
}

/// What is painted of the navigation.
#[derive(Clone, Copy, Debug, PartialEq, Eq, Structural)]
pub struct ManagerPaint {
    pub nav: ScreenRect,
    pub brand: ScreenRect,
    pub descriptor: ScreenRect,
}

pub fn paint_manager(width: i32, height: i32, dpi: u32) -> (paint: ManagerPaint)
    ensures
        paint.nav == scaled_rect_of(
            ScreenRect {
                left: 0,
                top: 0,
                right: nav_width(unscaled(max_int(width as int, 1), dpi as int)) as i32,
                bottom: unscaled(max_int(height as int, 1), dpi as int) as i32,
            },
            dpi as int,
        ),
        paint.brand == scaled_rect_of(
            ScreenRect { left: 16, top: 18, right: 164, bottom: 48 },
            dpi as int,
        ),
        paint.descriptor == scaled_rect_of(
            ScreenRect { left: 16, top: 50, right: 164, bottom: 69 },
            dpi as int,
        ),
{
    let layout: ManagerLayout = ManagerLayout::for_client(width, height, dpi);
    ManagerPaint {
        nav: scaled_rect(layout.nav, dpi),
        brand: scaled_rect(ScreenRect::new(16, 18, NAV_WIDTH - 12, 48), dpi),
        descriptor: scaled_rect(ScreenRect::new(16, 50, NAV_WIDTH - 12, 69), dpi),
    }
}

/// What is painted of a page: its title and what it is for.
#[derive(Clone, Copy, Debug, PartialEq, Eq, Structural)]
pub struct PagePaint {
    pub title: TextKey,
    pub subtitle: TextKey,
    pub title_rect: ScreenRect,
    pub subtitle_rect: ScreenRect,
}

pub open spec fn page_title(page: Page) -> TextKey {
    match page {
        Page::Settings => TextKey::Settings,
        Page::Prompts => TextKey::Prompts,
        Page::History => TextKey::History,
    }
}

pub open spec fn page_subtitle(page: Page) -> TextKey {
    match page {
        Page::Settings => TextKey::SettingsSubtitle,
        Page::Prompts => TextKey::PromptsSubtitle,
        Page::History => TextKey::HistorySubtitle,
    }
}

/// What is painted of the window that shows `page`; nothing of one that is no
/// page.
pub fn paint_page(page: Option<Page>, dpi: u32) -> (paint: Option<PagePaint>)
    ensures
        paint == match page {
            Some(shown) => Some(
                PagePaint {
                    title: page_title(shown),
                    subtitle: page_subtitle(shown),
                    title_rect: scaled_rect_of(
                        ScreenRect { left: 28, top: 14, right: 748, bottom: 43 },
                        dpi as int,
                    ),
                    subtitle_rect: scaled_rect_of(
                        ScreenRect { left: 30, top: 43, right: 748, bottom: 64 },
                        dpi as int,
                    ),
                },
            ),
            None => None,
        },
{
    let (title, subtitle) = match page {
        Some(Page::Settings) => (TextKey::Settings, TextKey::SettingsSubtitle),
        Some(Page::Prompts) => (TextKey::Prompts, TextKey::PromptsSubtitle),
        Some(Page::History) => (TextKey::History, TextKey::HistorySubtitle),
        None => {
            return None;
        },
    };
    Some(
        PagePaint {
            title,
            subtitle,
            title_rect: scaled_rect(ScreenRect::new(28, 14, 748, 43), dpi),
            subtitle_rect: scaled_rect(ScreenRect::new(30, 43, 748, 64), dpi),
        },
    )
}

/// The page that a window shows, told by the windows of the three pages.
pub fn page_identity(window: isize, settings: isize, prompts: isize, history: isize) -> (page:
    Option<Page>)
    ensures
        page == if window == settings {
            Some(Page::Settings)
        } else if window == prompts {
            Some(Page::Prompts)
        } else if window == history {
            Some(Page::History)
        } else {
            None
        },
{
    if window == settings {
        Some(Page::Settings)
    } else if window == prompts {
        Some(Page::Prompts)
    } else if window == history {
        Some(Page::History)
    } else {
        None
    }
}

// What the rules above are for.

/// A length is itself at 96 dots per inch and below, twice that at 192, and at
/// least one pixel; the other way round a pixel is half a length there.
pub proof fn lemma_lengths_are_scaled(value: int, dpi: int)
    requires
        1 <= value <= 10_000_000,
        0 <= dpi <= 96,
    ensures
        scaled(value, dpi) == value,
        scaled(value, 192) == 2 * value,
        scaled(value, 144) == value * 3 / 2,
        scaled(0, dpi) == 1,
        unscaled(value, dpi) == value,
        unscaled(2 * value, 192) == value,
{
    assert(max_int(dpi, 96) == 96);
    assert(max_int(192, 96) == 192);
    assert(max_int(144, 96) == 144);
    assert(value * max_int(dpi, 96) == value * 96);
    assert(value * max_int(192, 96) == value * 192);
    assert(value * max_int(144, 96) == value * 144);
    assert(0 * max_int(dpi, 96) == 0);
    assert((2 * value) * 96 / max_int(192, 96) == value);
}

/// A frame begins where its rectangle does and is as large, but never empty.
pub proof fn lemma_a_frame_is_its_rectangle(rect: ScreenRect)
    requires
        -1_000_000_000 <= rect.left <= 1_000_000_000,
        -1_000_000_000 <= rect.right <= 1_000_000_000,
        -1_000_000_000 <= rect.top <= 1_000_000_000,
        -1_000_000_000 <= rect.bottom <= 1_000_000_000,
    ensures
        frame_of(rect).left == rect.left,
        frame_of(rect).top == rect.top,
        rect.nonempty() ==> frame_of(rect).width == rect.right - rect.left && frame_of(rect).height
            == rect.bottom - rect.top,
        frame_of(rect).width >= 1 && frame_of(rect).height >= 1,
{
}

/// The navigation is 176 wide, with its buttons 16 from either side and 42
/// high; the one that closes keeps to the bottom of a tall window.
pub proof fn lemma_where_the_navigation_stands(layout: ManagerLayout, width: int, height: int)
    requires
        is_layout(layout, width, height),
        176 <= width <= 1_000_000,
        300 <= height <= 1_000_000,
    ensures
        layout.nav.right == 176,
        layout.page.left == 176 && layout.page.right == width && layout.page.bottom == height,
        forall|i: int|
            0 <= i < 4 ==> (#[trigger] layout.nav_buttons@[i]).left == 16
                && layout.nav_buttons@[i].right == 160 && layout.nav_buttons@[i].bottom
                - layout.nav_buttons@[i].top == 42,
        layout.nav_buttons@[0].top == 78,
        layout.nav_buttons@[1].top == 126,
        layout.nav_buttons@[2].top == 174,
        height - layout.nav_buttons@[3].bottom == 16,
{
}

/// A button stands out for what it does: the shown page's and the primary ones
/// are accented, deleting is marked, a pressed or disabled one looks so, and
/// the keyboard's has a border.
pub proof fn lemma_how_a_button_looks(id: usize, state: u32, page: Page, style: ButtonStyle)
    requires
        call_ensures(draw_manager_button, (id, state, page), style),
    ensures
        state == 0 ==> (style.fill == 0x00FA_A560 <==> id == 100 && page == Page::Settings || id
            == 101 && page == Page::Prompts || id == 102 && page == Page::History || id == 110 || id
            == 111 || id == 120 || id == 145),
        style.text == 0x0071_71F8 <==> id == 112 || id == 147,
        state == 4 ==> style.fill == 0x002A_170F,
        state == 1 ==> style.fill == 0x0045_2D21,
        state == 16 ==> style.focused && style.border == 0x00FA_A560,
        state == 0 ==> !style.focused,
        style.focused <==> (state / 16) % 2 == 1,
{
}

/// The status stands on the navigation, labels on the background and fields on
/// a surface of their own.
pub proof fn lemma_what_a_control_stands_on(message: u32, status: ControlColors, other: ControlColors)
    requires
        call_ensures(themed_control_color, (message, true), status),
        call_ensures(themed_control_color, (message, false), other),
    ensures
        status.brush == Brush::Navigation && status.background == 0x001C_0F0A,
        other.brush == Brush::Background <==> message == 0x0138,
        other.brush == Brush::Surface <==> message != 0x0138,
        other.text == 0x00F0_E8E2,
{
}

/// The window is the page's own window: the first that matches names the page,
/// and no other window is a page.
pub proof fn lemma_a_page_is_known_by_its_window(
    window: isize,
    settings: isize,
    prompts: isize,
    history: isize,
    page: Option<Page>,
    selected: Page,
    shown: Page,
    visible: bool,
)
    requires
        settings != prompts && settings != history && prompts != history,
        call_ensures(page_identity, (window, settings, prompts, history), page),
        call_ensures(page_is_visible, (shown, selected), visible),
    ensures
        page == Some(Page::Settings) <==> window == settings,
        page == Some(Page::Prompts) <==> window == prompts,
        page == Some(Page::History) <==> window == history,
        visible <==> shown == selected,
{
}

/// Each page has its own title and subtitle, and the title stands above the
/// subtitle.
pub proof fn lemma_pages_are_titled(page: Page, dpi: u32, paint: Option<PagePaint>, none: Option<PagePaint>)
    requires
        dpi <= 96,
        call_ensures(paint_page, (Some(page), dpi), paint),
        call_ensures(paint_page, (None, dpi), none),
    ensures
        none is None,
        paint matches Some(shown) && {
            &&& shown.title == TextKey::Settings <==> page == Page::Settings
            &&& shown.title == TextKey::Prompts <==> page == Page::Prompts
            &&& shown.title == TextKey::History <==> page == Page::History
            &&& shown.subtitle == TextKey::SettingsSubtitle <==> page == Page::Settings
            &&& shown.subtitle == TextKey::PromptsSubtitle <==> page == Page::Prompts
            &&& shown.subtitle == TextKey::HistorySubtitle <==> page == Page::History
            &&& shown.title_rect.nonempty() && shown.subtitle_rect.nonempty()
            &&& shown.title_rect.bottom <= shown.subtitle_rect.top
        },
{
    lemma_lengths_are_scaled(14, dpi as int);
    lemma_lengths_are_scaled(28, dpi as int);
    lemma_lengths_are_scaled(30, dpi as int);
    lemma_lengths_are_scaled(43, dpi as int);
    lemma_lengths_are_scaled(64, dpi as int);
    lemma_lengths_are_scaled(748, dpi as int);
}

/// A window is made 980 by 680 and gets no smaller than 956 by 650, at 96 dots
/// per inch; a resolution below that counts as that, and a message tells it in
/// its upper half.
pub proof fn lemma_how_large_the_window_is(
    dpi: u32,
    size: (i32, i32),
    least: (i32, i32),
    usable: u32,
    reported: u32,
    told: u32,
)
    requires
        dpi <= 96,
        reported < 0x1_0000,
        call_ensures(window_size, (dpi,), size),
        call_ensures(min_track_size, (dpi,), least),
        call_ensures(usable_dpi, (dpi,), usable),
        call_ensures(dpi_of_message, ((reported * 0x1_0000) as usize,), told),
    ensures
        size == (980i32, 680i32),
        least == (956i32, 650i32),
        usable == 96,
        told >= 96 && (reported >= 96 ==> told == reported),
{
    lemma_lengths_are_scaled(980, dpi as int);
    lemma_lengths_are_scaled(680, dpi as int);
    lemma_lengths_are_scaled(956, dpi as int);
    lemma_lengths_are_scaled(650, dpi as int);
}

} // verus!
