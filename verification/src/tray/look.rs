//! How the tray looks: its icon, its panel's place and its panel's page.
use crate::text;
use vstd::prelude::*;
use vstd::string::*;

verus! {

/// The side of the icon, in pixels.
pub const ICON_SIZE: usize = 32;

/// A point lies within a rectangle with rounded corners.
pub open spec fn in_rounded_rect(
    x: int,
    y: int,
    left: int,
    top: int,
    width: int,
    height: int,
    radius: int,
) -> bool {
    let dx = off_centre(x, left, width, radius);
    let dy = off_centre(y, top, height, radius);
    dx * dx + dy * dy <= radius * radius
}

/// How far a coordinate lies from the centre of the nearest corner, where it lies in one.
pub open spec fn off_centre(at: int, start: int, length: int, radius: int) -> int {
    let end = start + length - 1;
    if at < start + radius {
        start + radius - at
    } else if at > end - radius {
        at - (end - radius)
    } else {
        0
    }
}

/// The edges of a span and of its corners can be counted.
pub open spec fn measurable(at: int, start: int, length: int, radius: int) -> bool {
    &&& 1 <= start + length <= usize::MAX
    &&& start + radius <= usize::MAX
    &&& at >= start + radius ==> radius <= start + length - 1
}

fn distance(at: usize, start: usize, length: usize, radius: usize) -> (r: usize)
    requires
        measurable(at as int, start as int, length as int, radius as int),
    ensures
        r == off_centre(at as int, start as int, length as int, radius as int),
{
    let end: usize = start + length - 1;
    if at < start + radius {
        start + radius - at
    } else if at > end - radius {
        at - (end - radius)
    } else {
        0
    }
}

pub open spec fn square(n: int) -> int {
    n * n
}

pub fn rounded_rect_contains(
    x: usize,
    y: usize,
    left: usize,
    top: usize,
    width: usize,
    height: usize,
    radius: usize,
) -> (r: bool)
    requires
        measurable(x as int, left as int, width as int, radius as int),
        measurable(y as int, top as int, height as int, radius as int),
        square(radius as int) <= usize::MAX,
        square(off_centre(x as int, left as int, width as int, radius as int)) + square(
            off_centre(y as int, top as int, height as int, radius as int),
        ) <= usize::MAX,
    ensures
        r == in_rounded_rect(
            x as int,
            y as int,
            left as int,
            top as int,
            width as int,
            height as int,
            radius as int,
        ),
{
    let dx: usize = distance(x, left, width, radius);
    let dy: usize = distance(y, top, height, radius);
    assert(dx * dx >= 0 && dy * dy >= 0) by (nonlinear_arith);
    dx * dx + dy * dy <= radius * radius
}

/// The microphone that the icon shows.
pub open spec fn inked(x: int, y: int) -> bool {
    ||| 11 <= x <= 20 && 5 <= y <= 18 && in_rounded_rect(x, y, 11, 5, 10, 14, 5)
    ||| 15 <= x <= 16 && 19 <= y <= 24
    ||| 9 <= x <= 22 && 25 <= y <= 27
    ||| 7 <= x <= 8 && 12 <= y <= 18
    ||| 23 <= x <= 24 && 12 <= y <= 18
}

fn is_inked(x: usize, y: usize) -> (r: bool)
    requires
        x < 32,
        y < 32,
    ensures
        r == inked(x as int, y as int),
{
    proof {
        let dx = off_centre(x as int, 11, 10, 5);
        let dy = off_centre(y as int, 5, 14, 5);
        assert(square(5) == 25);
        assert(square(dx) <= 1024 && square(dy) <= 1024) by (nonlinear_arith)
            requires
                0 <= dx <= 32,
                0 <= dy <= 32,
                square(dx) == dx * dx,
                square(dy) == dy * dy,
        ;
    }
    let in_capsule = 11 <= x && x <= 20 && 5 <= y && y <= 18 && rounded_rect_contains(
        x,
        y,
        11,
        5,
        10,
        14,
        5,
    );
    let in_stem = 15 <= x && x <= 16 && 19 <= y && y <= 24;
    let in_base = 9 <= x && x <= 22 && 25 <= y && y <= 27;
    let in_left_wave = 7 <= x && x <= 8 && 12 <= y && y <= 18;
    let in_right_wave = 23 <= x && x <= 24 && 12 <= y && y <= 18;
    in_capsule || in_stem || in_base || in_left_wave || in_right_wave
}

/// The bytes of the icon: four for each pixel, black with an opacity, row by row.
pub open spec fn icon_bytes() -> Seq<u8> {
    Seq::new(
        4096,
        |i: int|
            if i % 4 == 3 && inked((i / 4) % 32, (i / 4) / 32) {
                255
            } else {
                0
            },
    )
}

pub fn tray_icon_image() -> (r: Vec<u8>)
    ensures
        r@ == icon_bytes(),
{
    let mut rgba: Vec<u8> = Vec::new();
    let mut pixel: usize = 0;
    while pixel < 1024
        invariant
            pixel <= 1024,
            rgba@ == icon_bytes().take(pixel * 4),
        decreases 1024 - pixel,
    {
        let alpha: u8 = if is_inked(pixel % ICON_SIZE, pixel / ICON_SIZE) {
            255
        } else {
            0
        };
        let ghost before = rgba@;
        rgba.push(0);
        rgba.push(0);
        rgba.push(0);
        rgba.push(alpha);
        proof {
            let all = icon_bytes();
            let p = pixel as int;
            assert((p * 4) / 4 == p && (p * 4 + 1) / 4 == p && (p * 4 + 2) / 4 == p && (p * 4 + 3)
                / 4 == p);
            assert((p * 4) % 4 == 0 && (p * 4 + 1) % 4 == 1 && (p * 4 + 2) % 4 == 2 && (p * 4 + 3)
                % 4 == 3);
            assert(all[p * 4] == 0);
            assert(all[p * 4 + 1] == 0);
            assert(all[p * 4 + 2] == 0);
            assert(all[p * 4 + 3] == alpha);
            assert(rgba@ =~= all.take((p + 1) * 4));
        }
        pixel = pixel + 1;
    }
    assert(icon_bytes().take(4096) =~= icon_bytes());
    rgba
}

/// A place on the screens.
#[derive(Debug, Clone, Copy, PartialEq, Eq, Structural)]
pub struct Spot {
    pub x: i32,
    pub y: i32,
}

#[derive(Debug, Clone, Copy, PartialEq, Eq, Structural)]
pub struct Extent {
    pub width: i32,
    pub height: i32,
}

/// A monitor: where it begins, and how large it is.
#[derive(Debug, Clone, Copy, PartialEq, Eq, Structural)]
pub struct Monitor {
    pub x: i32,
    pub y: i32,
    pub width: i32,
    pub height: i32,
}

/// Where a panel's corner may be.
#[derive(Debug, Clone, Copy, PartialEq, Eq, Structural)]
pub struct Bounds {
    pub min: Spot,
    pub max: Spot,
}

pub open spec fn fits(v: int) -> bool {
    i32::MIN <= v <= i32::MAX
}

/// The coordinates of a monitor and a panel on it can be reckoned with.
pub open spec fn reckonable(m: Monitor, panel: Extent) -> bool {
    &&& fits(m.x + 8)
    &&& fits(m.y + 8)
    &&& fits(m.x + m.width)
    &&& fits(m.y + m.height)
    &&& fits(m.x + m.width - panel.width)
    &&& fits(m.y + m.height - panel.height)
    &&& fits(m.x + m.width - panel.width - 8)
    &&& fits(m.y + m.height - panel.height - 8)
}

pub open spec fn larger(a: int, b: int) -> int {
    if a >= b {
        a
    } else {
        b
    }
}

/// Where the panel may be: within the monitor, a little off its edges.
pub fn monitor_bounds(monitor: Option<Monitor>, panel: Extent) -> (r: Bounds)
    requires
        panel.width >= 0,
        panel.height >= 0,
        monitor matches Some(m) ==> reckonable(m, panel),
    ensures
        r.min.x <= r.max.x,
        r.min.y <= r.max.y,
        match monitor {
            None => r.min == (Spot { x: 0, y: 0 }) && r.max.x == i32::MAX - panel.width && r.max.y
                == i32::MAX - panel.height,
            Some(m) => {
                &&& r.min.x == m.x + 8
                &&& r.min.y == m.y + 8
                &&& r.max.x == larger(m.x + m.width - panel.width - 8, m.x + 8)
                &&& r.max.y == larger(m.y + m.height - panel.height - 8, m.y + 8)
            },
        },
{
    match monitor {
        None => Bounds {
            min: Spot { x: 0, y: 0 },
            max: Spot { x: i32::MAX - panel.width, y: i32::MAX - panel.height },
        },
        Some(m) => {
            let min_x: i32 = m.x + 8;
            let min_y: i32 = m.y + 8;
            let max_x: i32 = m.x + m.width - panel.width - 8;
            let max_y: i32 = m.y + m.height - panel.height - 8;
            Bounds {
                min: Spot { x: min_x, y: min_y },
                max: Spot {
                    x: if max_x >= min_x {
                        max_x
                    } else {
                        min_x
                    },
                    y: if max_y >= min_y {
                        max_y
                    } else {
                        min_y
                    },
                },
            }
        },
    }
}

/// Where the panel is anchored when nothing else says where.
pub fn fallback_anchor(bounds: Bounds) -> (r: Spot)
    ensures
        r.x == larger(bounds.max.x as int, bounds.min.x as int),
        r.y == bounds.min.y,
{
    Spot {
        x: if bounds.max.x >= bounds.min.x {
            bounds.max.x
        } else {
            bounds.min.x
        },
        y: bounds.min.y,
    }
}

pub open spec fn clamped(v: int, min: int, max: int) -> int {
    if v < min {
        min
    } else if v > max {
        max
    } else {
        v
    }
}

fn clamp(v: i32, min: i32, max: i32) -> (r: i32)
    requires
        min <= max,
    ensures
        r == clamped(v as int, min as int, max as int),
{
    if v < min {
        min
    } else if v > max {
        max
    } else {
        v
    }
}

/// Where the panel opens: below its anchor and to the left of it, within the bounds.
pub fn panel_position(anchor: Spot, panel: Extent, bounds: Bounds) -> (r: Spot)
    requires
        bounds.min.x <= bounds.max.x,
        bounds.min.y <= bounds.max.y,
        fits(anchor.x - panel.width),
        fits(anchor.x - panel.width + 18),
        fits(anchor.y + 10),
    ensures
        r.x == clamped(
            anchor.x - panel.width + 18,
            bounds.min.x as int,
            bounds.max.x as int,
        ),
        r.y == clamped(anchor.y + 10, bounds.min.y as int, bounds.max.y as int),
        bounds.min.x <= r.x <= bounds.max.x,
        bounds.min.y <= r.y <= bounds.max.y,
{
    Spot {
        x: clamp(anchor.x - panel.width + 18, bounds.min.x, bounds.max.x),
        y: clamp(anchor.y + 10, bounds.min.y, bounds.max.y),
    }
}

/// The page of the panel, from its parts and the state it shows as JSON.
pub fn render_panel_html(html: &str, css: &str, js: &str, native_glass: bool, state: &str) -> (r:
    String)
    ensures
        r@ == text::replaced(
            text::replaced(
                text::replaced(
                    text::replaced(html@, "__DICTA_PANEL_CSS__"@, css@),
                    "__DICTA_PANEL_JS__"@,
                    js@,
                ),
                "__DICTA_NATIVE_GLASS__"@,
                if native_glass {
                    "true"@
                } else {
                    "false"@
                },
            ),
            "__DICTA_INITIAL_STATE__"@,
            text::replaced(state@, "<"@, "\\u003c"@),
        ),
{
    proof {
        reveal_strlit("<");
        reveal_strlit("__DICTA_PANEL_CSS__");
        reveal_strlit("__DICTA_PANEL_JS__");
        reveal_strlit("__DICTA_NATIVE_GLASS__");
        reveal_strlit("__DICTA_INITIAL_STATE__");
    }
    let safe = text::replace(state, "<", "\\u003c");
    let styled = text::replace(html, "__DICTA_PANEL_CSS__", css);
    let scripted = text::replace(styled.as_str(), "__DICTA_PANEL_JS__", js);
    let glass = text::replace(
        scripted.as_str(),
        "__DICTA_NATIVE_GLASS__",
        if native_glass {
            "true"
        } else {
            "false"
        },
    );
    text::replace(glass.as_str(), "__DICTA_INITIAL_STATE__", safe.as_str())
}

/// What an update of the page is told.
pub fn panel_update_script(state: &str) -> (r: String)
    ensures
        r@ == "window.__dictaUpdate("@ + state@ + ");"@,
{
    text::cat3("window.__dictaUpdate(", state, ");")
}

/// Whether a system's version is recent enough, by its first number.
pub fn macos_major_at_least(version: &str, required_major: u32) -> (r: bool)
    ensures
        r == match text::number_in(
            text::pieces(text::trimmed(version@), '.')[0],
            u32::MAX as nat,
        ) {
            Some(major) => major >= required_major,
            None => false,
        },
{
    let trimmed = text::trim(version);
    let parts = text::split(trimmed.as_str(), '.');
    assert(text::texts(parts@)[0] == parts@[0]@);
    match text::parse_number(parts[0].as_str(), u32::MAX as u64) {
        Some(major) => major >= required_major as u64,
        None => false,
    }
}

/// No tag can begin in the state that the page carries.
pub proof fn law_state_holds_no_tag(state: Seq<char>)
    ensures
        !text::replaced(state, "<"@, "\\u003c"@).contains('<'),
    decreases state.len(),
{
    reveal_strlit("<");
    reveal_strlit("\\u003c");
    let out = text::replaced(state, "<"@, "\\u003c"@);
    if state.len() > 0 {
        let rest = state.subrange(1, state.len() as int);
        law_state_holds_no_tag(rest);
        let after = text::replaced(rest, "<"@, "\\u003c"@);
        if state[0] == '<' {
            assert(state.subrange(0, 1) =~= "<"@);
            assert(out == "\\u003c"@ + after);
            assert forall|i: int| 0 <= i < out.len() implies out[i] != '<' by {
                if i >= 6 {
                    assert(out[i] == after[i - 6]);
                    assert(after.contains(after[i - 6]));
                }
            }
        } else {
            assert(!text::starts(state, "<"@)) by {
                if text::starts(state, "<"@) {
                    assert(state.subrange(0, 1)[0] == state[0]);
                }
            }
            assert(out == seq![state[0]] + after);
            assert forall|i: int| 0 <= i < out.len() implies out[i] != '<' by {
                if i >= 1 {
                    assert(out[i] == after[i - 1]);
                    assert(after.contains(after[i - 1]));
                }
            }
        }
    }
}

/// A rounded rectangle is the same from either side, holds everything between its corners,
/// and nothing that lies further from the centre of a corner than the radius.
pub proof fn law_rounded_rect_is_symmetric(
    x: int,
    y: int,
    left: int,
    top: int,
    width: int,
    height: int,
    radius: int,
)
    requires
        0 <= radius,
        2 * radius < width,
        2 * radius < height,
    ensures
        in_rounded_rect(x, y, left, top, width, height, radius) == in_rounded_rect(
            2 * left + width - 1 - x,
            y,
            left,
            top,
            width,
            height,
            radius,
        ),
        in_rounded_rect(x, y, left, top, width, height, radius) == in_rounded_rect(
            x,
            2 * top + height - 1 - y,
            left,
            top,
            width,
            height,
            radius,
        ),
        left + radius <= x <= left + width - 1 - radius && top + radius <= y <= top + height - 1
            - radius ==> in_rounded_rect(x, y, left, top, width, height, radius),
        x < left || y < top ==> !in_rounded_rect(x, y, left, top, width, height, radius),
{
    let dx = off_centre(x, left, width, radius);
    let dy = off_centre(y, top, height, radius);
    assert(dx * dx >= 0 && dy * dy >= 0 && radius * radius >= 0) by (nonlinear_arith);
    if dx == 0 && dy == 0 {
        assert(dx * dx + dy * dy == 0) by (nonlinear_arith)
            requires
                dx == 0,
                dy == 0,
        ;
    }
    if x < left {
        assert(dx > radius);
        assert(dx * dx > radius * radius) by (nonlinear_arith)
            requires
                dx > radius >= 0,
        ;
    }
    if y < top {
        assert(dy > radius);
        assert(dy * dy > radius * radius) by (nonlinear_arith)
            requires
                dy > radius >= 0,
        ;
    }
}

/// The icon is black and transparent only: its colours are all zero, and a pixel is covered
/// in full or not at all.
pub proof fn law_icon_is_a_mask(i: int)
    requires
        0 <= i < 4096,
    ensures
        icon_bytes().len() == 32 * 32 * 4,
        i % 4 != 3 ==> icon_bytes()[i] == 0,
        icon_bytes()[i] == 0 || icon_bytes()[i] == 255,
{
}

/// A coordinate is moved no further than into its bounds.
pub proof fn law_clamped_stays_within(v: int, min: int, max: int)
    requires
        min <= max,
    ensures
        min <= clamped(v, min, max) <= max,
        min <= v <= max ==> clamped(v, min, max) == v,
        v < min ==> clamped(v, min, max) == min,
        v > max ==> clamped(v, min, max) == max,
{
}

} // verus!
