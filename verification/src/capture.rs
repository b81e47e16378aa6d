//! Stand-in images of windows, drawn by the compositor when a window's
//! contents are captured: a 4-pixel blue border around a template that
//! depends on what kind of application the window's title names.

use vstd::prelude::*;
use crate::text::{chars_contain, chars_of, lowercase, occurs_in, to_lowercase};

verus! {

/// The template a captured window is drawn with.
#[derive(Debug, Clone, Copy, PartialEq, Eq, Structural)]
pub enum CaptureTemplate {
    Terminal,
    Browser,
    General,
}

/// The template for a window whose lowercased title is `lower`.
pub open spec fn spec_template_of(lower: Seq<char>) -> CaptureTemplate {
    if occurs_in(lower, "terminal"@) || occurs_in(lower, "ghostty"@) || occurs_in(lower, "alacritty"@) {
        CaptureTemplate::Terminal
    } else if occurs_in(lower, "chrome"@) || occurs_in(lower, "browser"@) || occurs_in(lower, "firefox"@)
        || occurs_in(lower, "epiphany"@) {
        CaptureTemplate::Browser
    } else {
        CaptureTemplate::General
    }
}

fn has(lower: &[char], word: &str) -> (r: bool)
    ensures
        r == occurs_in(lower@, word@),
{
    let w = chars_of(word);
    chars_contain(lower, w.as_slice())
}

/// The template for a window whose lowercased title is `lower`.
pub fn template_of(lower: &[char]) -> (r: CaptureTemplate)
    ensures
        r == spec_template_of(lower@),
{
    if has(lower, "terminal") || has(lower, "ghostty") || has(lower, "alacritty") {
        CaptureTemplate::Terminal
    } else if has(lower, "chrome") || has(lower, "browser") || has(lower, "firefox") || has(lower, "epiphany") {
        CaptureTemplate::Browser
    } else {
        CaptureTemplate::General
    }
}

/// The template for a window titled `title`.
pub fn template_for_title(title: &str) -> (r: CaptureTemplate)
    ensures
        r == spec_template_of(lowercase(title@)),
{
    let c = chars_of(title);
    let lower = to_lowercase(c.as_slice());
    template_of(lower.as_slice())
}

/// `n` percent of `len`, rounded down.
pub open spec fn pct(len: int, n: int) -> int {
    len * n / 100
}

/// The colour of pixel `(px, py)` of a `w` by `h` capture drawn with
/// template `t`.
pub open spec fn spec_capture_pixel(t: CaptureTemplate, w: int, h: int, px: int, py: int) -> (u8, u8, u8) {
    if py < 4 || py + 4 >= h || px < 4 || px + 4 >= w {
        (30, 144, 255)
    } else {
        match t {
            CaptureTemplate::Terminal => if pct(h, 5) <= py < pct(h, 10) && pct(w, 5) <= px < pct(w, 10) {
                (50, 205, 50)
            } else if pct(h, 5) <= py < pct(h, 10) && pct(w, 12) <= px < pct(w, 18) {
                (50, 205, 50)
            } else if (py == pct(h, 30) || py == pct(h, 50) || py == pct(h, 70)) && pct(w, 5) <= px < pct(w, 95) {
                (180, 180, 180)
            } else {
                (15, 15, 15)
            },
            CaptureTemplate::Browser => if pct(h, 5) <= py < pct(h, 15) && pct(w, 5) <= px < pct(w, 95) {
                if pct(h, 7) <= py < pct(h, 13) && pct(w, 15) <= px < pct(w, 85) {
                    (255, 255, 255)
                } else {
                    (210, 210, 210)
                }
            } else if pct(h, 20) <= py < pct(h, 90) && pct(w, 5) <= px < pct(w, 95) {
                (135, 206, 250)
            } else {
                (240, 240, 240)
            },
            CaptureTemplate::General => if py >= 4 && py < pct(h, 10) && px >= 4 && px + 4 < w {
                (30, 30, 30)
            } else if pct(h, 80) <= py < pct(h, 90) {
                if pct(w, 35) <= px < pct(w, 48) {
                    (180, 180, 180)
                } else if pct(w, 52) <= px < pct(w, 65) {
                    (100, 100, 100)
                } else {
                    (45, 45, 45)
                }
            } else {
                (45, 45, 45)
            },
        }
    }
}

/// A capture of the given size can be drawn: its buffers fit in memory's
/// address range, as do the percentages of its sides.
pub open spec fn capture_fits(w: int, h: int) -> bool {
    &&& w * h * 4 <= usize::MAX
    &&& w * h > 0 ==> w * 100 <= usize::MAX && h * 100 <= usize::MAX
}

fn capture_pixel(t: CaptureTemplate, w: usize, h: usize, px: usize, py: usize) -> (r: (u8, u8, u8))
    requires
        w * 100 <= usize::MAX,
        h * 100 <= usize::MAX,
        px < w,
        py < h,
    ensures
        r == spec_capture_pixel(t, w as int, h as int, px as int, py as int),
{
    if py < 4 || py + 4 >= h || px < 4 || px + 4 >= w {
        return (30, 144, 255);
    }
    match t {
        CaptureTemplate::Terminal => {
            if py >= h * 5 / 100 && py < h * 10 / 100 && px >= w * 5 / 100 && px < w * 10 / 100 {
                (50, 205, 50)
            } else if py >= h * 5 / 100 && py < h * 10 / 100 && px >= w * 12 / 100 && px < w * 18 / 100 {
                (50, 205, 50)
            } else if (py == h * 30 / 100 || py == h * 50 / 100 || py == h * 70 / 100) && px >= w * 5 / 100 && px
                < w * 95 / 100 {
                (180, 180, 180)
            } else {
                (15, 15, 15)
            }
        },
        CaptureTemplate::Browser => {
            if py >= h * 5 / 100 && py < h * 15 / 100 && px >= w * 5 / 100 && px < w * 95 / 100 {
                if py >= h * 7 / 100 && py < h * 13 / 100 && px >= w * 15 / 100 && px < w * 85 / 100 {
                    (255, 255, 255)
                } else {
                    (210, 210, 210)
                }
            } else if py >= h * 20 / 100 && py < h * 90 / 100 && px >= w * 5 / 100 && px < w * 95 / 100 {
                (135, 206, 250)
            } else {
                (240, 240, 240)
            }
        },
        CaptureTemplate::General => {
            if py >= 4 && py < h * 10 / 100 && px >= 4 && px < w - 4 {
                (30, 30, 30)
            } else if py >= h * 80 / 100 && py < h * 90 / 100 {
                if px >= w * 35 / 100 && px < w * 48 / 100 {
                    (180, 180, 180)
                } else if px >= w * 52 / 100 && px < w * 65 / 100 {
                    (100, 100, 100)
                } else {
                    (45, 45, 45)
                }
            } else {
                (45, 45, 45)
            }
        },
    }
}

/// Draws a `w` by `h` capture with template `t`, as RGB bytes and as RGBA
/// bytes (opaque), row by row. Pixel `i` counted row by row is pixel
/// `(i % w, i / w)`.
pub fn render_capture(t: CaptureTemplate, w: usize, h: usize) -> (r: (Vec<u8>, Vec<u8>))
    requires
        capture_fits(w as int, h as int),
    ensures
        r.0@.len() == w * h * 3,
        r.1@.len() == w * h * 4,
        forall|i: int|
            0 <= i < w * h ==> {
                let c = #[trigger] spec_capture_pixel(t, w as int, h as int, i % (w as int), i / (w as int));
                &&& r.0@[3 * i] == c.0
                &&& r.0@[3 * i + 1] == c.1
                &&& r.0@[3 * i + 2] == c.2
                &&& r.1@[4 * i] == c.0
                &&& r.1@[4 * i + 1] == c.1
                &&& r.1@[4 * i + 2] == c.2
                &&& r.1@[4 * i + 3] == 255
            },
{
    let mut rgb: Vec<u8> = Vec::new();
    let mut rgba: Vec<u8> = Vec::new();
    let n = w * h;
    assert(n * 4 <= usize::MAX) by (nonlinear_arith)
        requires
            n == w * h,
            w * h * 4 <= usize::MAX,
    ;
    let mut i: usize = 0;
    while i < n
        invariant
            n == w * h,
            n * 4 <= usize::MAX,
            capture_fits(w as int, h as int),
            i <= n,
            rgb@.len() == 3 * i,
            rgba@.len() == 4 * i,
            forall|j: int|
                0 <= j < i ==> {
                    let c = #[trigger] spec_capture_pixel(t, w as int, h as int, j % (w as int), j / (w as int));
                    &&& rgb@[3 * j] == c.0
                    &&& rgb@[3 * j + 1] == c.1
                    &&& rgb@[3 * j + 2] == c.2
                    &&& rgba@[4 * j] == c.0
                    &&& rgba@[4 * j + 1] == c.1
                    &&& rgba@[4 * j + 2] == c.2
                    &&& rgba@[4 * j + 3] == 255
                },
        decreases n - i,
    {
        proof {
            assert(w > 0 && h > 0) by (nonlinear_arith)
                requires
                    i < n,
                    n == w * h,
            ;
            assert(i / w < h) by (nonlinear_arith)
                requires
                    i < w * h,
                    w > 0,
            ;
        }
        let px = i % w;
        let py = i / w;
        let c = capture_pixel(t, w, h, px, py);
        let ghost old_rgb = rgb@;
        let ghost old_rgba = rgba@;
        rgb.push(c.0);
        rgb.push(c.1);
        rgb.push(c.2);
        rgba.push(c.0);
        rgba.push(c.1);
        rgba.push(c.2);
        rgba.push(255);
        proof {
            assert forall|j: int| 0 <= j < i + 1 implies {
                let c2 = #[trigger] spec_capture_pixel(t, w as int, h as int, j % (w as int), j / (w as int));
                &&& rgb@[3 * j] == c2.0
                &&& rgb@[3 * j + 1] == c2.1
                &&& rgb@[3 * j + 2] == c2.2
                &&& rgba@[4 * j] == c2.0
                &&& rgba@[4 * j + 1] == c2.1
                &&& rgba@[4 * j + 2] == c2.2
                &&& rgba@[4 * j + 3] == 255
            } by {
                if j < i {
                    assert(rgb@[3 * j] == old_rgb[3 * j]);
                    assert(rgb@[3 * j + 1] == old_rgb[3 * j + 1]);
                    assert(rgb@[3 * j + 2] == old_rgb[3 * j + 2]);
                    assert(rgba@[4 * j] == old_rgba[4 * j]);
                    assert(rgba@[4 * j + 1] == old_rgba[4 * j + 1]);
                    assert(rgba@[4 * j + 2] == old_rgba[4 * j + 2]);
                    assert(rgba@[4 * j + 3] == old_rgba[4 * j + 3]);
                }
            }
        }
        i = i + 1;
    }
    (rgb, rgba)
}

/// The colour of pixel `(px, py)` of the plain `w` by `h` capture that is
/// copied to the clipboard: the 4-pixel blue border around a dark grey
/// inside.
pub open spec fn spec_plain_pixel(w: int, h: int, px: int, py: int) -> (u8, u8, u8) {
    if py < 4 || py + 4 >= h || px < 4 || px + 4 >= w {
        (30, 144, 255)
    } else {
        (30, 30, 30)
    }
}

/// Draws the plain `w` by `h` capture as opaque RGBA bytes, row by row.
pub fn render_plain_capture(w: usize, h: usize) -> (r: Vec<u8>)
    requires
        capture_fits(w as int, h as int),
    ensures
        r@.len() == w * h * 4,
        forall|i: int|
            0 <= i < w * h ==> {
                let c = #[trigger] spec_plain_pixel(w as int, h as int, i % (w as int), i / (w as int));
                &&& r@[4 * i] == c.0
                &&& r@[4 * i + 1] == c.1
                &&& r@[4 * i + 2] == c.2
                &&& r@[4 * i + 3] == 255
            },
{
    let mut rgba: Vec<u8> = Vec::new();
    let n = w * h;
    assert(n * 4 <= usize::MAX) by (nonlinear_arith)
        requires
            n == w * h,
            w * h * 4 <= usize::MAX,
    ;
    let mut i: usize = 0;
    while i < n
        invariant
            n == w * h,
            n * 4 <= usize::MAX,
            i <= n,
            rgba@.len() == 4 * i,
            forall|j: int|
                0 <= j < i ==> {
                    let c = #[trigger] spec_plain_pixel(w as int, h as int, j % (w as int), j / (w as int));
                    &&& rgba@[4 * j] == c.0
                    &&& rgba@[4 * j + 1] == c.1
                    &&& rgba@[4 * j + 2] == c.2
                    &&& rgba@[4 * j + 3] == 255
                },
        decreases n - i,
    {
        proof {
            assert(w > 0 && h > 0) by (nonlinear_arith)
                requires
                    i < n,
                    n == w * h,
            ;
            assert(i / w < h) by (nonlinear_arith)
                requires
                    i < w * h,
                    w > 0,
            ;
        }
        let px = i % w;
        let py = i / w;
        let border = py < 4 || h - py <= 4 || px < 4 || w - px <= 4;
        let c: (u8, u8, u8) = if border { (30, 144, 255) } else { (30, 30, 30) };
        proof {
            assert(c == spec_plain_pixel(w as int, h as int, px as int, py as int));
        }
        let ghost old_rgba = rgba@;
        rgba.push(c.0);
        rgba.push(c.1);
        rgba.push(c.2);
        rgba.push(255);
        proof {
            assert forall|j: int| 0 <= j < i + 1 implies {
                let c2 = #[trigger] spec_plain_pixel(w as int, h as int, j % (w as int), j / (w as int));
                &&& rgba@[4 * j] == c2.0
                &&& rgba@[4 * j + 1] == c2.1
                &&& rgba@[4 * j + 2] == c2.2
                &&& rgba@[4 * j + 3] == 255
            } by {
                if j < i {
                    assert(rgba@[4 * j] == old_rgba[4 * j]);
                    assert(rgba@[4 * j + 1] == old_rgba[4 * j + 1]);
                    assert(rgba@[4 * j + 2] == old_rgba[4 * j + 2]);
                    assert(rgba@[4 * j + 3] == old_rgba[4 * j + 3]);
                }
            }
        }
        i = i + 1;
    }
    rgba
}

} // verus!
