use vstd::prelude::*;

verus! {

// ---------------------------------------------------------------------------
// Hue rotation in HSL on 8-bit RGB values
//
// A hue rotation that keeps saturation and lightness keeps the largest and the smallest
// channel of a pixel and only moves the pixel around the colour hexagon: which channel is
// largest, which smallest, and the value of the middle one. The hue is measured as
// degrees times the chroma (largest minus smallest channel), which is a whole number for
// 8-bit channels.
// ---------------------------------------------------------------------------

pub open spec fn max3(a: int, b: int, c: int) -> int {
    if a >= b && a >= c { a } else if b >= c { b } else { c }
}

pub open spec fn min3(a: int, b: int, c: int) -> int {
    if a <= b && a <= c { a } else if b <= c { b } else { c }
}

/// The hue of an RGB colour in degrees, times its chroma `max3 - min3` (0 for a grey):
/// red at 0, green at 120 and blue at 240 times the chroma, in `[0, 360 * chroma)`.
pub open spec fn hue_position(r: int, g: int, b: int) -> int {
    let mx = max3(r, g, b);
    let d = mx - min3(r, g, b);
    if d == 0 {
        0
    } else if mx == r {
        if g >= b { 60 * (g - b) } else { 60 * (g - b) + 360 * d }
    } else if mx == g {
        60 * (b - r) + 120 * d
    } else {
        60 * (r - g) + 240 * d
    }
}

/// The colour with the largest channel `mx`, the smallest `mn` (`mn < mx`) and hue position
/// `p` (degrees times chroma, in `[0, 360 * (mx - mn))`); the middle channel is rounded to
/// the nearest whole value.
pub open spec fn from_hue_position(p: int, mx: int, mn: int) -> (int, int, int) {
    let d = mx - mn;
    let k = p / (60 * d);
    let x = (p % (60 * d) + 30) / 60;
    if k == 0 {
        (mx, mn + x, mn)
    } else if k == 1 {
        (mx - x, mx, mn)
    } else if k == 2 {
        (mn, mx, mn + x)
    } else if k == 3 {
        (mn, mx - x, mx)
    } else if k == 4 {
        (mn + x, mn, mx)
    } else {
        (mx, mn, mx - x)
    }
}

/// The hue position of a colour rotated by `degrees` (in `[0, 360)`).
pub open spec fn rotated_position(r: int, g: int, b: int, degrees: int) -> int {
    let d = max3(r, g, b) - min3(r, g, b);
    (hue_position(r, g, b) + degrees * d) % (360 * d)
}

/// An RGB colour with its hue rotated by `degrees` (in `[0, 360)`) in HSL, saturation and
/// lightness kept; a grey is left as it is.
pub open spec fn hue_rotated(r: u8, g: u8, b: u8, degrees: int) -> (u8, u8, u8) {
    let mx = max3(r as int, g as int, b as int);
    let mn = min3(r as int, g as int, b as int);
    if mx == mn {
        (r, g, b)
    } else {
        let c = from_hue_position(rotated_position(r as int, g as int, b as int, degrees), mx, mn);
        (c.0 as u8, c.1 as u8, c.2 as u8)
    }
}

/// Byte `j` of RGBA bytes `px` after the hue rotation: colour channels rotated with their
/// pixel, alpha kept.
pub open spec fn rotated_byte(px: Seq<u8>, j: int, degrees: int) -> u8 {
    let q = j - j % 4;
    let c = hue_rotated(px[q], px[q + 1], px[q + 2], degrees);
    if j % 4 == 0 {
        c.0
    } else if j % 4 == 1 {
        c.1
    } else if j % 4 == 2 {
        c.2
    } else {
        px[j]
    }
}

/// RGBA bytes after rotating every pixel's hue by `degrees` (in `[0, 360)`).
pub open spec fn hue_rotated_bytes(px: Seq<u8>, degrees: int) -> Seq<u8> {
    Seq::new(px.len(), |j: int| rotated_byte(px, j, degrees))
}

/// Whether two hue positions of chroma `d` lie within `t` of each other around the circle of
/// `360 * d`.
pub open spec fn hue_close(a: int, b: int, d: int, t: int) -> bool {
    ||| -t <= a - b <= t
    ||| -t <= a - b + 360 * d <= t
    ||| -t <= a - b - 360 * d <= t
}

/// A hue rotation keeps each pixel's largest and smallest channel, hence its lightness and
/// saturation, and moves its hue by the angle up to the rounding of the middle channel: the
/// new hue position is within half a channel step (30 units of degrees times chroma) of the
/// old one plus the angle.
pub proof fn law_hue_rotation(r: u8, g: u8, b: u8, degrees: int)
    requires
        0 <= degrees < 360,
    ensures
        ({
            let c = hue_rotated(r, g, b, degrees);
            let mx = max3(r as int, g as int, b as int);
            let mn = min3(r as int, g as int, b as int);
            &&& max3(c.0 as int, c.1 as int, c.2 as int) == mx
            &&& min3(c.0 as int, c.1 as int, c.2 as int) == mn
            &&& mx != mn ==> hue_close(
                hue_position(c.0 as int, c.1 as int, c.2 as int),
                rotated_position(r as int, g as int, b as int, degrees),
                mx - mn,
                30,
            )
        }),
{
    let mx = max3(r as int, g as int, b as int);
    let mn = min3(r as int, g as int, b as int);
    if mx != mn {
        let d = mx - mn;
        let p = rotated_position(r as int, g as int, b as int, degrees);
        let k = p / (60 * d);
        let rem = p % (60 * d);
        let x = (rem + 30) / 60;
        assert(0 <= p < 360 * d && p == 60 * d * k + rem && 0 <= rem < 60 * d) by (nonlinear_arith)
            requires
                d > 0,
                p == (hue_position(r as int, g as int, b as int) + degrees * d) % (360 * d),
                k == p / (60 * d),
                rem == p % (60 * d),
        {
            assert(p % (360 * d) == p || true);
        }
        assert(0 <= k < 6) by (nonlinear_arith)
            requires
                d > 0,
                0 <= p < 360 * d,
                p == 60 * d * k + rem,
                0 <= rem < 60 * d,
        ;
        assert(60 * x - 30 <= rem <= 60 * x + 29);
        assert(0 <= x <= d);
        let t = from_hue_position(p, mx, mn);
        let c = hue_rotated(r, g, b, degrees);
        assert(0 <= mn && mx <= 255);
        assert(c.0 as int == t.0 && c.1 as int == t.1 && c.2 as int == t.2);
        if k == 0 {
            lemma_sector_0(mx, mn, x, rem);
            assert(t == (mx, mn + x, mn));
        } else if k == 1 {
            lemma_sector_1(mx, mn, x, rem);
            assert(t == (mx - x, mx, mn));
        } else if k == 2 {
            lemma_sector_2(mx, mn, x, rem);
            assert(t == (mn, mx, mn + x));
        } else if k == 3 {
            lemma_sector_3(mx, mn, x, rem);
            assert(t == (mn, mx - x, mx));
        } else if k == 4 {
            lemma_sector_4(mx, mn, x, rem);
            assert(t == (mn + x, mn, mx));
        } else if k == 5 {
            lemma_sector_5(mx, mn, x, rem);
            assert(t == (mx, mn, mx - x));
        }
    }
}

proof fn lemma_sector_0(mx: int, mn: int, x: int, rem: int)
    requires
        0 <= mn < mx,
        0 <= x <= mx - mn,
        0 <= rem < 60 * (mx - mn),
        60 * x - 30 <= rem <= 60 * x + 29,
    ensures
        ({
            let t = (mx, mn + x, mn);
            &&& max3(t.0, t.1, t.2) == mx
            &&& min3(t.0, t.1, t.2) == mn
            &&& hue_close(hue_position(t.0, t.1, t.2), 60 * (mx - mn) * 0 + rem, mx - mn, 30)
        }),
{
}

proof fn lemma_sector_1(mx: int, mn: int, x: int, rem: int)
    requires
        0 <= mn < mx,
        0 <= x <= mx - mn,
        0 <= rem < 60 * (mx - mn),
        60 * x - 30 <= rem <= 60 * x + 29,
    ensures
        ({
            let t = (mx - x, mx, mn);
            &&& max3(t.0, t.1, t.2) == mx
            &&& min3(t.0, t.1, t.2) == mn
            &&& hue_close(hue_position(t.0, t.1, t.2), 60 * (mx - mn) * 1 + rem, mx - mn, 30)
        }),
{
}

proof fn lemma_sector_2(mx: int, mn: int, x: int, rem: int)
    requires
        0 <= mn < mx,
        0 <= x <= mx - mn,
        0 <= rem < 60 * (mx - mn),
        60 * x - 30 <= rem <= 60 * x + 29,
    ensures
        ({
            let t = (mn, mx, mn + x);
            &&& max3(t.0, t.1, t.2) == mx
            &&& min3(t.0, t.1, t.2) == mn
            &&& hue_close(hue_position(t.0, t.1, t.2), 60 * (mx - mn) * 2 + rem, mx - mn, 30)
        }),
{
}

proof fn lemma_sector_3(mx: int, mn: int, x: int, rem: int)
    requires
        0 <= mn < mx,
        0 <= x <= mx - mn,
        0 <= rem < 60 * (mx - mn),
        60 * x - 30 <= rem <= 60 * x + 29,
    ensures
        ({
            let t = (mn, mx - x, mx);
            &&& max3(t.0, t.1, t.2) == mx
            &&& min3(t.0, t.1, t.2) == mn
            &&& hue_close(hue_position(t.0, t.1, t.2), 60 * (mx - mn) * 3 + rem, mx - mn, 30)
        }),
{
}

proof fn lemma_sector_4(mx: int, mn: int, x: int, rem: int)
    requires
        0 <= mn < mx,
        0 <= x <= mx - mn,
        0 <= rem < 60 * (mx - mn),
        60 * x - 30 <= rem <= 60 * x + 29,
    ensures
        ({
            let t = (mn + x, mn, mx);
            &&& max3(t.0, t.1, t.2) == mx
            &&& min3(t.0, t.1, t.2) == mn
            &&& hue_close(hue_position(t.0, t.1, t.2), 60 * (mx - mn) * 4 + rem, mx - mn, 30)
        }),
{
}

proof fn lemma_sector_5(mx: int, mn: int, x: int, rem: int)
    requires
        0 <= mn < mx,
        0 <= x <= mx - mn,
        0 <= rem < 60 * (mx - mn),
        60 * x - 30 <= rem <= 60 * x + 29,
    ensures
        ({
            let t = (mx, mn, mx - x);
            &&& max3(t.0, t.1, t.2) == mx
            &&& min3(t.0, t.1, t.2) == mn
            &&& hue_close(hue_position(t.0, t.1, t.2), 60 * (mx - mn) * 5 + rem, mx - mn, 30)
        }),
{
}

/// An angle in degrees brought into `[0, 360)`.
pub open spec fn normal_degrees(degrees: i32) -> int {
    degrees as int % 360
}

/// [`normal_degrees`] computed.
pub fn normalize_degrees(degrees: i32) -> (r: u32)
    ensures
        r == normal_degrees(degrees),
        r < 360,
{
    let shifted: u64 = (degrees as i64 + 2_160_000_000i64) as u64;
    proof {
        vstd::arithmetic::div_mod::lemma_mod_multiples_vanish(6_000_000, degrees as int, 360);
        assert(360 * 6_000_000 + degrees as int == shifted as int);
    }
    (shifted % 360) as u32
}

/// [`hue_rotated`] computed for one pixel.
fn rotate_pixel(r: u8, g: u8, b: u8, degrees: u32) -> (out: (u8, u8, u8))
    requires
        degrees < 360,
    ensures
        out == hue_rotated(r, g, b, degrees as int),
{
    let mx: u32 = if r >= g && r >= b { r as u32 } else if g >= b { g as u32 } else { b as u32 };
    let mn: u32 = if r <= g && r <= b { r as u32 } else if g <= b { g as u32 } else { b as u32 };
    if mx == mn {
        return (r, g, b);
    }
    let d: u32 = mx - mn;
    let (ri, gi, bi) = (r as u32, g as u32, b as u32);
    let hd: u32 = if mx == ri {
        if gi >= bi { 60 * (gi - bi) } else { 360 * d - 60 * (bi - gi) }
    } else if mx == gi {
        120 * d + 60 * bi - 60 * ri
    } else {
        240 * d + 60 * ri - 60 * gi
    };
    assert(hd == hue_position(r as int, g as int, b as int));
    let full: u32 = 360 * d;
    assert(degrees * d <= 359 * 255) by (nonlinear_arith)
        requires
            degrees < 360,
            d <= 255,
    ;
    let p: u32 = (hd + degrees * d) % full;
    assert(p == rotated_position(r as int, g as int, b as int, degrees as int));
    let sixty_d: u32 = 60 * d;
    let k: u32 = p / sixty_d;
    let rem: u32 = p % sixty_d;
    assert(rem < sixty_d && k < 6) by (nonlinear_arith)
        requires
            p < full,
            full == 6 * sixty_d,
            sixty_d > 0,
            k == p / sixty_d,
            rem == p % sixty_d,
    ;
    let x: u32 = (rem + 30) / 60;
    assert(x <= d);
    let out: (u32, u32, u32) = if k == 0 {
        (mx, mn + x, mn)
    } else if k == 1 {
        (mx - x, mx, mn)
    } else if k == 2 {
        (mn, mx, mn + x)
    } else if k == 3 {
        (mn, mx - x, mx)
    } else if k == 4 {
        (mn + x, mn, mx)
    } else {
        (mx, mn, mx - x)
    };
    (out.0 as u8, out.1 as u8, out.2 as u8)
}

/// Rotate the hue of every pixel of RGBA bytes by `degrees` (in `[0, 360)`).
pub fn rotate_hue_bytes(px: &Vec<u8>, degrees: u32) -> (r: Vec<u8>)
    requires
        degrees < 360,
        px@.len() % 4 == 0,
    ensures
        r@ == hue_rotated_bytes(px@, degrees as int),
{
    let len = px.len();
    let n = len / 4;
    assert(len == 4 * n);
    let mut out: Vec<u8> = Vec::new();
    let mut i: usize = 0;
    while i < n
        invariant
            px@.len() == 4 * n,
            len == px@.len(),
            i <= n,
            degrees < 360,
            out@.len() == 4 * i,
            forall|j: int| 0 <= j < 4 * i ==> out@[j] == #[trigger] rotated_byte(px@, j, degrees as int),
        decreases n - i,
    {
        let q = 4 * i;
        let c = rotate_pixel(px[q], px[q + 1], px[q + 2], degrees);
        out.push(c.0);
        out.push(c.1);
        out.push(c.2);
        out.push(px[q + 3]);
        assert forall|j: int| 0 <= j < 4 * (i + 1) implies out@[j] == #[trigger] rotated_byte(px@, j, degrees as int) by {
            if j >= 4 * i {
                assert(j - j % 4 == q);
            }
        }
        i = i + 1;
    }
    assert(out@ =~= hue_rotated_bytes(px@, degrees as int));
    out
}

} // verus!
