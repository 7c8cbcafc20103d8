use vstd::prelude::*;

verus! {

/// Length of one period of the triangle wave, in phase units.
pub const WAVE_PERIOD: u64 = 1024;

/// Pixels per period of the pattern, horizontally and vertically.
pub const PIXEL_PERIOD: u64 = 128;

/// Brightest level the pattern reaches.
pub const LEVEL_MAX: u64 = 240;

/// Triangle wave of period `WAVE_PERIOD`: rises from 0 to 511, then falls back.
pub open spec fn wave(p: int) -> int {
    let w = p % (WAVE_PERIOD as int);
    if w < 512 {
        w
    } else {
        1023 - w
    }
}

/// Phase of the horizontal wave at column `x`, `t_ms` milliseconds in: it
/// starts halfway up and travels one period in about three seconds.
pub open spec fn column_phase(x: int, t_ms: int) -> int {
    8 * (x % (PIXEL_PERIOD as int)) + (t_ms / 3) % (WAVE_PERIOD as int) + 256
}

/// Phase of the vertical wave at row `y`: it starts on its peak and moves
/// half as fast as the horizontal one.
pub open spec fn row_phase(y: int, t_ms: int) -> int {
    8 * (y % (PIXEL_PERIOD as int)) + (t_ms / 6) % (WAVE_PERIOD as int) + 512
}

/// Brightness of the pattern at `(x, y)` after `t_ms` milliseconds: the sum of
/// the two waves, scaled into `[0, LEVEL_MAX]`.
pub open spec fn level(x: int, y: int, t_ms: int) -> int {
    (wave(column_phase(x, t_ms)) + wave(row_phase(y, t_ms))) * (LEVEL_MAX as int) / 1022
}

/// Channel `c` (0 red, 1 green, 2 blue) of the pattern color for brightness
/// `lvl`: red is the brightness, green half of it, and blue is full.
pub open spec fn tint(lvl: int, c: int) -> int {
    if c == 0 {
        lvl
    } else if c == 1 {
        lvl / 2
    } else {
        255
    }
}

/// The pattern as a row-major RGB buffer of `width * height` pixels.
pub open spec fn pattern_rgb(width: int, height: int, t_ms: int) -> Seq<u8> {
    Seq::new(
        (width * height * 3) as nat,
        |k: int|
            tint(level((k / 3) % width, (k / 3) / width, t_ms), k % 3) as u8,
    )
}

fn wave_at(p: u64) -> (r: u64)
    ensures
        r == wave(p as int),
        r < 512,
{
    let w = p % WAVE_PERIOD;
    if w < 512 {
        w
    } else {
        1023 - w
    }
}

/// Brightness of the pattern at column `x`, row `y`, after `t_ms` milliseconds.
pub fn pattern_level(x: usize, y: usize, t_ms: u64) -> (r: u8)
    ensures
        r as int == level(x as int, y as int, t_ms as int),
        r as u64 <= LEVEL_MAX,
{
    let cp: u64 = 8 * ((x as u64) % PIXEL_PERIOD) + (t_ms / 3) % WAVE_PERIOD + 256;
    let rp: u64 = 8 * ((y as u64) % PIXEL_PERIOD) + (t_ms / 6) % WAVE_PERIOD + 512;
    let sum = wave_at(cp) + wave_at(rp);
    proof {
        assert(sum * 240 / 1022 <= 240) by (nonlinear_arith)
            requires
                sum <= 1022,
        ;
    }
    (sum * LEVEL_MAX / 1022) as u8
}

/// Channel `c` of the pattern color for brightness `lvl`.
pub fn pattern_channel(lvl: u8, c: usize) -> (r: u8)
    requires
        c < 3,
    ensures
        r as int == tint(lvl as int, c as int),
{
    if c == 0 {
        lvl
    } else if c == 1 {
        lvl / 2
    } else {
        255
    }
}

/// Renders the pattern for a `width` by `height` frame, `t_ms` milliseconds
/// in, as a row-major RGB buffer.
pub fn render_pattern(width: usize, height: usize, t_ms: u64) -> (r: Vec<u8>)
    requires
        width * height * 3 <= usize::MAX,
    ensures
        r@ == pattern_rgb(width as int, height as int, t_ms as int),
{
    proof {
        assert(width * height <= width * height * 3) by (nonlinear_arith)
            requires
                width * height >= 0,
        ;
    }
    let n: usize = width * height;
    let ghost want = pattern_rgb(width as int, height as int, t_ms as int);
    let mut out: Vec<u8> = Vec::new();
    let mut i: usize = 0;
    while i < n
        invariant
            n == width * height,
            n * 3 <= usize::MAX,
            i <= n,
            want == pattern_rgb(width as int, height as int, t_ms as int),
            out@.len() == 3 * i,
            forall|k: int| 0 <= k < 3 * i ==> out@[k] == want[k],
        decreases n - i,
    {
        let x: usize = i % width;
        let y: usize = i / width;
        let lvl = pattern_level(x, y, t_ms);
        let mut c: usize = 0;
        while c < 3
            invariant
                n == width * height,
                n * 3 <= usize::MAX,
                i < n,
                c <= 3,
                x == i % width,
                y == i / width,
                lvl as int == level(x as int, y as int, t_ms as int),
                want == pattern_rgb(width as int, height as int, t_ms as int),
                out@.len() == 3 * i + c,
                forall|k: int| 0 <= k < 3 * i + c ==> out@[k] == want[k],
            decreases 3 - c,
        {
            let v = pattern_channel(lvl, c);
            proof {
                let k = 3 * i + c;
                assert(k / 3 == i && k % 3 == c);
                assert(k < n * 3);
            }
            out.push(v);
            c = c + 1;
        }
        i = i + 1;
    }
    assert(out@ =~= want);
    out
}

} // verus!
