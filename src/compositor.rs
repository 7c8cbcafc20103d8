use vstd::prelude::*;
use vstd::arithmetic::div_mod::lemma_div_is_ordered;
use crate::fade::MIX_SCALE;
use crate::pattern::{pattern_rgb, render_pattern};

verus! {

/// One 8-bit channel blended from the camera value `s` and the pattern value
/// `p` under mix `mix` (thousandths of the pattern), truncated.
pub open spec fn blend(s: int, p: int, mix: int) -> int {
    (s * (MIX_SCALE - mix) + p * mix) / (MIX_SCALE as int)
}

/// Byte `k` of the RGBA output for RGB inputs `src` and `pat`: channels 0 to 2
/// of each pixel are blended, channel 3 is opaque.
pub open spec fn composited_at(src: Seq<u8>, pat: Seq<u8>, mix: int, k: int) -> u8 {
    if k % 4 == 3 {
        255u8
    } else {
        blend(src[(k / 4) * 3 + k % 4] as int, pat[(k / 4) * 3 + k % 4] as int, mix) as u8
    }
}

/// The RGBA frame blended from the RGB frames `src` and `pat`.
pub open spec fn composited(src: Seq<u8>, pat: Seq<u8>, mix: int) -> Seq<u8> {
    Seq::new((src.len() / 3 * 4) as nat, |k: int| composited_at(src, pat, mix, k))
}

/// The RGB frame `rgb` with an opaque alpha channel added to each pixel.
pub open spec fn opaque_rgba(rgb: Seq<u8>) -> Seq<u8> {
    Seq::new(
        (rgb.len() / 3 * 4) as nat,
        |k: int|
            if k % 4 == 3 {
                255u8
            } else {
                rgb[(k / 4) * 3 + k % 4]
            },
    )
}

/// The displayed RGBA frame for camera frame `src` of `width * height`
/// pixels, `t_ms` milliseconds in, under mix `mix`.
pub open spec fn composed(src: Seq<u8>, width: int, height: int, t_ms: int, mix: int) -> Seq<u8> {
    composited(src, pattern_rgb(width, height, t_ms), mix)
}

/// Blends one channel: `(s * (MIX_SCALE - mix) + p * mix) / MIX_SCALE`.
pub fn blend_channel(s: u8, p: u8, mix: u32) -> (r: u8)
    requires
        mix <= MIX_SCALE,
    ensures
        r as int == blend(s as int, p as int, mix as int),
{
    proof {
        assert(s * (1000 - mix) + p * mix <= 255 * 1000) by (nonlinear_arith)
            requires
                s <= 255,
                p <= 255,
                mix <= 1000,
        ;
    }
    (((s as u32) * (MIX_SCALE - mix) + (p as u32) * mix) / MIX_SCALE) as u8
}

/// Blends the camera frame `source` with the pattern frame `pattern`, both RGB
/// and `width * height` pixels, into an opaque RGBA frame.
pub fn composite(source: &Vec<u8>, pattern: &Vec<u8>, width: usize, height: usize, mix: u32) -> (r:
    Vec<u8>)
    requires
        source@.len() == width * height * 3,
        pattern@.len() == source@.len(),
        width * height * 4 <= usize::MAX,
        mix <= MIX_SCALE,
    ensures
        r@.len() == width * height * 4,
        r@ == composited(source@, pattern@, mix as int),
{
    proof {
        assert(width * height <= width * height * 4) by (nonlinear_arith)
            requires
                width * height >= 0,
        ;
    }
    let n: usize = width * height;
    let ghost want = composited(source@, pattern@, mix as int);
    let mut out: Vec<u8> = Vec::new();
    let mut i: usize = 0;
    while i < n
        invariant
            n == width * height,
            n * 4 <= usize::MAX,
            source@.len() == n * 3,
            pattern@.len() == n * 3,
            mix <= MIX_SCALE,
            i <= n,
            want == composited(source@, pattern@, mix as int),
            out@.len() == 4 * i,
            forall|k: int| 0 <= k < 4 * i ==> out@[k] == want[k],
        decreases n - i,
    {
        let mut c: usize = 0;
        while c < 3
            invariant
                n == width * height,
                n * 4 <= usize::MAX,
                source@.len() == n * 3,
                pattern@.len() == n * 3,
                mix <= MIX_SCALE,
                i < n,
                c <= 3,
                want == composited(source@, pattern@, mix as int),
                out@.len() == 4 * i + c,
                forall|k: int| 0 <= k < 4 * i + c ==> out@[k] == want[k],
            decreases 3 - c,
        {
            let v = blend_channel(source[3 * i + c], pattern[3 * i + c], mix);
            proof {
                let k = 4 * i + c;
                assert(k / 4 == i && k % 4 == c);
                assert(k < n * 3 / 3 * 4);
            }
            out.push(v);
            c = c + 1;
        }
        proof {
            let k = 4 * i + 3;
            assert(k / 4 == i && k % 4 == 3);
            assert(k < n * 3 / 3 * 4);
        }
        out.push(255);
        i = i + 1;
    }
    assert(out@ =~= want);
    out
}

/// Composes one displayed frame: renders the pattern for `t_ms` milliseconds
/// in and blends the camera frame `source` with it under mix `mix`.
/// Returns `None`, and the tick shows nothing new, when `source` is not an RGB
/// frame of `width * height` pixels or the RGBA frame would not fit in memory.
pub fn compose_frame(source: &Vec<u8>, width: usize, height: usize, mix: u32, t_ms: u64) -> (r:
    Option<Vec<u8>>)
    requires
        mix <= MIX_SCALE,
    ensures
        r.is_some() <==> (width * height * 4 <= usize::MAX && source@.len() == width * height
            * 3),
        r matches Some(out) ==> out@ == composed(
            source@,
            width as int,
            height as int,
            t_ms as int,
            mix as int,
        ),
{
    let n = match width.checked_mul(height) {
        Some(n) => n,
        None => {
            proof {
                assert(width * height * 4 >= width * height) by (nonlinear_arith)
                    requires
                        width * height >= 0,
                ;
            }
            return None;
        },
    };
    if n > usize::MAX / 4 || source.len() != n * 3 {
        return None;
    }
    let pattern = render_pattern(width, height, t_ms);
    Some(composite(source, &pattern, width, height, mix))
}

/// With mix 0 the output is the camera frame exactly, made opaque.
pub proof fn lemma_composite_camera_only(src: Seq<u8>, pat: Seq<u8>)
    requires
        src.len() % 3 == 0,
        pat.len() == src.len(),
    ensures
        composited(src, pat, 0) == opaque_rgba(src),
{
    assert(composited(src, pat, 0) =~= opaque_rgba(src));
}

/// With mix `MIX_SCALE` the output is the pattern frame exactly, made opaque,
/// whatever the camera frame holds.
pub proof fn lemma_composite_pattern_only(src: Seq<u8>, pat: Seq<u8>)
    requires
        src.len() % 3 == 0,
        pat.len() == src.len(),
    ensures
        composited(src, pat, MIX_SCALE as int) == opaque_rgba(pat),
{
    assert(composited(src, pat, MIX_SCALE as int) =~= opaque_rgba(pat));
}

/// A blended channel moves monotonically from the camera value to the pattern
/// value as the mix grows, and never leaves the range between them.
pub proof fn lemma_blend_monotone(s: int, p: int, m1: int, m2: int)
    requires
        0 <= s <= 255,
        0 <= p <= 255,
        0 <= m1 <= m2 <= MIX_SCALE,
    ensures
        blend(s, p, 0) == s,
        blend(s, p, MIX_SCALE as int) == p,
        s <= p ==> s <= blend(s, p, m1) <= blend(s, p, m2) <= p,
        p <= s ==> p <= blend(s, p, m2) <= blend(s, p, m1) <= s,
{
    let n1 = s * (MIX_SCALE - m1) + p * m1;
    let n2 = s * (MIX_SCALE - m2) + p * m2;
    assert(n1 == s * 1000 + (p - s) * m1) by (nonlinear_arith)
        requires
            n1 == s * (1000 - m1) + p * m1,
    ;
    assert(n2 == s * 1000 + (p - s) * m2) by (nonlinear_arith)
        requires
            n2 == s * (1000 - m2) + p * m2,
    ;
    assert(s * 1000 / 1000 == s);
    assert(p * 1000 / 1000 == p);
    if s <= p {
        assert(0 <= (p - s) * m1 <= (p - s) * m2 <= (p - s) * 1000) by (nonlinear_arith)
            requires
                s <= p,
                0 <= m1 <= m2 <= 1000,
        ;
        lemma_div_is_ordered(s * 1000, n1, 1000);
        lemma_div_is_ordered(n1, n2, 1000);
        lemma_div_is_ordered(n2, p * 1000, 1000);
    } else {
        assert((p - s) * 1000 <= (p - s) * m2 <= (p - s) * m1 <= 0) by (nonlinear_arith)
            requires
                p < s,
                0 <= m1 <= m2 <= 1000,
        ;
        lemma_div_is_ordered(p * 1000, n2, 1000);
        lemma_div_is_ordered(n2, n1, 1000);
        lemma_div_is_ordered(n1, s * 1000, 1000);
    }
}

/// For one pattern frame held fixed, each output channel moves monotonically
/// from its value at mix 0 to its value at mix `MIX_SCALE` as the mix grows.
pub proof fn lemma_composite_monotone(src: Seq<u8>, pat: Seq<u8>, m1: int, m2: int, k: int)
    requires
        src.len() % 3 == 0,
        pat.len() == src.len(),
        0 <= m1 <= m2 <= MIX_SCALE,
        0 <= k < src.len() / 3 * 4,
    ensures
        ({
            let lo = composited(src, pat, 0)[k];
            let hi = composited(src, pat, MIX_SCALE as int)[k];
            let a = composited(src, pat, m1)[k];
            let b = composited(src, pat, m2)[k];
            (lo <= hi ==> lo <= a <= b <= hi) && (hi <= lo ==> hi <= b <= a <= lo)
        }),
{
    if k % 4 != 3 {
        let j = (k / 4) * 3 + k % 4;
        assert(0 <= j < src.len());
        lemma_blend_monotone(src[j] as int, pat[j] as int, m1, m2);
        lemma_blend_monotone(src[j] as int, pat[j] as int, 0, MIX_SCALE as int);
    }
}

/// Each byte of a displayed frame moves monotonically from its value at mix 0
/// (the camera) to its value at mix `MIX_SCALE` (the pattern) as the mix grows,
/// all else held fixed.
pub proof fn lemma_composed_monotone(
    src: Seq<u8>,
    width: int,
    height: int,
    t_ms: int,
    m1: int,
    m2: int,
    k: int,
)
    requires
        width >= 0,
        height >= 0,
        src.len() == width * height * 3,
        0 <= m1 <= m2 <= MIX_SCALE,
        0 <= k < width * height * 4,
    ensures
        ({
            let lo = composed(src, width, height, t_ms, 0)[k];
            let hi = composed(src, width, height, t_ms, MIX_SCALE as int)[k];
            let a = composed(src, width, height, t_ms, m1)[k];
            let b = composed(src, width, height, t_ms, m2)[k];
            &&& lo <= hi ==> lo <= a <= b <= hi
            &&& hi <= lo ==> hi <= b <= a <= lo
        }),
{
    assert(width * height * 3 >= 0) by (nonlinear_arith)
        requires
            width >= 0,
            height >= 0,
    ;
    let pat = pattern_rgb(width, height, t_ms);
    lemma_composite_monotone(src, pat, m1, m2, k);
}

} // verus!
