//! Comparison helpers for texture data read back from a target.
//!
//! The diff of two RGBA textures is a texture of the same pixel count
//! that is black where the pixels agree and white where they differ,
//! with full opacity everywhere — the picture a test shows when an
//! actual texture does not match the expected one.

use vstd::prelude::*;

verus! {

/// Texture data retrieved from a render target: an RGBA byte buffer and
/// the texture's width and height.
pub struct TextureData {
    /// RGBA buffer of the texture.
    pub buffer: Vec<u8>,
    /// Width and height of the texture.
    pub size: (u32, u32),
}

/// How many 4-byte pixels `n` bytes hold, a trailing partial pixel
/// included.
pub open spec fn spec_pixel_ceil(n: int) -> int {
    (n + 3) / 4
}

/// The bytes of pixel `i` of a texture: up to four bytes starting at
/// byte `4 * i`.
pub open spec fn spec_chunk(t: Seq<u8>, i: int) -> Seq<u8> {
    t.subrange(4 * i, if 4 * i + 4 <= t.len() { 4 * i + 4 } else { t.len() as int })
}

/// The diff color of pixel `i`: black where the two textures agree on
/// the pixel's bytes, white where they differ, always fully opaque.
pub open spec fn spec_diff_pixel(a: Seq<u8>, b: Seq<u8>, i: int) -> Seq<u8> {
    if spec_chunk(a, i) == spec_chunk(b, i) {
        seq![0u8, 0u8, 0u8, 255u8]
    } else {
        seq![255u8, 255u8, 255u8, 255u8]
    }
}

/// The first `n` diff pixels, concatenated.
pub open spec fn spec_texture_diff_prefix(a: Seq<u8>, b: Seq<u8>, n: int) -> Seq<u8>
    decreases n,
{
    if n <= 0 {
        Seq::empty()
    } else {
        spec_texture_diff_prefix(a, b, n - 1) + spec_diff_pixel(a, b, n - 1)
    }
}

/// The diff of two textures: one color per pixel position present in
/// both.
pub open spec fn spec_texture_diff(a: Seq<u8>, b: Seq<u8>) -> Seq<u8> {
    let count = if spec_pixel_ceil(a.len() as int) <= spec_pixel_ceil(b.len() as int) {
        spec_pixel_ceil(a.len() as int)
    } else {
        spec_pixel_ceil(b.len() as int)
    };
    spec_texture_diff_prefix(a, b, count)
}

/// Whether the two textures agree on all bytes of pixel `i`.
fn chunk_eq(a: &[u8], b: &[u8], i: usize) -> (r: bool)
    requires
        4 * i < a@.len(),
        4 * i < b@.len(),
    ensures
        r == (spec_chunk(a@, i as int) == spec_chunk(b@, i as int)),
{
    let alen = a.len();
    let blen = b.len();
    let lo = 4 * i;
    let ha = if a.len() - lo >= 4 {
        lo + 4
    } else {
        a.len()
    };
    let hb = if b.len() - lo >= 4 {
        lo + 4
    } else {
        b.len()
    };
    if ha - lo != hb - lo {
        proof {
            assert(spec_chunk(a@, i as int).len() != spec_chunk(b@, i as int).len());
        }
        return false;
    }
    let mut k: usize = 0;
    while k < ha - lo
        invariant
            0 <= k <= ha - lo,
            4 * i == lo < ha <= a@.len(),
            lo < hb <= b@.len(),
            ha - lo == hb - lo,
            ha == if a@.len() - lo >= 4 {
                lo + 4
            } else {
                a@.len() as int
            },
            hb == if b@.len() - lo >= 4 {
                lo + 4
            } else {
                b@.len() as int
            },
            forall|j: int| 0 <= j < k ==> #[trigger] a@[lo + j] == b@[lo + j],
        decreases ha - lo - k,
    {
        if *vstd::slice::slice_index_get(a, lo + k) != *vstd::slice::slice_index_get(
            b,
            lo + k,
        ) {
            proof {
                assert(spec_chunk(a@, i as int)[k as int] != spec_chunk(b@, i as int)[k as int]);
            }
            return false;
        }
        k += 1;
    }
    proof {
        assert forall|j: int| 0 <= j < spec_chunk(a@, i as int).len() implies spec_chunk(
            a@,
            i as int,
        )[j] == spec_chunk(b@, i as int)[j] by {
            assert(a@[lo + j] == b@[lo + j]);
        }
        assert(spec_chunk(a@, i as int) =~= spec_chunk(b@, i as int));
    }
    true
}

/// The diff texture of two RGBA buffers: black pixels where they agree,
/// white pixels where they differ, all fully opaque.
pub fn texture_diff(texture1: &[u8], texture2: &[u8]) -> (r: Vec<u8>)
    ensures
        r@ == spec_texture_diff(texture1@, texture2@),
{
    let c1 = texture1.len() / 4 + if texture1.len() % 4 != 0 {
        1
    } else {
        0
    };
    let c2 = texture2.len() / 4 + if texture2.len() % 4 != 0 {
        1
    } else {
        0
    };
    let count = if c1 <= c2 {
        c1
    } else {
        c2
    };
    proof {
        assert(c1 == spec_pixel_ceil(texture1@.len() as int));
        assert(c2 == spec_pixel_ceil(texture2@.len() as int));
    }
    let mut r: Vec<u8> = Vec::new();
    let mut i: usize = 0;
    while i < count
        invariant
            0 <= i <= count,
            count <= spec_pixel_ceil(texture1@.len() as int),
            count <= spec_pixel_ceil(texture2@.len() as int),
            r@ == spec_texture_diff_prefix(texture1@, texture2@, i as int),
        decreases count - i,
    {
        if chunk_eq(texture1, texture2, i) {
            r.push(0);
            r.push(0);
            r.push(0);
            r.push(255);
        } else {
            r.push(255);
            r.push(255);
            r.push(255);
            r.push(255);
        }
        proof {
            assert(r@ =~= spec_texture_diff_prefix(texture1@, texture2@, i + 1));
        }
        i += 1;
    }
    r
}

} // verus!
