//! Band division and curve ordering for the pixel shader's early-out, and the
//! integer layout of the band texture.
//!
//! A glyph is divided into horizontal and vertical bands. Each band lists the
//! curves that cross it, ordered by descending maximum coordinate so that the
//! shader can stop early. The band texture holds, per glyph, one header texel
//! `(count, offset)` for every horizontal band, then one for every vertical
//! band, then the curve locations the headers point at.
use vstd::prelude::*;

verus! {

/// Width in texels of the curve and band textures.
pub const BAND_TEXTURE_WIDTH: u32 = 4096;

/// Upper bound on the number of bands per axis.
pub const MAX_BANDS: usize = 16;

/// Number of bands for a glyph with `num_curves` curves: one per four curves,
/// at least one and at most `MAX_BANDS`.
pub open spec fn spec_band_count(num_curves: int) -> int {
    let q = num_curves / 4;
    if q < 1 {
        1
    } else if q > MAX_BANDS {
        MAX_BANDS as int
    } else {
        q
    }
}

/// One band per four curves (rounded down), with at least one band and at
/// most sixteen: `max(1, min(16, num_curves / 4))`.
pub proof fn lemma_band_count_formula(num_curves: int)
    requires
        num_curves >= 0,
    ensures
        1 <= spec_band_count(num_curves) <= 16,
        num_curves < 8 ==> spec_band_count(num_curves) == 1,
        4 <= num_curves < 68 ==> spec_band_count(num_curves) == num_curves / 4,
        num_curves >= 64 ==> spec_band_count(num_curves) == 16,
        spec_band_count(num_curves) * 4 <= num_curves || spec_band_count(num_curves) == 1,
        spec_band_count(num_curves) < 16 ==> num_curves < (spec_band_count(num_curves) + 1) * 4,
{
}

/// Number of bands: proportional to the curve count, from 1 up to 16.
pub fn band_count(num_curves: usize) -> (n: usize)
    ensures
        n == spec_band_count(num_curves as int),
        1 <= n <= MAX_BANDS,
        num_curves < 8 ==> n == 1,
        4 <= num_curves < 68 ==> n == num_curves / 4,
        num_curves >= 64 ==> n == 16,
{
    proof {
        lemma_band_count_formula(num_curves as int);
    }
    let q = num_curves / 4;
    if q < 1 {
        1
    } else if q > MAX_BANDS {
        MAX_BANDS
    } else {
        q
    }
}

/// Rows of the curve texture needed for `num_texels` texels (at least one row).
/// The texel count is taken modulo 2^32, as the renderer stores it in a `u32`.
pub open spec fn spec_curve_rows(num_texels: usize) -> int {
    let rows = ((#[verifier::truncate] (num_texels as u32)) + BAND_TEXTURE_WIDTH - 1) / (BAND_TEXTURE_WIDTH as int);
    if rows < 1 {
        1
    } else {
        rows
    }
}

/// Height of the curve texture holding `num_texels` texels in rows of
/// `BAND_TEXTURE_WIDTH`.
pub fn curve_texture_height(num_texels: usize) -> (h: u32)
    requires
        (#[verifier::truncate] (num_texels as u32)) + (BAND_TEXTURE_WIDTH - 1) <= u32::MAX,
    ensures
        h == spec_curve_rows(num_texels),
        h >= 1,
        num_texels <= u32::MAX ==> num_texels <= h * BAND_TEXTURE_WIDTH,
{
    let n = #[verifier::truncate] (num_texels as u32);
    let rows = (n + (BAND_TEXTURE_WIDTH - 1)) / BAND_TEXTURE_WIDTH;
    if rows < 1 {
        1
    } else {
        rows
    }
}

/// Lays `data` out in `rows` full rows of `width` entries, filling the entries
/// past the end of `data` with `fill`.
pub fn pad_rows<T: Copy>(data: &Vec<T>, width: u32, rows: u32, fill: T) -> (out: Vec<T>)
    requires
        rows * width <= usize::MAX,
    ensures
        out.len() == rows * width,
        forall|i: int| 0 <= i < out.len() ==> #[trigger] out@[i] == if i < data.len() {
            data@[i]
        } else {
            fill
        },
{
    let mut out: Vec<T> = Vec::new();
    let mut row_offset: usize = 0;
    let w = width as usize;
    for r in 0..rows
        invariant
            w == width,
            row_offset == r * width,
            rows * width <= usize::MAX,
            out.len() == row_offset,
            forall|i: int| 0 <= i < out.len() ==> #[trigger] out@[i] == if i < data.len() {
                data@[i]
            } else {
                fill
            },
    {
        assert(r * width + width <= rows * width) by (nonlinear_arith)
            requires
                r < rows,
        ;
        for col in 0..w
            invariant
                w == width,
                row_offset == r * width,
                row_offset + w <= usize::MAX,
                out.len() == row_offset + col,
                forall|i: int| 0 <= i < out.len() ==> #[trigger] out@[i] == if i < data.len() {
                    data@[i]
                } else {
                    fill
                },
        {
            let idx = row_offset + col;
            if idx < data.len() {
                out.push(data[idx]);
            } else {
                out.push(fill);
            }
        }
        row_offset = row_offset + w;
        assert(row_offset == (r + 1) * width) by (nonlinear_arith)
            requires
                row_offset == r * width + width,
        ;
    }
    out
}

// ---------------------------------------------------------------------------
// Ordering curves within a band
// ---------------------------------------------------------------------------

/// Curve `a` comes before curve `b` in a band: its key is larger, or the keys
/// are equal and `a` comes first in the glyph (the sort is stable).
pub open spec fn ranks_before(keys: Seq<u32>, a: int, b: int) -> bool {
    keys[a] > keys[b] || (keys[a] == keys[b] && a < b)
}

/// The list is strictly ordered by `ranks_before`.
pub open spec fn ordered_by_key(list: Seq<usize>, keys: Seq<u32>) -> bool {
    forall|i: int, j: int|
        0 <= i < j < list.len() ==> ranks_before(keys, #[trigger] list[i] as int, #[trigger] list[j] as int)
}

/// Number of curves among the first `n` that cross band `b`.
pub open spec fn crossing_count(crosses: Seq<Seq<bool>>, b: int, n: int) -> nat
    decreases n,
{
    if n <= 0 {
        0
    } else {
        crossing_count(crosses, b, n - 1) + if crosses[n - 1][b] {
            1nat
        } else {
            0nat
        }
    }
}

/// `list` is band `b`: exactly the curves that cross it, each once, in order
/// of descending key with ties kept in curve order.
pub open spec fn is_band_list(list: Seq<usize>, crosses: Seq<Seq<bool>>, keys: Seq<u32>, b: int) -> bool {
    &&& ordered_by_key(list, keys)
    &&& forall|i: int| 0 <= i < list.len() ==> #[trigger] list[i] < crosses.len() && crosses[list[i] as int][b]
    &&& forall|c: int| 0 <= c < crosses.len() && #[trigger] crosses[c][b] ==> list.contains(c as usize)
    &&& list.len() == crossing_count(crosses, b, crosses.len() as int)
}

/// Inserts curve `x`, which comes after every curve already listed, at its
/// place in the key order.
fn insert_by_key(list: &mut Vec<usize>, x: usize, keys: &Vec<u32>)
    requires
        ordered_by_key(old(list)@, keys@),
        x < keys.len(),
        forall|i: int| 0 <= i < old(list).len() ==> #[trigger] old(list)@[i] < x,
    ensures
        ordered_by_key(final(list)@, keys@),
        final(list).len() == old(list).len() + 1,
        forall|i: int| 0 <= i < final(list).len() ==> #[trigger] final(list)@[i] <= x,
        forall|e: usize| #[trigger] final(list)@.contains(e) <==> (old(list)@.contains(e) || e == x),
{
    let ghost old_list = list@;
    let mut p: usize = 0;
    while p < list.len() && keys[list[p]] >= keys[x]
        invariant
            list@ == old_list,
            0 <= p <= list.len(),
            x < keys.len(),
            ordered_by_key(old_list, keys@),
            forall|i: int| 0 <= i < old_list.len() ==> #[trigger] old_list[i] < x,
            forall|i: int| 0 <= i < p ==> ranks_before(keys@, #[trigger] old_list[i] as int, x as int),
        decreases list.len() - p,
    {
        assert(old_list[p as int] < x);
        p = p + 1;
    }
    assert forall|j: int| p <= j < old_list.len() implies ranks_before(
        keys@,
        x as int,
        #[trigger] old_list[j] as int,
    ) by {
        if j > p {
            assert(ranks_before(keys@, old_list[p as int] as int, old_list[j] as int));
        }
    }
    list.insert(p, x);
    let ghost new_list = list@;
    assert(new_list == old_list.insert(p as int, x));
    assert forall|i: int, j: int| 0 <= i < j < new_list.len() implies ranks_before(
        keys@,
        #[trigger] new_list[i] as int,
        #[trigger] new_list[j] as int,
    ) by {
        if j < p {
            assert(new_list[i] == old_list[i] && new_list[j] == old_list[j]);
        } else if j == p {
            assert(new_list[i] == old_list[i]);
        } else if i < p {
            assert(new_list[i] == old_list[i] && new_list[j] == old_list[j - 1]);
        } else if i == p {
            assert(new_list[j] == old_list[j - 1]);
        } else {
            assert(new_list[i] == old_list[i - 1] && new_list[j] == old_list[j - 1]);
        }
    }
    assert forall|e: usize| #[trigger] new_list.contains(e) <==> (old_list.contains(e) || e == x) by {
        if new_list.contains(e) {
            let k = choose|k: int| 0 <= k < new_list.len() && new_list[k] == e;
            if k < p {
                assert(old_list[k] == e);
            } else if k > p {
                assert(old_list[k - 1] == e);
            }
        }
        if old_list.contains(e) {
            let k = choose|k: int| 0 <= k < old_list.len() && old_list[k] == e;
            if k < p {
                assert(new_list[k] == e);
            } else {
                assert(new_list[k + 1] == e);
            }
        }
        if e == x {
            assert(new_list[p as int] == x);
        }
    }
    assert forall|i: int| 0 <= i < new_list.len() implies #[trigger] new_list[i] <= x by {
        if i < p {
            assert(new_list[i] == old_list[i]);
        } else if i > p {
            assert(new_list[i] == old_list[i - 1]);
        }
    }
}

/// Sorts the curves into `num_bands` bands: band `b` lists the curves `c` with
/// `crosses[c][b]`, in order of descending `keys[c]`; curves with equal keys
/// keep their order in the glyph.
pub fn sort_curves_into_bands(num_bands: usize, crosses: &Vec<Vec<bool>>, keys: &Vec<u32>) -> (bands:
    Vec<Vec<usize>>)
    requires
        crosses.len() == keys.len(),
        forall|c: int| 0 <= c < crosses.len() ==> (#[trigger] crosses@[c]).len() == num_bands,
    ensures
        bands.len() == num_bands,
        forall|b: int|
            0 <= b < num_bands ==> is_band_list(
                (#[trigger] bands@[b])@,
                crosses.deep_view(),
                keys@,
                b,
            ),
{
    let n = crosses.len();
    let ghost cv = crosses.deep_view();
    let mut bands: Vec<Vec<usize>> = Vec::new();
    for b in 0..num_bands
        invariant
            n == crosses.len(),
            n == keys.len(),
            cv == crosses.deep_view(),
            forall|c: int| 0 <= c < crosses.len() ==> (#[trigger] crosses@[c]).len() == num_bands,
            bands.len() == b,
            forall|bb: int| 0 <= bb < b ==> is_band_list((#[trigger] bands@[bb])@, cv, keys@, bb),
    {
        let mut list: Vec<usize> = Vec::new();
        for c in 0..n
            invariant
                n == crosses.len(),
                n == keys.len(),
                b < num_bands,
                cv == crosses.deep_view(),
                forall|c: int| 0 <= c < crosses.len() ==> (#[trigger] crosses@[c]).len() == num_bands,
                ordered_by_key(list@, keys@),
                forall|i: int| 0 <= i < list.len() ==> #[trigger] list@[i] < c && cv[list@[i] as int][b as int],
                forall|d: int| 0 <= d < c && #[trigger] cv[d][b as int] ==> list@.contains(d as usize),
                list.len() == crossing_count(cv, b as int, c as int),
        {
            assert(cv[c as int] == crosses@[c as int]@);
            if crosses[c][b] {
                let ghost before = list@;
                insert_by_key(&mut list, c, keys);
                assert forall|i: int| 0 <= i < list.len() implies #[trigger] list@[i] < c + 1 && cv[list@[i] as int][b as int] by {
                    assert(list@.contains(list@[i]));
                    if list@[i] != c {
                        assert(before.contains(list@[i]));
                        let k = choose|k: int| 0 <= k < before.len() && before[k] == list@[i];
                    }
                }
                assert forall|d: int| 0 <= d < c + 1 && #[trigger] cv[d][b as int] implies list@.contains(d as usize) by {
                    if d < c {
                        assert(before.contains(d as usize));
                    }
                }
            }
        }
        bands.push(list);
    }
    bands
}


// ---------------------------------------------------------------------------
// Band texture layout
// ---------------------------------------------------------------------------

/// Location in the curve texture of curve `c`: each curve takes two texels,
/// so it starts at column `2c` of row 0 of the glyph's curve block.
pub open spec fn curve_location(c: usize) -> (u32, u32) {
    (#[verifier::truncate] ((c * 2) as u32), 0u32)
}

/// Total length of the first `k` band lists.
pub open spec fn lengths_before(bands: Seq<Seq<usize>>, k: int) -> int
    decreases k,
{
    if k <= 0 {
        0
    } else {
        lengths_before(bands, k - 1) + bands[k - 1].len()
    }
}

/// Curve locations of the first `k` bands, one band after the other.
pub open spec fn band_locations(bands: Seq<Seq<usize>>, k: int) -> Seq<(u32, u32)>
    decreases k,
{
    if k <= 0 {
        seq![]
    } else {
        band_locations(bands, k - 1) + bands[k - 1].map_values(|c: usize| curve_location(c))
    }
}

/// Sum of the counts of the first `k` headers.
pub open spec fn counts_before(headers: Seq<(u32, u32)>, k: int) -> int
    decreases k,
{
    if k <= 0 {
        0
    } else {
        counts_before(headers, k - 1) + headers[k - 1].0
    }
}

/// Every curve index of every band can be doubled without overflow.
pub open spec fn doubling_fits(bands: Seq<Seq<usize>>) -> bool {
    forall|k: int, j: int|
        0 <= k < bands.len() && 0 <= j < bands[k].len() ==> #[trigger] bands[k][j] * 2 <= usize::MAX
}

/// Number of header texels for one axis: one per header given, and at least
/// one per band.
pub open spec fn header_columns(headers: int, num_bands: int) -> int {
    if headers > num_bands {
        headers
    } else {
        num_bands
    }
}

/// Texel `t` holds `(a, b, 0, 0)`.
pub open spec fn texel_is(t: [u32; 4], a: int, b: int) -> bool {
    &&& t@[0] == a
    &&& t@[1] == b
    &&& t@[2] == 0
    &&& t@[3] == 0
}

proof fn lemma_lengths_monotone(bands: Seq<Seq<usize>>, k: int, n: int)
    requires
        0 <= k <= n <= bands.len(),
    ensures
        0 <= lengths_before(bands, k) <= lengths_before(bands, n),
    decreases n,
{
    if k < n {
        lemma_lengths_monotone(bands, k, n - 1);
    } else if n > 0 {
        lemma_lengths_monotone(bands, k - 1, n - 1);
    }
}

proof fn lemma_band_locations(bands: Seq<Seq<usize>>, n: int)
    requires
        0 <= n <= bands.len(),
    ensures
        band_locations(bands, n).len() == lengths_before(bands, n),
        forall|k: int, j: int|
            0 <= k < n && 0 <= j < bands[k].len() ==> band_locations(bands, n)[lengths_before(bands, k) + j]
                == curve_location(#[trigger] bands[k][j]),
    decreases n,
{
    if n > 0 {
        lemma_band_locations(bands, n - 1);
        let prev = band_locations(bands, n - 1);
        let last = bands[n - 1].map_values(|c: usize| curve_location(c));
        assert(band_locations(bands, n) == prev + last);
        assert forall|k: int, j: int|
            0 <= k < n && 0 <= j < bands[k].len() implies band_locations(bands, n)[lengths_before(bands, k) + j]
                == curve_location(#[trigger] bands[k][j]) by {
            let p = lengths_before(bands, k) + j;
            lemma_lengths_monotone(bands, 0, k);
            if k < n - 1 {
                lemma_lengths_monotone(bands, k + 1, n - 1);
                assert(p < prev.len());
                assert((prev + last)[p] == prev[p]);
            } else {
                assert(p == prev.len() + j);
                assert((prev + last)[p] == last[j]);
            }
        }
    }
}

proof fn lemma_counts_match(headers: Seq<(u32, u32)>, bands: Seq<Seq<usize>>, k: int)
    requires
        0 <= k <= headers.len(),
        headers.len() == bands.len(),
        forall|i: int| 0 <= i < headers.len() ==> #[trigger] headers[i].0 == bands[i].len(),
    ensures
        counts_before(headers, k) == lengths_before(bands, k),
    decreases k,
{
    if k > 0 {
        lemma_counts_match(headers, bands, k - 1);
    }
}

/// Computes the header `(count, offset)` of each band and appends the bands'
/// curve locations to `locs`. Offsets count curve locations from `start`.
fn band_headers(bands: &Vec<Vec<usize>>, start: u32, locs: &mut Vec<(u32, u32)>) -> (res: (
    Vec<(u32, u32)>,
    u32,
))
    requires
        start + lengths_before(bands.deep_view(), bands.len() as int) <= u32::MAX,
        doubling_fits(bands.deep_view()),
    ensures
        res.0.len() == bands.len(),
        forall|k: int|
            0 <= k < bands.len() ==> #[trigger] res.0@[k] == (
                bands@[k].len() as u32,
                (start + lengths_before(bands.deep_view(), k)) as u32,
            ),
        final(locs)@ == old(locs)@ + band_locations(bands.deep_view(), bands.len() as int),
        res.1 == start + lengths_before(bands.deep_view(), bands.len() as int),
{
    let ghost bv = bands.deep_view();
    let ghost locs0 = locs@;
    let mut headers: Vec<(u32, u32)> = Vec::new();
    let mut offset: u32 = start;
    for k in 0..bands.len()
        invariant
            bv == bands.deep_view(),
            start + lengths_before(bv, bands.len() as int) <= u32::MAX,
            doubling_fits(bv),
            headers.len() == k,
            offset == start + lengths_before(bv, k as int),
            locs@ == locs0 + band_locations(bv, k as int),
            forall|i: int|
                0 <= i < k ==> #[trigger] headers@[i] == (
                    bands@[i].len() as u32,
                    (start + lengths_before(bv, i)) as u32,
                ),
    {
        let band = &bands[k];
        assert(bv[k as int] == band@);
        proof {
            lemma_lengths_monotone(bv, k as int + 1, bands.len() as int);
        }
        let count = band.len() as u32;
        headers.push((count, offset));
        let ghost locs_k = locs@;
        for j in 0..band.len()
            invariant
                bv == bands.deep_view(),
                bv[k as int] == band@,
                0 <= k < bands.len(),
                doubling_fits(bv),
                start + lengths_before(bv, k as int + 1) <= u32::MAX,
                offset == start + lengths_before(bv, k as int) + j,
                locs@ == locs_k + band@.take(j as int).map_values(|c: usize| curve_location(c)),
        {
            let ci = band[j];
            assert(bv[k as int][j as int] == ci);
            let loc = ((ci * 2) as u32, 0u32);
            locs.push(loc);
            offset = offset + 1;
            assert(band@.take(j as int + 1).map_values(|c: usize| curve_location(c)) =~= band@.take(
                j as int,
            ).map_values(|c: usize| curve_location(c)).push(curve_location(ci)));
        }
        assert(band@.take(band.len() as int) =~= band@);
        assert(band_locations(bv, k as int + 1) == band_locations(bv, k as int) + bv[k as int].map_values(
            |c: usize| curve_location(c),
        ));
        assert(locs@ =~= locs0 + band_locations(bv, k as int + 1));
    }
    (headers, offset)
}

/// `texels` is the band texture that `build_band_texture` builds from the
/// headers `hs` and `vs` and the curve locations `locs`: one texel per
/// horizontal header (empty headers up to `num_bands`), one per vertical
/// header likewise, then the locations. Header offsets are recomputed from
/// the counts; the offsets given in `hs` and `vs` are not read.
pub open spec fn is_header_block(
    texels: Seq<[u32; 4]>,
    num_bands: usize,
    hs: Seq<(u32, u32)>,
    vs: Seq<(u32, u32)>,
    locs: Seq<(u32, u32)>,
) -> bool {
    let base = (#[verifier::truncate] ((num_bands * 2) as u32)) as int;
    let nh = hs.len() as int;
    let nv = vs.len() as int;
    let hcols = header_columns(nh, num_bands as int);
    let vcols = header_columns(nv, num_bands as int);
    let h_total = counts_before(hs, nh);
    let v_total = counts_before(vs, nv);
    &&& texels.len() == hcols + vcols + locs.len()
    &&& forall|k: int|
        0 <= k < nh ==> texel_is(
            #[trigger] texels[k],
            hs[k].0 as int,
            base + counts_before(hs, k),
        )
    &&& forall|k: int| nh <= k < num_bands ==> texel_is(#[trigger] texels[k], 0, base + h_total)
    &&& forall|k: int|
        0 <= k < nv ==> texel_is(
            #[trigger] texels[hcols + k],
            vs[k].0 as int,
            base + h_total + counts_before(vs, k),
        )
    &&& forall|k: int|
        nv <= k < num_bands ==> texel_is(#[trigger] texels[hcols + k], 0, base + h_total + v_total)
    &&& forall|m: int|
        0 <= m < locs.len() ==> texel_is(
            #[trigger] texels[hcols + vcols + m],
            locs[m].0 as int,
            locs[m].1 as int,
        )
}

/// Builds the band texture of one glyph: `num_bands` horizontal band headers,
/// then `num_bands` vertical band headers, then the curve locations. A header
/// is `(count, offset)`, where `offset` is the texel index (from the start of
/// the glyph's block) of the band's first curve location. Bands without a
/// header of their own get an empty header pointing past the lists before them.
pub fn build_band_texture(
    num_bands: usize,
    h_headers: &[(u32, u32)],
    v_headers: &[(u32, u32)],
    curve_locs: &[(u32, u32)],
) -> (texels: Vec<[u32; 4]>)
    requires
        num_bands * 2 <= usize::MAX,
        (#[verifier::truncate] ((num_bands * 2) as u32)) + counts_before(h_headers@, h_headers@.len() as int)
            + counts_before(v_headers@, v_headers@.len() as int) <= u32::MAX,
    ensures
        is_header_block(texels@, num_bands, h_headers@, v_headers@, curve_locs@),
{
    let ghost hs = h_headers@;
    let ghost vs = v_headers@;
    let ghost h_total = counts_before(hs, hs.len() as int);
    let ghost v_total = counts_before(vs, vs.len() as int);
    proof {
        lemma_counts_monotone(hs, 0, hs.len() as int);
        lemma_counts_monotone(vs, 0, vs.len() as int);
    }
    let mut texels: Vec<[u32; 4]> = Vec::new();
    let mut curve_offset: u32 = 0;
    let header_texels = #[verifier::truncate] ((num_bands * 2) as u32);

    // Headers for H bands: offset = texel index from start of glyph block
    for k in 0..h_headers.len()
        invariant
            hs == h_headers@,
            header_texels + h_total + v_total <= u32::MAX,
            h_total == counts_before(hs, hs.len() as int),
            v_total >= 0,
            texels.len() == k,
            curve_offset == counts_before(hs, k as int),
            forall|i: int| 0 <= i < k ==> texel_is(#[trigger] texels@[i], hs[i].0 as int, header_texels + counts_before(hs, i)),
    {
        proof {
            lemma_counts_monotone(hs, k as int + 1, hs.len() as int);
        }
        let count = h_headers[k].0;
        let off = header_texels + curve_offset;
        curve_offset = curve_offset + count;
        let ghost before = texels@;
        texels.push([count, off, 0, 0]);
        assert(forall|i: int| 0 <= i < before.len() ==> texels@[i] == before[i]);
    }
    let mut k = h_headers.len();
    while k < num_bands
        invariant
            hs == h_headers@,
            header_texels + h_total + v_total <= u32::MAX,
            h_total == counts_before(hs, hs.len() as int),
            v_total >= 0,
            curve_offset == h_total,
            hs.len() <= k,
            hs.len() <= num_bands ==> k <= num_bands,
            k <= num_bands ==> texels.len() == k,
            hs.len() >= num_bands ==> k == hs.len(),
            texels.len() == (if k > hs.len() { k as int } else { hs.len() as int }),
            forall|i: int| 0 <= i < hs.len() ==> texel_is(#[trigger] texels@[i], hs[i].0 as int, header_texels + counts_before(hs, i)),
            forall|i: int| hs.len() <= i < k ==> texel_is(#[trigger] texels@[i], 0, header_texels + h_total),
        decreases num_bands - k,
    {
        let ghost before = texels@;
        texels.push([0, header_texels + curve_offset, 0, 0]);
        assert(forall|i: int| 0 <= i < before.len() ==> texels@[i] == before[i]);
        k = k + 1;
    }
    let hcols = texels.len();

    // Headers for V bands (curve_offset continues from after H curve list)
    for k in 0..v_headers.len()
        invariant
            hs == h_headers@,
            vs == v_headers@,
            header_texels + h_total + v_total <= u32::MAX,
            h_total == counts_before(hs, hs.len() as int),
            v_total == counts_before(vs, vs.len() as int),
            texels.len() == hcols + k,
            hs.len() <= hcols,
            num_bands <= hcols,
            curve_offset == h_total + counts_before(vs, k as int),
            forall|i: int| 0 <= i < hs.len() ==> texel_is(#[trigger] texels@[i], hs[i].0 as int, header_texels + counts_before(hs, i)),
            forall|i: int| hs.len() <= i < hcols ==> texel_is(#[trigger] texels@[i], 0, header_texels + h_total),
            forall|i: int| 0 <= i < k ==> texel_is(#[trigger] texels@[hcols + i], vs[i].0 as int, header_texels + h_total + counts_before(vs, i)),
    {
        proof {
            lemma_counts_monotone(vs, k as int + 1, vs.len() as int);
        }
        let count = v_headers[k].0;
        let off = header_texels + curve_offset;
        curve_offset = curve_offset + count;
        let ghost before = texels@;
        texels.push([count, off, 0, 0]);
        assert(forall|i: int| 0 <= i < before.len() ==> texels@[i] == before[i]);
    }
    let mut k = v_headers.len();
    while k < num_bands
        invariant
            hs == h_headers@,
            vs == v_headers@,
            header_texels + h_total + v_total <= u32::MAX,
            h_total == counts_before(hs, hs.len() as int),
            v_total == counts_before(vs, vs.len() as int),
            curve_offset == h_total + v_total,
            hs.len() <= hcols,
            num_bands <= hcols,
            vs.len() <= k,
            vs.len() <= num_bands ==> k <= num_bands,
            vs.len() >= num_bands ==> k == vs.len(),
            texels.len() == hcols + (if k > vs.len() { k as int } else { vs.len() as int }),
            forall|i: int| 0 <= i < hs.len() ==> texel_is(#[trigger] texels@[i], hs[i].0 as int, header_texels + counts_before(hs, i)),
            forall|i: int| hs.len() <= i < hcols ==> texel_is(#[trigger] texels@[i], 0, header_texels + h_total),
            forall|i: int| 0 <= i < vs.len() ==> texel_is(#[trigger] texels@[hcols + i], vs[i].0 as int, header_texels + h_total + counts_before(vs, i)),
            forall|i: int| vs.len() <= i < k ==> texel_is(#[trigger] texels@[hcols + i], 0, header_texels + h_total + v_total),
        decreases num_bands - k,
    {
        let ghost before = texels@;
        texels.push([0, header_texels + curve_offset, 0, 0]);
        assert(forall|i: int| 0 <= i < before.len() ==> texels@[i] == before[i]);
        k = k + 1;
    }
    let vend = texels.len();
    assert forall|i: int| hcols + vs.len() <= i < vend implies texel_is(
        #[trigger] texels@[i],
        0,
        header_texels + h_total + v_total,
    ) by {
        let j = i - hcols;
        assert(texels@[hcols + j] == texels@[i]);
    }

    // Curve locations
    for m in 0..curve_locs.len()
        invariant
            hs == h_headers@,
            vs == v_headers@,
            texels.len() == vend + m,
            hs.len() <= hcols,
            num_bands <= hcols,
            hcols + vs.len() <= vend,
            hcols + num_bands <= vend,
            forall|i: int| 0 <= i < hs.len() ==> texel_is(#[trigger] texels@[i], hs[i].0 as int, header_texels + counts_before(hs, i)),
            forall|i: int| hs.len() <= i < hcols ==> texel_is(#[trigger] texels@[i], 0, header_texels + h_total),
            forall|i: int| 0 <= i < vs.len() ==> texel_is(#[trigger] texels@[hcols + i], vs[i].0 as int, header_texels + h_total + counts_before(vs, i)),
            forall|i: int| hcols + vs.len() <= i < vend ==> texel_is(#[trigger] texels@[i], 0, header_texels + h_total + v_total),
            forall|i: int| 0 <= i < m ==> texel_is(#[trigger] texels@[vend + i], curve_locs@[i].0 as int, curve_locs@[i].1 as int),
    {
        let (x, y) = curve_locs[m];
        let ghost before = texels@;
        texels.push([x, y, 0, 0]);
        assert(forall|i: int| 0 <= i < before.len() ==> texels@[i] == before[i]);
    }
    assert forall|k: int| vs.len() <= k < num_bands implies texel_is(#[trigger] texels@[hcols + k], 0, header_texels + h_total + v_total) by {
        assert(hcols + vs.len() <= hcols + k < vend);
    }
    texels
}

proof fn lemma_counts_agree(a: Seq<(u32, u32)>, b: Seq<(u32, u32)>, k: int)
    requires
        0 <= k <= a.len(),
        a.len() == b.len(),
        forall|i: int| 0 <= i < a.len() ==> #[trigger] a[i].0 == b[i].0,
    ensures
        counts_before(a, k) == counts_before(b, k),
    decreases k,
{
    if k > 0 {
        lemma_counts_agree(a, b, k - 1);
    }
}

/// The band texture depends on the header counts alone: headers with the
/// same counts and any offsets give the same texture.
pub proof fn lemma_band_texture_ignores_given_offsets(
    t1: Seq<[u32; 4]>,
    t2: Seq<[u32; 4]>,
    num_bands: usize,
    h1: Seq<(u32, u32)>,
    v1: Seq<(u32, u32)>,
    h2: Seq<(u32, u32)>,
    v2: Seq<(u32, u32)>,
    locs: Seq<(u32, u32)>,
)
    requires
        h1.len() == h2.len(),
        v1.len() == v2.len(),
        forall|i: int| 0 <= i < h1.len() ==> #[trigger] h1[i].0 == h2[i].0,
        forall|i: int| 0 <= i < v1.len() ==> #[trigger] v1[i].0 == v2[i].0,
        is_header_block(t1, num_bands, h1, v1, locs),
        is_header_block(t2, num_bands, h2, v2, locs),
    ensures
        t1 == t2,
{
    broadcast use vstd::array::axiom_array_ext_equal;
    let nh = h1.len() as int;
    let nv = v1.len() as int;
    let hcols = header_columns(nh, num_bands as int);
    let vcols = header_columns(nv, num_bands as int);
    lemma_counts_agree(h1, h2, nh);
    lemma_counts_agree(v1, v2, nv);
    assert forall|i: int| 0 <= i < t1.len() implies t1[i] =~= t2[i] by {
        if i < nh {
            lemma_counts_agree(h1, h2, i);
        } else if i < hcols {
        } else if i < hcols + nv {
            let k = i - hcols;
            lemma_counts_agree(v1, v2, k);
            assert(t1[hcols + k] == t1[i] && t2[hcols + k] == t2[i]);
        } else if i < hcols + vcols {
            let k = i - hcols;
            assert(t1[hcols + k] == t1[i] && t2[hcols + k] == t2[i]);
        } else {
            let m = i - hcols - vcols;
            assert(t1[hcols + vcols + m] == t1[i] && t2[hcols + vcols + m] == t2[i]);
        }
        assert(t1[i]@[0] == t2[i]@[0] && t1[i]@[1] == t2[i]@[1]);
        assert(t1[i]@[2] == t2[i]@[2] && t1[i]@[3] == t2[i]@[3]);
    }
    assert(t1 =~= t2);
}

proof fn lemma_counts_monotone(headers: Seq<(u32, u32)>, k: int, n: int)
    requires
        0 <= k <= n <= headers.len(),
    ensures
        0 <= counts_before(headers, k) <= counts_before(headers, n),
    decreases n,
{
    if k < n {
        lemma_counts_monotone(headers, k, n - 1);
    } else if n > 0 {
        lemma_counts_monotone(headers, k - 1, n - 1);
    }
}

/// `texels` is the band texture of a glyph with `num_bands` bands per axis,
/// horizontal band lists `h` and vertical band lists `v`: the headers of the
/// horizontal bands, then those of the vertical bands, then the curve
/// locations of every horizontal band followed by those of every vertical band.
pub open spec fn is_band_texture(texels: Seq<[u32; 4]>, num_bands: int, h: Seq<Seq<usize>>, v: Seq<Seq<usize>>) -> bool {
    let lh = lengths_before(h, num_bands);
    let lv = lengths_before(v, num_bands);
    &&& texels.len() == 2 * num_bands + lh + lv
    &&& forall|k: int|
        0 <= k < num_bands ==> texel_is(
            #[trigger] texels[k],
            h[k].len() as int,
            2 * num_bands + lengths_before(h, k),
        )
    &&& forall|k: int|
        0 <= k < num_bands ==> texel_is(
            #[trigger] texels[num_bands + k],
            v[k].len() as int,
            2 * num_bands + lh + lengths_before(v, k),
        )
    &&& forall|k: int, j: int|
        0 <= k < num_bands && 0 <= j < h[k].len() ==> texel_is(
            texels[2 * num_bands + lengths_before(h, k) + j],
            curve_location(#[trigger] h[k][j]).0 as int,
            0,
        )
    &&& forall|k: int, j: int|
        0 <= k < num_bands && 0 <= j < v[k].len() ==> texel_is(
            texels[2 * num_bands + lh + lengths_before(v, k) + j],
            curve_location(#[trigger] v[k][j]).0 as int,
            0,
        )
}

/// The lookup the pixel shader performs is sound: for every band, the header
/// texel at the band's index (`k` for horizontal band `k`, `num_bands + k` for
/// vertical band `k`) holds the band's curve count, and its offset leads to
/// that band's curve locations, in the band's order.
pub proof fn lemma_headers_locate_band_curves(
    texels: Seq<[u32; 4]>,
    num_bands: int,
    h: Seq<Seq<usize>>,
    v: Seq<Seq<usize>>,
)
    requires
        0 <= num_bands,
        h.len() == num_bands,
        v.len() == num_bands,
        is_band_texture(texels, num_bands, h, v),
    ensures
        forall|k: int, j: int|
            0 <= k < num_bands && 0 <= j < h[k].len() ==> {
                &&& texels[k][0] == h[k].len()
                &&& texel_is(
                    texels[texels[k][1] as int + j],
                    curve_location(#[trigger] h[k][j]).0 as int,
                    0,
                )
            },
        forall|k: int, j: int|
            0 <= k < num_bands && 0 <= j < v[k].len() ==> {
                &&& texels[num_bands + k][0] == v[k].len()
                &&& texel_is(
                    texels[texels[num_bands + k][1] as int + j],
                    curve_location(#[trigger] v[k][j]).0 as int,
                    0,
                )
            },
{
    assert forall|k: int, j: int| 0 <= k < num_bands && 0 <= j < h[k].len() implies {
        &&& texels[k][0] == h[k].len()
        &&& texel_is(texels[texels[k][1] as int + j], curve_location(#[trigger] h[k][j]).0 as int, 0)
    } by {
        assert(texel_is(texels[k], h[k].len() as int, 2 * num_bands + lengths_before(h, k)));
    }
    assert forall|k: int, j: int| 0 <= k < num_bands && 0 <= j < v[k].len() implies {
        &&& texels[num_bands + k][0] == v[k].len()
        &&& texel_is(
            texels[texels[num_bands + k][1] as int + j],
            curve_location(#[trigger] v[k][j]).0 as int,
            0,
        )
    } by {
        assert(texel_is(
            texels[num_bands + k],
            v[k].len() as int,
            2 * num_bands + lengths_before(h, num_bands) + lengths_before(v, k),
        ));
    }
}

/// Curve `c` is located at column `2c` of row 0 of the curve texture (each
/// curve takes two texels): the texel that a band header leads to for the
/// `j`-th curve `c` of the band is `[2c, 0, 0, 0]`, whenever `2c` fits in a
/// `u32`.
pub proof fn lemma_band_curves_located_at_even_columns(
    texels: Seq<[u32; 4]>,
    num_bands: int,
    h: Seq<Seq<usize>>,
    v: Seq<Seq<usize>>,
)
    requires
        0 <= num_bands,
        h.len() == num_bands,
        v.len() == num_bands,
        is_band_texture(texels, num_bands, h, v),
    ensures
        forall|k: int, j: int|
            0 <= k < num_bands && 0 <= j < h[k].len() && 2 * h[k][j] <= u32::MAX ==> {
                let t = texels[texels[k][1] as int + j];
                &&& t[0] == 2 * (#[trigger] h[k][j])
                &&& t[1] == 0
                &&& t[2] == 0
                &&& t[3] == 0
            },
        forall|k: int, j: int|
            0 <= k < num_bands && 0 <= j < v[k].len() && 2 * v[k][j] <= u32::MAX ==> {
                let t = texels[texels[num_bands + k][1] as int + j];
                &&& t[0] == 2 * (#[trigger] v[k][j])
                &&& t[1] == 0
                &&& t[2] == 0
                &&& t[3] == 0
            },
{
    lemma_headers_locate_band_curves(texels, num_bands, h, v);
    assert forall|k: int, j: int|
        0 <= k < num_bands && 0 <= j < h[k].len() && 2 * h[k][j] <= u32::MAX implies {
            let t = texels[texels[k][1] as int + j];
            &&& t[0] == 2 * (#[trigger] h[k][j])
            &&& t[1] == 0
            &&& t[2] == 0
            &&& t[3] == 0
        } by {
        let c = h[k][j];
        assert(curve_location(c).0 == 2 * c);
    }
    assert forall|k: int, j: int|
        0 <= k < num_bands && 0 <= j < v[k].len() && 2 * v[k][j] <= u32::MAX implies {
            let t = texels[texels[num_bands + k][1] as int + j];
            &&& t[0] == 2 * (#[trigger] v[k][j])
            &&& t[1] == 0
            &&& t[2] == 0
            &&& t[3] == 0
        } by {
        let c = v[k][j];
        assert(curve_location(c).0 == 2 * c);
    }
}

proof fn lemma_band_len_bounded(bands: Seq<Seq<usize>>, k: int)
    requires
        0 <= k < bands.len(),
    ensures
        0 <= lengths_before(bands, k),
        lengths_before(bands, k) + bands[k].len() <= lengths_before(bands, bands.len() as int),
{
    lemma_lengths_monotone(bands, 0, k);
    lemma_lengths_monotone(bands, k + 1, bands.len() as int);
}

/// Lays out the band texture of a glyph from its horizontal and vertical band
/// lists: headers with running offsets, then every band's curve locations.
pub fn layout_bands(num_bands: usize, h_bands: &Vec<Vec<usize>>, v_bands: &Vec<Vec<usize>>) -> (texels:
    Vec<[u32; 4]>)
    requires
        h_bands.len() == num_bands,
        v_bands.len() == num_bands,
        2 * num_bands + lengths_before(h_bands.deep_view(), num_bands as int) + lengths_before(
            v_bands.deep_view(),
            num_bands as int,
        ) <= u32::MAX,
        doubling_fits(h_bands.deep_view()),
        doubling_fits(v_bands.deep_view()),
    ensures
        is_band_texture(texels@, num_bands as int, h_bands.deep_view(), v_bands.deep_view()),
        forall|k: int, j: int|
            0 <= k < num_bands && 0 <= j < h_bands@[k].len() && 2 * h_bands@[k]@[j] <= u32::MAX ==> {
                let t = texels@[texels@[k][1] as int + j];
                &&& t[0] == 2 * (#[trigger] h_bands@[k]@[j])
                &&& t[1] == 0
            },
        forall|k: int, j: int|
            0 <= k < num_bands && 0 <= j < v_bands@[k].len() && 2 * v_bands@[k]@[j] <= u32::MAX ==> {
                let t = texels@[texels@[num_bands + k][1] as int + j];
                &&& t[0] == 2 * (#[trigger] v_bands@[k]@[j])
                &&& t[1] == 0
            },
{
    let ghost h = h_bands.deep_view();
    let ghost v = v_bands.deep_view();
    let ghost nb = num_bands as int;
    proof {
        lemma_lengths_monotone(h, 0, nb);
        lemma_lengths_monotone(v, 0, nb);
    }
    let mut locs: Vec<(u32, u32)> = Vec::new();
    let (h_headers, v_start) = band_headers(h_bands, 0, &mut locs);
    let (v_headers, _v_end) = band_headers(v_bands, v_start, &mut locs);
    let ghost lh = lengths_before(h, nb);
    let ghost lv = lengths_before(v, nb);
    assert(locs@ =~= band_locations(h, nb) + band_locations(v, nb));
    proof {
        assert forall|i: int| 0 <= i < h_headers@.len() implies #[trigger] h_headers@[i].0 == h[i].len() by {
            lemma_band_len_bounded(h, i);
        }
        assert forall|i: int| 0 <= i < v_headers@.len() implies #[trigger] v_headers@[i].0 == v[i].len() by {
            lemma_band_len_bounded(v, i);
        }
        lemma_counts_match(h_headers@, h, nb);
        lemma_counts_match(v_headers@, v, nb);
        lemma_band_locations(h, nb);
        lemma_band_locations(v, nb);
    }
    let texels = build_band_texture(num_bands, h_headers.as_slice(), v_headers.as_slice(), locs.as_slice());
    proof {
        assert(header_columns(nb, nb) == nb);
        assert forall|k: int| 0 <= k < nb implies texel_is(
            #[trigger] texels@[k],
            h[k].len() as int,
            2 * nb + lengths_before(h, k),
        ) by {
            lemma_counts_match(h_headers@, h, k);
        }
        assert forall|k: int| 0 <= k < nb implies texel_is(
            #[trigger] texels@[nb + k],
            v[k].len() as int,
            2 * nb + lh + lengths_before(v, k),
        ) by {
            lemma_counts_match(v_headers@, v, k);
        }
        assert forall|k: int, j: int| 0 <= k < nb && 0 <= j < h[k].len() implies texel_is(
            texels@[2 * nb + lengths_before(h, k) + j],
            curve_location(#[trigger] h[k][j]).0 as int,
            0,
        ) by {
            lemma_band_len_bounded(h, k);
            let m = lengths_before(h, k) + j;
            assert(locs@[m] == band_locations(h, nb)[m]);
            let t = texels@[header_columns(nb, nb) + header_columns(nb, nb) + m];
            assert(t == texels@[2 * nb + lengths_before(h, k) + j]);
        }
        assert forall|k: int, j: int| 0 <= k < nb && 0 <= j < v[k].len() implies texel_is(
            texels@[2 * nb + lh + lengths_before(v, k) + j],
            curve_location(#[trigger] v[k][j]).0 as int,
            0,
        ) by {
            lemma_band_len_bounded(v, k);
            let m = lengths_before(v, k) + j;
            assert(locs@[lh + m] == band_locations(v, nb)[m]);
            let t = texels@[header_columns(nb, nb) + header_columns(nb, nb) + (lh + m)];
            assert(t == texels@[2 * nb + lh + lengths_before(v, k) + j]);
        }
        lemma_band_curves_located_at_even_columns(texels@, nb, h, v);
        assert forall|k: int, j: int|
            0 <= k < num_bands && 0 <= j < h_bands@[k].len() && 2 * h_bands@[k]@[j] <= u32::MAX implies {
                let t = texels@[texels@[k][1] as int + j];
                &&& t[0] == 2 * (#[trigger] h_bands@[k]@[j])
                &&& t[1] == 0
            } by {
            assert(h[k][j] == h_bands@[k]@[j]);
        }
        assert forall|k: int, j: int|
            0 <= k < num_bands && 0 <= j < v_bands@[k].len() && 2 * v_bands@[k]@[j] <= u32::MAX implies {
                let t = texels@[texels@[num_bands + k][1] as int + j];
                &&& t[0] == 2 * (#[trigger] v_bands@[k]@[j])
                &&& t[1] == 0
            } by {
            assert(v[k][j] == v_bands@[k]@[j]);
        }
    }
    texels
}

/// Number of (curve, band) crossings over the first `num_bands` bands.
pub open spec fn total_crossings(crosses: Seq<Seq<bool>>, num_bands: int) -> int
    decreases num_bands,
{
    if num_bands <= 0 {
        0
    } else {
        total_crossings(crosses, num_bands - 1) + crossing_count(crosses, num_bands - 1, crosses.len() as int)
    }
}

/// Integer layout of a glyph's band data. Curve texels themselves are floats
/// and are produced around this layout.
pub struct BandLayout {
    /// Curves crossing each horizontal band, by descending maximum x.
    pub h_bands: Vec<Vec<usize>>,
    /// Curves crossing each vertical band, by descending maximum y.
    pub v_bands: Vec<Vec<usize>>,
    /// Band texture: `(count, offset)` headers, then curve locations.
    pub band_texels: Vec<[u32; 4]>,
    /// Curve texture width (`BAND_TEXTURE_WIDTH`).
    pub curve_width: u32,
    /// Curve texture height in rows; each curve uses two texels.
    pub curve_height: u32,
    /// Band texture width (`BAND_TEXTURE_WIDTH`).
    pub band_width: u32,
    /// Band texture height.
    pub band_height: u32,
    /// Start location of this glyph's data in the curve texture (x, y).
    pub curve_start: (u32, u32),
    /// Start location of this glyph's data in the band texture (x, y).
    pub band_start: (u32, u32),
    /// Largest valid band index on each axis (x, y).
    pub band_max: (u32, u32),
}

proof fn lemma_lengths_are_crossings(bands: Seq<Seq<usize>>, crosses: Seq<Seq<bool>>, keys: Seq<u32>, k: int)
    requires
        0 <= k <= bands.len(),
        forall|b: int| 0 <= b < bands.len() ==> is_band_list(#[trigger] bands[b], crosses, keys, b),
    ensures
        lengths_before(bands, k) == total_crossings(crosses, k),
    decreases k,
{
    if k > 0 {
        lemma_lengths_are_crossings(bands, crosses, keys, k - 1);
        assert(is_band_list(bands[k - 1], crosses, keys, k - 1));
    }
}

proof fn lemma_members_double(bands: Seq<Seq<usize>>, crosses: Seq<Seq<bool>>, keys: Seq<u32>)
    requires
        crosses.len() * 2 <= usize::MAX,
        forall|b: int| 0 <= b < bands.len() ==> is_band_list(#[trigger] bands[b], crosses, keys, b),
    ensures
        doubling_fits(bands),
{
    assert forall|k: int, j: int| 0 <= k < bands.len() && 0 <= j < bands[k].len() implies #[trigger] bands[k][j]
        * 2 <= usize::MAX by {
        assert(is_band_list(bands[k], crosses, keys, k));
        assert(bands[k][j] < crosses.len());
    }
}

/// The integer part of band processing for one glyph. Given, for each curve,
/// which horizontal and vertical bands it crosses and the order keys of its
/// maximum x and maximum y, sorts the curves into bands and lays out the band
/// texture; sizes the curve texture for two texels per curve.
pub fn layout_glyph_bands(
    h_crosses: &Vec<Vec<bool>>,
    v_crosses: &Vec<Vec<bool>>,
    x_keys: &Vec<u32>,
    y_keys: &Vec<u32>,
) -> (layout: BandLayout)
    requires
        h_crosses.len() == x_keys.len(),
        v_crosses.len() == x_keys.len(),
        y_keys.len() == x_keys.len(),
        forall|c: int|
            0 <= c < h_crosses.len() ==> (#[trigger] h_crosses@[c]).len() == spec_band_count(
                x_keys.len() as int,
            ),
        forall|c: int|
            0 <= c < v_crosses.len() ==> (#[trigger] v_crosses@[c]).len() == spec_band_count(
                x_keys.len() as int,
            ),
        x_keys.len() * 2 <= usize::MAX,
        (#[verifier::truncate] ((x_keys.len() * 2) as u32)) + (BAND_TEXTURE_WIDTH - 1) <= u32::MAX,
        2 * spec_band_count(x_keys.len() as int) + total_crossings(
            h_crosses.deep_view(),
            spec_band_count(x_keys.len() as int),
        ) + total_crossings(v_crosses.deep_view(), spec_band_count(x_keys.len() as int)) <= u32::MAX,
    ensures
        ({
            let nb = spec_band_count(x_keys.len() as int);
            &&& layout.h_bands.len() == nb
            &&& layout.v_bands.len() == nb
            &&& forall|b: int|
                0 <= b < nb ==> is_band_list(
                    (#[trigger] layout.h_bands@[b])@,
                    h_crosses.deep_view(),
                    x_keys@,
                    b,
                )
            &&& forall|b: int|
                0 <= b < nb ==> is_band_list(
                    (#[trigger] layout.v_bands@[b])@,
                    v_crosses.deep_view(),
                    y_keys@,
                    b,
                )
            &&& is_band_texture(
                layout.band_texels@,
                nb,
                layout.h_bands.deep_view(),
                layout.v_bands.deep_view(),
            )
            &&& layout.curve_width == BAND_TEXTURE_WIDTH
            &&& layout.curve_height == spec_curve_rows((x_keys.len() * 2) as usize)
            &&& layout.band_width == BAND_TEXTURE_WIDTH
            &&& layout.band_height == 1
            &&& layout.curve_start == (0u32, 0u32)
            &&& layout.band_start == (0u32, 0u32)
            &&& layout.band_max == ((nb - 1) as u32, (nb - 1) as u32)
        }),
{
    let n = x_keys.len();
    let num_bands = band_count(n);
    let h_bands = sort_curves_into_bands(num_bands, h_crosses, x_keys);
    let v_bands = sort_curves_into_bands(num_bands, v_crosses, y_keys);
    proof {
        let h = h_bands.deep_view();
        let v = v_bands.deep_view();
        assert forall|b: int| 0 <= b < h.len() implies is_band_list(
            #[trigger] h[b],
            h_crosses.deep_view(),
            x_keys@,
            b,
        ) by {
            assert(h[b] == h_bands@[b]@);
        }
        assert forall|b: int| 0 <= b < v.len() implies is_band_list(
            #[trigger] v[b],
            v_crosses.deep_view(),
            y_keys@,
            b,
        ) by {
            assert(v[b] == v_bands@[b]@);
        }
        lemma_lengths_are_crossings(h, h_crosses.deep_view(), x_keys@, num_bands as int);
        lemma_lengths_are_crossings(v, v_crosses.deep_view(), y_keys@, num_bands as int);
        lemma_members_double(h, h_crosses.deep_view(), x_keys@);
        lemma_members_double(v, v_crosses.deep_view(), y_keys@);
    }
    let band_texels = layout_bands(num_bands, &h_bands, &v_bands);
    let curve_height = curve_texture_height(n * 2);
    let band_max_x = (num_bands as u32).saturating_sub(1);
    let band_max_y = (num_bands as u32).saturating_sub(1);
    BandLayout {
        h_bands,
        v_bands,
        band_texels,
        curve_width: BAND_TEXTURE_WIDTH,
        curve_height,
        band_width: BAND_TEXTURE_WIDTH,
        band_height: 1,
        curve_start: (0, 0),
        band_start: (0, 0),
        band_max: (band_max_x, band_max_y),
    }
}

} // verus!
