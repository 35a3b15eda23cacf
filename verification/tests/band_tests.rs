use slug::{
    band_count, build_band_texture, curve_texture_height, layout_bands, layout_glyph_bands, pad_rows,
    sort_curves_into_bands, BAND_TEXTURE_WIDTH,
};

#[test]
fn band_count_is_a_quarter_clamped() {
    assert_eq!(band_count(0), 1);
    assert_eq!(band_count(3), 1);
    assert_eq!(band_count(4), 1);
    assert_eq!(band_count(8), 2);
    assert_eq!(band_count(23), 5);
    assert_eq!(band_count(64), 16);
    assert_eq!(band_count(67), 16);
    assert_eq!(band_count(1000), 16);
}

#[test]
fn curve_texture_height_rounds_up_with_one_row_minimum() {
    assert_eq!(curve_texture_height(0), 1);
    assert_eq!(curve_texture_height(1), 1);
    assert_eq!(curve_texture_height(4096), 1);
    assert_eq!(curve_texture_height(4097), 2);
    assert_eq!(curve_texture_height(8192), 2);
    assert_eq!(curve_texture_height(8193), 3);
}

#[test]
fn pad_rows_fills_after_the_data() {
    assert_eq!(pad_rows(&vec![1u32, 2, 3], 2, 2, 0), vec![1, 2, 3, 0]);
    assert_eq!(pad_rows(&vec![7u32], 3, 1, 9), vec![7, 9, 9]);
    assert_eq!(pad_rows(&Vec::<u32>::new(), 2, 1, 5), vec![5, 5]);
}

#[test]
fn pad_rows_full_texture_width() {
    let data = vec![[1u32, 2, 3, 4]; 5];
    let out = pad_rows(&data, BAND_TEXTURE_WIDTH, 1, [0, 0, 0, 0]);
    assert_eq!(out.len(), 4096);
    assert_eq!(out[4], [1, 2, 3, 4]);
    assert_eq!(out[5], [0, 0, 0, 0]);
    assert_eq!(out[4095], [0, 0, 0, 0]);
}

#[test]
fn bands_list_crossing_curves_by_descending_key_stably() {
    let crosses = vec![vec![true, false], vec![true, true], vec![false, true], vec![true, true]];
    let keys = vec![5u32, 9, 9, 5];
    let bands = sort_curves_into_bands(2, &crosses, &keys);
    assert_eq!(bands, vec![vec![1, 0, 3], vec![1, 2, 3]]);
}

#[test]
fn bands_with_no_crossing_curves_are_empty() {
    let crosses = vec![vec![false, true, false]];
    let bands = sort_curves_into_bands(3, &crosses, &vec![1]);
    assert_eq!(bands, vec![vec![], vec![0], vec![]]);
    let none = sort_curves_into_bands(2, &Vec::new(), &Vec::new());
    assert_eq!(none, vec![Vec::<usize>::new(), Vec::new()]);
}

#[test]
fn build_band_texture_headers_then_locations() {
    let h = [(2, 0), (1, 2)];
    let v = [(0, 3), (1, 3)];
    let locs = [(0, 0), (2, 0), (4, 0), (6, 0)];
    let texels = build_band_texture(2, &h, &v, &locs);
    assert_eq!(
        texels,
        vec![
            [2, 4, 0, 0],
            [1, 6, 0, 0],
            [0, 7, 0, 0],
            [1, 7, 0, 0],
            [0, 0, 0, 0],
            [2, 0, 0, 0],
            [4, 0, 0, 0],
            [6, 0, 0, 0],
        ]
    );
}

#[test]
fn build_band_texture_pads_missing_headers() {
    let texels = build_band_texture(3, &[(1, 0)], &[], &[(10, 0)]);
    assert_eq!(
        texels,
        vec![
            [1, 6, 0, 0],
            [0, 7, 0, 0],
            [0, 7, 0, 0],
            [0, 7, 0, 0],
            [0, 7, 0, 0],
            [0, 7, 0, 0],
            [10, 0, 0, 0],
        ]
    );
}

#[test]
fn layout_bands_exact_texture() {
    let h = vec![vec![1, 0, 3], vec![1, 2, 3]];
    let v = vec![vec![0], vec![]];
    let texels = layout_bands(2, &h, &v);
    assert_eq!(
        texels,
        vec![
            [3, 4, 0, 0],
            [3, 7, 0, 0],
            [1, 10, 0, 0],
            [0, 11, 0, 0],
            [2, 0, 0, 0],
            [0, 0, 0, 0],
            [6, 0, 0, 0],
            [2, 0, 0, 0],
            [4, 0, 0, 0],
            [6, 0, 0, 0],
            [0, 0, 0, 0],
        ]
    );
}

#[test]
fn headers_lead_to_their_band_curves() {
    let h = vec![vec![4, 0], vec![2, 3, 1], vec![]];
    let v = vec![vec![1], vec![0, 4], vec![3, 2]];
    let texels = layout_bands(3, &h, &v);
    for (k, band) in h.iter().enumerate() {
        let header = texels[k];
        assert_eq!(header[0] as usize, band.len());
        for (j, &c) in band.iter().enumerate() {
            assert_eq!(texels[header[1] as usize + j], [(c * 2) as u32, 0, 0, 0]);
        }
    }
    for (k, band) in v.iter().enumerate() {
        let header = texels[3 + k];
        assert_eq!(header[0] as usize, band.len());
        for (j, &c) in band.iter().enumerate() {
            assert_eq!(texels[header[1] as usize + j], [(c * 2) as u32, 0, 0, 0]);
        }
    }
}

#[test]
fn glyph_band_layout_end_to_end() {
    let h_crosses = vec![vec![true]; 4];
    let v_crosses = vec![vec![true], vec![false], vec![true], vec![false]];
    let layout = layout_glyph_bands(&h_crosses, &v_crosses, &vec![3, 7, 7, 1], &vec![0, 0, 0, 0]);
    assert_eq!(layout.h_bands, vec![vec![1, 2, 0, 3]]);
    assert_eq!(layout.v_bands, vec![vec![0, 2]]);
    assert_eq!(
        layout.band_texels,
        vec![
            [4, 2, 0, 0],
            [2, 6, 0, 0],
            [2, 0, 0, 0],
            [4, 0, 0, 0],
            [0, 0, 0, 0],
            [6, 0, 0, 0],
            [0, 0, 0, 0],
            [4, 0, 0, 0],
        ]
    );
    assert_eq!(layout.curve_width, 4096);
    assert_eq!(layout.curve_height, 1);
    assert_eq!(layout.band_width, 4096);
    assert_eq!(layout.band_height, 1);
    assert_eq!(layout.curve_start, (0, 0));
    assert_eq!(layout.band_start, (0, 0));
    assert_eq!(layout.band_max, (0, 0));
}

#[test]
fn glyph_band_layout_with_several_bands() {
    // Eight curves: two bands per axis, band_max is (1, 1).
    let n = 8;
    let h_crosses: Vec<Vec<bool>> = (0..n).map(|c| vec![c < 5, c >= 3]).collect();
    let v_crosses: Vec<Vec<bool>> = (0..n).map(|c| vec![c % 2 == 0, true]).collect();
    let x_keys: Vec<u32> = (0..n as u32).map(|c| c % 3).collect();
    let y_keys: Vec<u32> = (0..n as u32).rev().collect();
    let layout = layout_glyph_bands(&h_crosses, &v_crosses, &x_keys, &y_keys);
    assert_eq!(layout.band_max, (1, 1));
    assert_eq!(layout.h_bands, vec![vec![2, 1, 4, 0, 3], vec![5, 4, 7, 3, 6]]);
    assert_eq!(layout.v_bands, vec![vec![0, 2, 4, 6], vec![0, 1, 2, 3, 4, 5, 6, 7]]);
    assert_eq!(layout.band_texels.len(), 4 + 5 + 5 + 4 + 8);
    assert_eq!(layout.band_texels[0], [5, 4, 0, 0]);
    assert_eq!(layout.band_texels[1], [5, 9, 0, 0]);
    assert_eq!(layout.band_texels[2], [4, 14, 0, 0]);
    assert_eq!(layout.band_texels[3], [8, 18, 0, 0]);
}

#[test]
fn build_band_texture_ignores_given_offsets() {
    let locs = [(0, 0), (2, 0), (4, 0), (6, 0)];
    let a = build_band_texture(2, &[(2, 0), (1, 2)], &[(0, 3), (1, 3)], &locs);
    let b = build_band_texture(2, &[(2, 99), (1, 7)], &[(0, 0), (1, 12345)], &locs);
    assert_eq!(a, b);
}

#[test]
fn curve_texture_height_at_the_u32_limit() {
    assert_eq!(curve_texture_height((u32::MAX - 4095) as usize), 1048575);
}
