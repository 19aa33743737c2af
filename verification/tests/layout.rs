use pluggable_device::layout::{
    axis_offset, dims_named, find_letter, get_format_indices, has_element_count, is_valid_format,
    offset_from_tensor_coordinates, AXIS_C, AXIS_H, AXIS_N, AXIS_W,
};

// The tensor of these tests is 2x2x2x2. Element (n, h, w, c) holds the number
// 8n + 4c + 2h + w:
//
// n=0 c=0     n=0 c=1     n=1 c=0     n=1 c=1
// 0 1         4 5         8 9         12 13
// 2 3         6 7         10 11       14 15
fn offset_test_base(raw: [u64; 16], dims: [i64; 4], format: &str) {
    let f = offset_from_tensor_coordinates;

    assert_eq!(raw[f(&dims, format, 0, 0, 0, 0)], 0);
    assert_eq!(raw[f(&dims, format, 0, 0, 1, 0)], 1);
    assert_eq!(raw[f(&dims, format, 0, 1, 0, 0)], 2);
    assert_eq!(raw[f(&dims, format, 0, 1, 1, 0)], 3);

    assert_eq!(raw[f(&dims, format, 0, 0, 0, 1)], 4);
    assert_eq!(raw[f(&dims, format, 0, 0, 1, 1)], 5);
    assert_eq!(raw[f(&dims, format, 0, 1, 0, 1)], 6);
    assert_eq!(raw[f(&dims, format, 0, 1, 1, 1)], 7);

    assert_eq!(raw[f(&dims, format, 1, 0, 0, 0)], 8);
    assert_eq!(raw[f(&dims, format, 1, 0, 1, 0)], 9);
    assert_eq!(raw[f(&dims, format, 1, 1, 0, 0)], 10);
    assert_eq!(raw[f(&dims, format, 1, 1, 1, 0)], 11);

    assert_eq!(raw[f(&dims, format, 1, 0, 0, 1)], 12);
    assert_eq!(raw[f(&dims, format, 1, 0, 1, 1)], 13);
    assert_eq!(raw[f(&dims, format, 1, 1, 0, 1)], 14);
    assert_eq!(raw[f(&dims, format, 1, 1, 1, 1)], 15);
}

#[test]
fn tensor_offset_nchw() {
    // Split by n, then by c, then by h; w runs fastest.
    let raw: [u64; 16] = [0, 1, 2, 3, 4, 5, 6, 7, 8, 9, 10, 11, 12, 13, 14, 15];

    offset_test_base(raw, [2, 2, 2, 2], "NCHW");
}

#[test]
fn tensor_offset_nhwc() {
    // Split by n, then by h, then by w; c runs fastest.
    let raw: [u64; 16] = [0, 4, 1, 5, 2, 6, 3, 7, 8, 12, 9, 13, 10, 14, 11, 15];

    offset_test_base(raw, [2, 2, 2, 2], "NHWC");
}

#[test]
fn tensor_offset_chwn() {
    // Split by c, then by h, then by w; n runs fastest.
    let raw: [u64; 16] = [0, 8, 1, 9, 2, 10, 3, 11, 4, 12, 5, 13, 6, 14, 7, 15];

    offset_test_base(raw, [2, 2, 2, 2], "CHWN");
}

#[test]
fn tensor_offset_cnhw() {
    // Split by c, then by n, then by h; w runs fastest.
    let raw: [u64; 16] = [0, 1, 2, 3, 8, 9, 10, 11, 4, 5, 6, 7, 12, 13, 14, 15];

    offset_test_base(raw, [2, 2, 2, 2], "CNHW");
}

#[test]
fn nchw_has_width_running_fastest() {
    let dims: [i64; 4] = [2, 2, 2, 2];
    assert_eq!(offset_from_tensor_coordinates(&dims, "NCHW", 0, 0, 0, 0), 0);
    assert_eq!(offset_from_tensor_coordinates(&dims, "NCHW", 0, 0, 1, 0), 1);
    assert_eq!(offset_from_tensor_coordinates(&dims, "NCHW", 0, 1, 0, 0), 2);
    assert_eq!(offset_from_tensor_coordinates(&dims, "NCHW", 0, 1, 1, 0), 3);
}

#[test]
fn nhwc_has_channel_running_fastest() {
    let dims: [i64; 4] = [2, 2, 2, 2];
    assert_eq!(offset_from_tensor_coordinates(&dims, "NHWC", 0, 0, 0, 0), 0);
    assert_eq!(offset_from_tensor_coordinates(&dims, "NHWC", 0, 0, 0, 1), 1);
}

#[test]
fn offset_follows_the_strides_of_the_physical_order() {
    // Physical extents 2, 3, 4, 5: the strides are 60, 20, 5 and 1.
    let dims: [i64; 4] = [2, 3, 4, 5];
    // NHWC: n along axis 0, h along 1, w along 2, c along 3.
    assert_eq!(offset_from_tensor_coordinates(&dims, "NHWC", 1, 2, 3, 4), 60 + 40 + 15 + 4);
    // NCHW: n along axis 0, c along 1, h along 2, w along 3.
    assert_eq!(offset_from_tensor_coordinates(&dims, "NCHW", 1, 3, 4, 2), 60 + 40 + 15 + 4);
    // WCHN: w along axis 0, c along 1, h along 2, n along 3.
    assert_eq!(offset_from_tensor_coordinates(&dims, "WCHN", 4, 3, 1, 2), 60 + 40 + 15 + 4);
}

#[test]
fn axis_offset_is_coordinate_times_stride() {
    let dims: [i64; 4] = [2, 3, 4, 5];
    assert_eq!(axis_offset(7, 3, &dims), 7);
    assert_eq!(axis_offset(7, 2, &dims), 35);
    assert_eq!(axis_offset(7, 1, &dims), 140);
    assert_eq!(axis_offset(7, 0, &dims), 420);
    assert_eq!(axis_offset(0, 0, &dims), 0);
}

#[test]
fn axis_offset_of_an_empty_axis_is_zero() {
    let dims: [i64; 4] = [2, i64::MAX, i64::MAX, 0];
    assert_eq!(axis_offset(5, 0, &dims), 0);
    assert_eq!(axis_offset(5, 2, &dims), 0);
    assert_eq!(axis_offset(0, 1, &dims), 0);
}

#[test]
fn format_indices_are_the_positions_of_the_letters() {
    assert_eq!(get_format_indices("NHWC"), (0, 1, 2, 3));
    assert_eq!(get_format_indices("NCHW"), (0, 2, 3, 1));
    assert_eq!(get_format_indices("CHWN"), (3, 1, 2, 0));
    assert_eq!(get_format_indices("WCHN"), (3, 2, 0, 1));
}

#[test]
fn find_letter_gives_the_first_occurrence() {
    assert_eq!(find_letter(b"NHWC", AXIS_W), Some(2));
    assert_eq!(find_letter(b"NNHW", AXIS_N), Some(0));
    assert_eq!(find_letter(b"NNHW", AXIS_C), None);
    assert_eq!(find_letter(b"", AXIS_C), None);
    assert_eq!((AXIS_N, AXIS_H, AXIS_W, AXIS_C), (b'N', b'H', b'W', b'C'));
}

#[test]
fn only_permutations_of_the_four_letters_are_formats() {
    assert!(is_valid_format("NHWC"));
    assert!(is_valid_format("CWHN"));
    assert!(!is_valid_format("NHW"));
    assert!(!is_valid_format("NHWCC"));
    assert!(!is_valid_format("NHWN"));
    assert!(!is_valid_format("nhwc"));
    assert!(!is_valid_format(""));
    assert!(!is_valid_format("NHW\u{43}\u{301}"));
}

#[test]
fn named_dims_take_each_size_from_its_axis() {
    let dims: [i64; 4] = [2, 3, 4, 5];
    let named = dims_named(&dims, "NCHW");
    assert_eq!((named.n, named.c, named.h, named.w), (2, 3, 4, 5));
    assert_eq!((named.ni, named.ci, named.hi, named.wi), (0, 1, 2, 3));
    let named = dims_named(&dims, "CHWN");
    assert_eq!((named.c, named.h, named.w, named.n), (2, 3, 4, 5));
    assert_eq!((named.ci, named.hi, named.wi, named.ni), (0, 1, 2, 3));
}

#[test]
fn element_count_is_the_product_of_positive_extents() {
    assert!(has_element_count(&[2, 3, 4, 5], 120));
    assert!(!has_element_count(&[2, 3, 4, 5], 119));
    assert!(has_element_count(&[1, 1, 1, 1], 1));
    assert!(!has_element_count(&[2, 0, 4, 5], 0));
    assert!(!has_element_count(&[2, -3, -4, 5], 120));
    assert!(!has_element_count(&[i64::MAX, 2, 1, 1], -2));
    assert!(has_element_count(&[i64::MAX, 1, 1, 1], i64::MAX));
}

fn permutations() -> Vec<String> {
    let letters = ['N', 'H', 'W', 'C'];
    let mut all = Vec::new();
    for a in 0..4 {
        for b in 0..4 {
            for c in 0..4 {
                for d in 0..4 {
                    let mut seen = [false; 4];
                    seen[a] = true;
                    seen[b] = true;
                    seen[c] = true;
                    seen[d] = true;
                    if seen == [true; 4] {
                        all.push(format!("{}{}{}{}", letters[a], letters[b], letters[c], letters[d]));
                    }
                }
            }
        }
    }
    all
}

#[test]
fn every_format_addresses_every_element_exactly_once() {
    let dims: [i64; 4] = [2, 3, 4, 5];
    let formats = permutations();
    assert_eq!(formats.len(), 24);
    for format in formats {
        let named = dims_named(&dims, &format);
        let mut hits = vec![0u32; 120];
        for n in 0..named.n as usize {
            for h in 0..named.h as usize {
                for w in 0..named.w as usize {
                    for c in 0..named.c as usize {
                        let offset = offset_from_tensor_coordinates(&dims, &format, n, h, w, c);
                        assert!(offset < 120);
                        hits[offset] += 1;
                    }
                }
            }
        }
        assert_eq!(hits, vec![1u32; 120]);
    }
}
