use frame_analysis::focus::detect_peaks;
use frame_analysis::geometry::{validate, FrameError};
use frame_analysis::luma::{calculate_average_luma, calculate_histogram};
use frame_analysis::text::{join_decimal, push_decimal};
use frame_analysis::{process_focus_peaking, process_image_frame};

fn histogram_text(first: u64, rest: &[(usize, u64)]) -> String {
    let mut counts = vec![0u64; 256];
    counts[0] = first;
    for &(v, c) in rest {
        counts[v] = c;
    }
    counts.iter().map(|c| c.to_string()).collect::<Vec<_>>().join(",")
}

/// Vertical stripes two pixels wide, alternating between `low` and `high`.
fn stripes(width: usize, height: usize, low: u8, high: u8) -> Vec<u8> {
    let mut data = vec![0u8; width * height];
    for y in 0..height {
        for x in 0..width {
            data[y * width + x] = if (x / 2) % 2 == 0 { low } else { high };
        }
    }
    data
}

fn all_blocks() -> String {
    (0..100).map(|b: u32| b.to_string()).collect::<Vec<_>>().join(",")
}

#[test]
fn invalid_dimensions_are_refused() {
    let data = vec![0u8; 64];
    for &(w, h, s) in &[(0, 8, 8), (8, 0, 8), (8, 8, 0), (-1, 8, 8), (8, -3, 8), (8, 8, -8)] {
        assert_eq!(process_image_frame(&data, w, h, s), "Error: Invalid dimensions");
        assert_eq!(process_focus_peaking(&data, w, h, s), "Error: Invalid dimensions");
    }
    assert_eq!(validate(0, 8, 8, 64), Err(FrameError::InvalidDimensions));
}

#[test]
fn stride_smaller_than_width_is_refused() {
    let data = vec![0u8; 1000];
    assert_eq!(process_image_frame(&data, 16, 4, 15), "Error: Stride smaller than width");
    assert_eq!(process_focus_peaking(&data, 20, 20, 1), "Error: Stride smaller than width");
    assert_eq!(validate(16, 4, 15, 1000), Err(FrameError::StrideTooSmall));
}

#[test]
fn short_buffer_reports_both_lengths() {
    let data = vec![0u8; 10];
    assert_eq!(process_image_frame(&data, 4, 4, 4), "Error: Buffer too small. Len: 10, Expected: 16");
    assert_eq!(
        process_focus_peaking(&data, 3, 5, 7),
        "Error: Buffer too small. Len: 10, Expected: 35"
    );
    assert_eq!(
        validate(4, 4, 4, 10),
        Err(FrameError::BufferTooSmall { actual: 10, expected: 16 })
    );
}

#[test]
fn validate_accepts_a_fitting_frame() {
    assert_eq!(validate(16, 8, 20, 160), Ok((16, 8, 20)));
    assert_eq!(validate(16, 8, 20, 159), Err(FrameError::BufferTooSmall { actual: 159, expected: 160 }));
}

#[test]
fn error_messages() {
    assert_eq!(FrameError::InvalidDimensions.message(), "Error: Invalid dimensions");
    assert_eq!(FrameError::StrideTooSmall.message(), "Error: Stride smaller than width");
    assert_eq!(FrameError::FrameTooSmallForGrid.message(), "Error: Image too small for grid");
    assert_eq!(
        FrameError::BufferTooSmall { actual: 0, expected: 4294967296 }.message(),
        "Error: Buffer too small. Len: 0, Expected: 4294967296"
    );
}

#[test]
fn histogram_of_zero_frame_puts_all_samples_in_bucket_zero() {
    let data = vec![0u8; 16 * 16];
    let expected = histogram_text(16, &[]);
    assert_eq!(process_image_frame(&data, 16, 16, 16), expected);
    assert!(expected.starts_with("16,0,0,"));
    assert_eq!(expected.split(',').count(), 256);
}

#[test]
fn histogram_ignores_unsampled_pixel() {
    let data = vec![0u8; 16 * 16];
    let mut changed = data.clone();
    changed[16 + 1] = 200;
    assert_eq!(process_image_frame(&data, 16, 16, 16), process_image_frame(&changed, 16, 16, 16));
}

#[test]
fn histogram_counts_sampled_pixel() {
    let mut data = vec![0u8; 16 * 16];
    data[4 * 16 + 8] = 200;
    assert_eq!(process_image_frame(&data, 16, 16, 16), histogram_text(15, &[(200, 1)]));
}

#[test]
fn histogram_skips_row_padding() {
    // Width 5 in a stride of 8: rows and columns 0 and 4 are sampled, never the padding.
    let mut data = vec![7u8; 8 * 5];
    for row in 0..5 {
        for col in 5..8 {
            data[row * 8 + col] = 255;
        }
    }
    assert_eq!(calculate_histogram(&data, 8, 5, 5), histogram_text(0, &[(7, 4)]));
}

#[test]
fn histogram_of_empty_frame() {
    assert_eq!(calculate_histogram(&[], 0, 0, 0), histogram_text(0, &[]));
}

#[test]
fn focus_on_uniform_frame_is_empty() {
    let data = vec![128u8; 37 * 23];
    assert_eq!(process_focus_peaking(&data, 37, 23, 37), "");
    let data = vec![0u8; 12 * 10];
    assert_eq!(process_focus_peaking(&data, 10, 10, 12), "");
}

#[test]
fn focus_on_small_frame_is_refused() {
    let data = vec![0u8; 100];
    assert_eq!(process_focus_peaking(&data, 9, 10, 10), "Error: Image too small for grid");
    assert_eq!(process_focus_peaking(&data, 10, 9, 10), "Error: Image too small for grid");
    assert_eq!(detect_peaks(&data, 10, 10, 1), "Error: Image too small for grid");
}

#[test]
fn focus_on_sharp_stripes_marks_every_block() {
    let data = stripes(100, 100, 0, 200);
    assert_eq!(process_focus_peaking(&data, 100, 100, 100), all_blocks());
}

#[test]
fn focus_depends_on_edge_threshold() {
    // Horizontal difference 50 is not above the threshold; 51 is.
    let faint = stripes(100, 100, 100, 150);
    assert_eq!(process_focus_peaking(&faint, 100, 100, 100), "");
    let sharper = stripes(100, 100, 100, 151);
    assert_eq!(process_focus_peaking(&sharper, 100, 100, 100), all_blocks());
}

#[test]
fn focus_marks_only_textured_blocks() {
    // Stripes in the left half only: columns 0..50 hold blocks 0..5 of each row.
    let mut data = vec![0u8; 100 * 100];
    for y in 0..100 {
        for x in 0..50 {
            data[y * 100 + x] = if (x / 2) % 2 == 0 { 0 } else { 200 };
        }
    }
    let expected: Vec<String> = (0..100u32).filter(|b| b % 10 < 5).map(|b| b.to_string()).collect();
    assert_eq!(detect_peaks(&data, 100, 100, 100), expected.join(","));
}

#[test]
fn focus_output_ascends() {
    let data: Vec<u8> = (0..120 * 90).map(|i: usize| ((i * 37) % 251) as u8).collect();
    let out = process_focus_peaking(&data, 120, 90, 120);
    let blocks: Vec<u32> = out.split(',').filter(|s| !s.is_empty()).map(|s| s.parse().unwrap()).collect();
    assert!(blocks.windows(2).all(|w| w[0] < w[1]));
    assert!(blocks.iter().all(|&b| b < 100));
}

#[test]
fn average_luma_of_frame() {
    let data = vec![10u8, 20, 30, 99, 40, 50, 60, 99];
    assert_eq!(calculate_average_luma(&data, 4, 3, 2), 35);
    assert_eq!(calculate_average_luma(&[255u8; 9], 3, 3, 3), 255);
    assert_eq!(calculate_average_luma(&[], 0, 0, 0), 0);
    assert_eq!(calculate_average_luma(&[1u8, 2], 1, 1, 2), 1);
}

#[test]
fn decimal_text() {
    let mut out = String::from("n=");
    push_decimal(&mut out, 0);
    assert_eq!(out, "n=0");
    let mut out = String::new();
    push_decimal(&mut out, 18446744073709551615);
    assert_eq!(out, "18446744073709551615");
    assert_eq!(join_decimal(&vec![]), "");
    assert_eq!(join_decimal(&vec![7]), "7");
    assert_eq!(join_decimal(&vec![10, 0, 305]), "10,0,305");
}
