use webcam_viewer::color_converter::ConvertError;
use webcam_viewer::pixel::clamp;
use webcam_viewer::pixel::ycbcr_to_rgb;
use webcam_viewer::yuv422_to_rgb24;
use webcam_viewer::yuv422_to_rgb32;
use webcam_viewer::yuv422_to_rgba8;

fn rgba(input: &[u8]) -> Vec<u8> {
    let mut out = vec![0u8; input.len() * 2];
    yuv422_to_rgba8(input, &mut out).unwrap();
    out
}

fn rgb24(input: &[u8]) -> Vec<u8> {
    let mut out = vec![0u8; input.len() / 2 * 3];
    yuv422_to_rgb24(input, &mut out).unwrap();
    out
}

fn rgb32(input: &[u8]) -> Vec<u8> {
    let mut out = vec![7u8; input.len() * 2];
    yuv422_to_rgb32(input, &mut out).unwrap();
    out
}

#[test]
fn output_lengths_follow_layout() {
    for groups in 1..=9usize {
        let input: Vec<u8> = (0..groups * 4).map(|i| (i * 37 % 256) as u8).collect();
        let l = input.len();
        assert_eq!(rgba(&input).len(), 2 * l);
        assert_eq!(rgb24(&input).len(), 3 * l / 2);
        assert_eq!(rgb32(&input).len(), 2 * l);
    }
}

#[test]
fn neutral_chroma_gives_grey_in_every_layout() {
    for y in 0..=255u8 {
        let y2 = 255 - y;
        let input = [y, 128, y2, 128];
        assert_eq!(rgba(&input), vec![y, y, y, 255, y2, y2, y2, 255]);
        assert_eq!(rgb24(&input), vec![y, y, y, y2, y2, y2]);
        assert_eq!(rgb32(&input), vec![y, y, y, 0, y2, y2, y2, 0]);
    }
}

#[test]
fn saturation_at_white_and_black() {
    assert_eq!(ycbcr_to_rgb(255, 128, 128), (255, 255, 255));
    assert_eq!(ycbcr_to_rgb(0, 128, 128), (0, 0, 0));
    assert_eq!(rgba(&[255, 128, 0, 128]), vec![255, 255, 255, 255, 0, 0, 0, 255]);
}

#[test]
fn extreme_chroma_saturates() {
    // R = 255 + 45*127/32 is above 255; B = 0 + 113*(-128)/64 is below 0.
    assert_eq!(ycbcr_to_rgb(255, 255, 255), (255, 120, 255));
    assert_eq!(ycbcr_to_rgb(0, 0, 0), (0, 136, 0));
    for y in [0u8, 1, 127, 128, 254, 255] {
        for cb in [0u8, 1, 127, 128, 129, 254, 255] {
            for cr in [0u8, 1, 127, 128, 129, 254, 255] {
                let _ = ycbcr_to_rgb(y, cb, cr);
            }
        }
    }
}

#[test]
fn concrete_group_matches_formula() {
    // Y1=200, Cb=100, Cr=150, Y2=220: cb' = -28, cr' = 22.
    // R1 = 200 + 990/32 = 230.9375, G1 = 200 - 198/32 = 193.8125, B1 = 200 - 3164/64 = 150.5625.
    // Pixel 2 adds 20 to each.
    let input = [200u8, 100, 220, 150];
    assert_eq!(ycbcr_to_rgb(200, 100, 150), (231, 194, 151));
    assert_eq!(ycbcr_to_rgb(220, 100, 150), (251, 214, 171));
    assert_eq!(rgba(&input), vec![231, 194, 151, 255, 251, 214, 171, 255]);
    assert_eq!(rgb24(&input), vec![231, 194, 151, 251, 214, 171]);
    assert_eq!(rgb32(&input), vec![151, 194, 231, 0, 171, 214, 251, 0]);
}

#[test]
fn rounding_of_halves_goes_away_from_zero() {
    // Cr = 144: R = Y + 22.5; Cr = 112: R = Y - 22.5.
    assert_eq!(ycbcr_to_rgb(100, 128, 144).0, 123);
    assert_eq!(ycbcr_to_rgb(100, 128, 112).0, 78);
    assert_eq!(clamp(16, 32), 1);
    assert_eq!(clamp(15, 32), 0);
    assert_eq!(clamp(-1, 32), 0);
    assert_eq!(clamp(255 * 64, 64), 255);
    assert_eq!(clamp(255 * 64 + 1, 64), 255);
    assert_eq!(clamp(100 * 64 + 31, 64), 100);
    assert_eq!(clamp(100 * 64 + 32, 64), 101);
}

#[test]
fn conversion_is_reproducible_and_split_independent() {
    let input: Vec<u8> = (0..4096usize).map(|i| (i * 131 % 251) as u8).collect();
    let first = rgba(&input);
    let second = rgba(&input);
    assert_eq!(first, second);
    let (a, b) = input.split_at(1024);
    let mut pieces = rgba(a);
    pieces.extend(rgba(b));
    assert_eq!(first, pieces);
    let mut tight = rgb24(a);
    tight.extend(rgb24(b));
    assert_eq!(rgb24(&input), tight);
    let mut swapped = rgb32(a);
    swapped.extend(rgb32(b));
    assert_eq!(rgb32(&input), swapped);
}

#[test]
fn groups_are_converted_independently() {
    let input = [200u8, 100, 220, 150, 255, 128, 0, 128];
    assert_eq!(
        rgba(&input),
        vec![231, 194, 151, 255, 251, 214, 171, 255, 255, 255, 255, 255, 0, 0, 0, 255]
    );
}

#[test]
fn empty_frame_converts_to_empty_output() {
    let mut out: Vec<u8> = Vec::new();
    assert_eq!(yuv422_to_rgba8(&[], &mut out), Ok(()));
    assert_eq!(yuv422_to_rgb24(&[], &mut out), Ok(()));
    assert_eq!(yuv422_to_rgb32(&[], &mut out), Ok(()));
}

#[test]
fn unaligned_input_is_refused() {
    let mut out = vec![9u8; 10];
    assert_eq!(
        yuv422_to_rgba8(&[1, 2, 3, 4, 5], &mut out),
        Err(ConvertError::UnalignedInput { input_len: 5 })
    );
    assert_eq!(
        yuv422_to_rgb24(&[1, 2, 3, 4, 5, 6], &mut out),
        Err(ConvertError::UnalignedInput { input_len: 6 })
    );
    assert_eq!(out, vec![9u8; 10]);
}

#[test]
fn wrong_output_length_is_refused() {
    let input = [16u8, 128, 235, 128];
    let mut short = vec![9u8; 7];
    assert_eq!(
        yuv422_to_rgba8(&input, &mut short),
        Err(ConvertError::SizeMismatch { input_len: 4, output_len: 7 })
    );
    assert_eq!(short, vec![9u8; 7]);
    let mut long = vec![9u8; 8];
    assert_eq!(
        yuv422_to_rgb24(&input, &mut long),
        Err(ConvertError::SizeMismatch { input_len: 4, output_len: 8 })
    );
    assert_eq!(long, vec![9u8; 8]);
    let mut rgb_sized = vec![9u8; 6];
    assert_eq!(
        yuv422_to_rgb32(&input, &mut rgb_sized),
        Err(ConvertError::SizeMismatch { input_len: 4, output_len: 6 })
    );
}

#[test]
fn swapped_layout_pads_with_zero() {
    let input = [10u8, 128, 20, 128];
    let out = rgb32(&input);
    assert_eq!(out, vec![10, 10, 10, 0, 20, 20, 20, 0]);
}
