use filmrust::exif::{preserve_jpeg_exif, preserve_jpeg_exif_checked};

const SOI: [u8; 2] = [0xFF, 0xD8];
const EOI: [u8; 2] = [0xFF, 0xD9];

fn jpeg(segments: &[&[u8]]) -> Vec<u8> {
    let mut v = SOI.to_vec();
    for s in segments {
        v.extend_from_slice(s);
    }
    v.extend_from_slice(&EOI);
    v
}

#[test]
fn exif_segment_is_carried_over() {
    let app1: &[u8] = &[0xFF, 0xE1, 0x00, 0x04, 0xAA, 0xBB];
    let input = jpeg(&[&[0xFF, 0xE0, 0x00, 0x03, 0x01], app1]);
    let output = jpeg(&[&[0xFF, 0xDB, 0x00, 0x03, 0xCC], &[0xFF, 0xFE, 0x00, 0x03, 0xDD]]);
    let expected = jpeg(&[&[0xFF, 0xDB, 0x00, 0x03, 0xCC], app1, &[0xFF, 0xFE, 0x00, 0x03, 0xDD]]);
    assert_eq!(preserve_jpeg_exif(&input, output.clone()), expected);
    assert_eq!(preserve_jpeg_exif_checked(&input, output), Some(expected));
}

#[test]
fn without_exif_output_is_unchanged() {
    let input = jpeg(&[&[0xFF, 0xE0, 0x00, 0x03, 0x01]]);
    let output = jpeg(&[&[0xFF, 0xDB, 0x00, 0x03, 0xCC]]);
    assert_eq!(preserve_jpeg_exif(&input, output.clone()), output);
    assert_eq!(preserve_jpeg_exif(&b"not a jpeg".to_vec(), output.clone()), output);
}

#[test]
fn output_that_is_no_jpeg_is_unchanged() {
    let input = jpeg(&[&[0xFF, 0xE1, 0x00, 0x04, 0xAA, 0xBB]]);
    let output = b"plain bytes".to_vec();
    assert_eq!(preserve_jpeg_exif(&input, output.clone()), output);
}

#[test]
fn output_without_segments_is_refused() {
    let input = jpeg(&[&[0xFF, 0xE1, 0x00, 0x04, 0xAA, 0xBB]]);
    let output = jpeg(&[]);
    assert_eq!(preserve_jpeg_exif_checked(&input, output), None);
}
