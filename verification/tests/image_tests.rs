use filmrust::image::{
    apply_lut, box_blur_horiz, box_blur_vert, dof_blur, fast_gaussian_blur, motion_blur, Image,
};

fn img(width: u32, height: u32, data: Vec<u8>) -> Image {
    assert_eq!(data.len(), (width * height * 3) as usize);
    Image { width, height, data }
}

fn red_row(values: &[u8]) -> Image {
    let mut data = Vec::new();
    for v in values {
        data.extend_from_slice(&[*v, 0, 0]);
    }
    img(values.len() as u32, 1, data)
}

fn red_column(values: &[u8]) -> Image {
    let mut data = Vec::new();
    for v in values {
        data.extend_from_slice(&[*v, 0, 0]);
    }
    img(1, values.len() as u32, data)
}

fn reds(i: &Image) -> Vec<u8> {
    i.data.chunks(3).map(|p| p[0]).collect()
}

#[test]
fn box_horiz_window_values() {
    let out = box_blur_horiz(&red_row(&[0, 30, 60]), 1);
    assert_eq!(reds(&out), vec![15, 30, 50]);
    assert_eq!((out.width, out.height), (3, 1));
}

#[test]
fn box_horiz_radius_wider_than_image() {
    let out = box_blur_horiz(&red_row(&[0, 30, 60]), 5);
    assert_eq!(reds(&out), vec![30, 37, 42]);
}

#[test]
fn box_radius_zero_is_identity() {
    let i = img(2, 2, (0u8..12).map(|v| v * 7).collect());
    assert_eq!(box_blur_horiz(&i, 0).data, i.data);
    assert_eq!(box_blur_vert(&i, 0).data, i.data);
    assert_eq!(fast_gaussian_blur(&i, 0).data, i.data);
}

#[test]
fn box_vert_window_values() {
    let out = box_blur_vert(&red_column(&[0, 30, 60]), 1);
    assert_eq!(reds(&out), vec![15, 30, 50]);
}

#[test]
fn box_blur_keeps_uniform_image() {
    let i = img(4, 3, vec![77; 36]);
    assert_eq!(box_blur_horiz(&i, 2).data, i.data);
    assert_eq!(box_blur_vert(&i, 7).data, i.data);
    assert_eq!(fast_gaussian_blur(&i, 3).data, i.data);
}

#[test]
fn line_blurs_keep_uniform_colour() {
    let mut data = Vec::new();
    for _ in 0..6 {
        data.extend_from_slice(&[12, 200, 99]);
    }
    let i = img(3, 2, data);
    assert_eq!(motion_blur(&i, 4).data, i.data);
    assert_eq!(dof_blur(&i, 2).data, i.data);
    assert_eq!(box_blur_horiz(&i, 1).data, i.data);
    assert_eq!(fast_gaussian_blur(&i, 2).data, i.data);
}

#[test]
fn empty_image_stays_empty() {
    let i = img(0, 5, Vec::new());
    assert!(box_blur_horiz(&i, 3).data.is_empty());
    assert!(motion_blur(&i, 3).data.is_empty());
    let j = img(5, 0, Vec::new());
    assert!(box_blur_vert(&j, 3).data.is_empty());
    assert!(dof_blur(&j, 2).data.is_empty());
}

#[test]
fn gaussian_is_four_box_passes() {
    let i = img(3, 2, vec![0, 10, 20, 30, 40, 50, 60, 70, 80, 90, 100, 110, 120, 130, 140, 150, 160, 170]);
    let manual = box_blur_vert(&box_blur_horiz(&box_blur_vert(&box_blur_horiz(&i, 1), 1), 1), 1);
    assert_eq!(fast_gaussian_blur(&i, 1).data, manual.data);
}

#[test]
fn motion_blur_samples_diagonal() {
    // 2x2 image, red channel: (0,0)=0 (1,0)=40 (0,1)=80 (1,1)=120
    let i = img(2, 2, vec![0, 0, 0, 40, 0, 0, 80, 0, 0, 120, 0, 0]);
    let out = motion_blur(&i, 1);
    // pixel (0,0): offsets -1,0,1 -> (0,0),(0,0),(1,1) -> (0+0+120)/3 = 40
    // pixel (1,0): (0,0),(1,0),(1,1) -> (0+40+120)/3 = 53
    // pixel (0,1): (0,0),(0,1),(1,1) -> (0+80+120)/3 = 66
    // pixel (1,1): (0,0),(1,1),(1,1) -> (0+120+120)/3 = 80
    assert_eq!(reds(&out), vec![40, 53, 66, 80]);
}

#[test]
fn dof_blur_is_horizontal_then_vertical() {
    let i = img(2, 2, vec![0, 0, 0, 40, 0, 0, 80, 0, 0, 120, 0, 0]);
    let out = dof_blur(&i, 1);
    // horizontal, count 3: row0 (0,0,40)->13, (0,40,40)->26; row1 (80,80,120)->93, (80,120,120)->106
    // vertical, count 3: col0 (13,13,93)->39, (13,93,93)->66; col1 (26,26,106)->52, (26,106,106)->79
    assert_eq!(reds(&out), vec![39, 52, 66, 79]);
}

#[test]
fn lut_maps_each_channel() {
    let mut lut = [0u8; 256];
    for (k, e) in lut.iter_mut().enumerate() {
        *e = 255 - k as u8;
    }
    let i = img(1, 1, vec![0, 100, 255]);
    assert_eq!(apply_lut(&i, &lut).data, vec![255, 155, 0]);
}

#[test]
fn lut_composition_and_identity() {
    let mut a = [0u8; 256];
    let mut b = [0u8; 256];
    let mut ab = [0u8; 256];
    let mut id = [0u8; 256];
    for k in 0..256usize {
        a[k] = (k as u8).wrapping_mul(3);
        b[k] = 255 - k as u8;
        id[k] = k as u8;
    }
    for k in 0..256usize {
        ab[k] = b[a[k] as usize];
    }
    let i = img(2, 1, vec![0, 1, 2, 100, 200, 255]);
    assert_eq!(apply_lut(&apply_lut(&i, &a), &b).data, apply_lut(&i, &ab).data);
    assert_eq!(apply_lut(&i, &id).data, i.data);
}
