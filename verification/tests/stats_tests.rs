use filmrust::image::Image;
use filmrust::stats::{diff_stats, pixel_stats, skin_pixel, DiffStats, PixelStats};

fn img(width: u32, height: u32, data: Vec<u8>) -> Image {
    assert_eq!(data.len(), (width * height * 3) as usize);
    Image { width, height, data }
}

#[test]
fn pixel_stats_sums_and_skin() {
    let i = img(2, 1, vec![100, 60, 40, 10, 20, 30]);
    let st = pixel_stats(&i);
    assert_eq!(
        st,
        PixelStats {
            pixels: 2,
            r_sum: 110,
            g_sum: 80,
            b_sum: 70,
            r_sq: 10100,
            g_sq: 4000,
            b_sq: 2500,
            skin: 1,
        }
    );
}

#[test]
fn pixel_stats_empty_image() {
    let i = img(0, 5, vec![]);
    let st = pixel_stats(&i);
    assert_eq!(st.pixels, 0);
    assert_eq!(st.r_sum, 0);
    assert_eq!(st.skin, 0);
}

#[test]
fn skin_pixel_bounds() {
    assert!(!skin_pixel(80, 50, 30));
    assert!(skin_pixel(81, 50, 30));
    assert!(!skin_pixel(150, 90, 30));
    assert!(skin_pixel(150, 91, 30));
    assert!(skin_pixel(229, 199, 179));
    assert!(!skin_pixel(230, 199, 179));
    assert!(!skin_pixel(150, 30, 100));
    assert!(!skin_pixel(150, 100, 20));
    assert!(!skin_pixel(120, 121, 50));
    assert!(!skin_pixel(120, 100, 120));
}

#[test]
fn diff_stats_counts_each_artifact() {
    let out = img(2, 2, vec![0, 0, 0, 255, 255, 255, 50, 50, 120, 10, 10, 10]);
    let orig = img(2, 2, vec![100, 100, 100, 100, 100, 100, 70, 70, 80, 10, 10, 10]);
    let st = diff_stats(&out, &orig);
    assert_eq!(
        st,
        DiffStats { max_diff: 155, bad: 7, blue_shift: 1, black_dot: 1, white_dot: 1 }
    );
}

#[test]
fn diff_stats_uses_the_overlap() {
    let out = img(3, 1, vec![0, 0, 0, 255, 255, 255, 255, 255, 255]);
    let orig = img(1, 2, vec![100, 100, 100, 0, 0, 0]);
    let st = diff_stats(&out, &orig);
    assert_eq!(
        st,
        DiffStats { max_diff: 100, bad: 3, blue_shift: 0, black_dot: 1, white_dot: 0 }
    );
}

#[test]
fn diff_stats_of_an_image_with_itself_is_zero() {
    let a = img(3, 2, vec![0, 255, 7, 100, 60, 40, 250, 251, 252, 1, 2, 3, 90, 91, 92, 5, 4, 3]);
    let st = diff_stats(&a, &a);
    assert_eq!(
        st,
        DiffStats { max_diff: 0, bad: 0, blue_shift: 0, black_dot: 0, white_dot: 0 }
    );
}

#[test]
fn diff_stats_blue_shift_needs_all_three_conditions() {
    let out = img(3, 1, vec![50, 50, 110, 50, 65, 120, 50, 50, 120]);
    let orig = img(3, 1, vec![70, 70, 80, 70, 70, 80, 61, 70, 80]);
    let st = diff_stats(&out, &orig);
    assert_eq!(st.blue_shift, 1);
    assert_eq!(st.bad, 2);
    assert_eq!(st.max_diff, 40);
}
