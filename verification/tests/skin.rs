use slintlauncher::skin::head_from_skin;

fn png(width: u32, height: u32, paint: impl Fn(u32, u32) -> [u8; 4]) -> Vec<u8> {
    let img = image::RgbaImage::from_fn(width, height, |x, y| image::Rgba(paint(x, y)));
    let mut out = std::io::Cursor::new(Vec::new());
    img.write_to(&mut out, image::ImageFormat::Png).unwrap();
    out.into_inner()
}

#[test]
fn the_face_is_scaled_and_the_hat_drawn_over_it() {
    let skin = png(64, 64, |x, y| {
        if (8..16).contains(&x) && (8..16).contains(&y) {
            [200, 100, 50, 255]
        } else if x == 40 && y == 8 {
            [1, 2, 3, 255]
        } else {
            [0, 0, 0, 0]
        }
    });
    let icon = head_from_skin(&skin).unwrap();
    assert_eq!(icon.len(), 64 * 64 * 4);
    assert_eq!(&icon[0..4], &[1, 2, 3, 255]);
    let p = ((8 * 64) + 8) * 4;
    assert_eq!(&icon[p..p + 4], &[200, 100, 50, 255]);
    let last = icon.len() - 4;
    assert_eq!(&icon[last..], &[200, 100, 50, 255]);
}

#[test]
fn small_or_broken_skins_are_refused() {
    let small = png(32, 32, |_, _| [0, 0, 0, 255]);
    assert_eq!(head_from_skin(&small).unwrap_err(), "unexpected skin size 32x32");
    let err = head_from_skin(b"not a png").unwrap_err();
    assert!(err.starts_with("cannot decode skin: "));
}

#[test]
fn pixels_are_cropped_and_scaled() {
    let (w, h) = (64u32, 32u32);
    let mut px = vec![0u8; (w * h * 4) as usize];
    let at = |x: u32, y: u32| ((y * w + x) * 4) as usize;
    for (x, y, c) in [(8, 8, [10u8, 20, 30, 255]), (15, 15, [40, 50, 60, 255]), (47, 15, [7, 8, 9, 17])] {
        px[at(x, y)..at(x, y) + 4].copy_from_slice(&c);
    }
    let icon = slintlauncher::skin::head_from_pixels(w, h, &px).unwrap();
    assert_eq!(icon.len(), 16384);
    assert_eq!(&icon[0..4], &[10, 20, 30, 255]);
    let last = icon.len() - 4;
    assert_eq!(&icon[last..], &[7, 8, 9, 255]);
    let small = vec![0u8; 63 * 32 * 4];
    assert_eq!(slintlauncher::skin::head_from_pixels(63, 32, &small).unwrap_err(), "unexpected skin size 63x32");
}
