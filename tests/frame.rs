use path_tracer::camera::{pixel_target, PlanePoint};
use path_tracer::frame::render_frame;

fn encode(p: PlanePoint) -> [u8; 3] {
    [(p.x_num + 64) as u8, (p.y_num + 64) as u8, p.denom as u8]
}

#[test]
fn every_pixel_gets_its_own_shade_in_row_major_order() {
    let (w, h) = (5u32, 3u32);
    let raw = render_frame(w, h, encode).into_raw();
    assert_eq!(raw.len(), (3 * w * h) as usize);
    for y in 0..h {
        for x in 0..w {
            let i = (3 * (y * w + x)) as usize;
            assert_eq!(&raw[i..i + 3], &encode(pixel_target(x, y, w, h))[..]);
        }
    }
}

#[test]
fn pixels_are_shaded_once_each() {
    let calls = std::cell::Cell::new(0u32);
    let raw = render_frame(4, 6, |_p: PlanePoint| {
        calls.set(calls.get() + 1);
        [calls.get() as u8, 0, 0]
    })
    .into_raw();
    assert_eq!(calls.get(), 24);
    let order: Vec<u8> = raw.chunks(3).map(|c| c[0]).collect();
    assert_eq!(order, (1..=24).collect::<Vec<u8>>());
}

#[test]
fn empty_frame_has_no_pixels() {
    assert!(render_frame(0, 7, encode).into_raw().is_empty());
    assert!(render_frame(7, 0, encode).into_raw().is_empty());
}

#[test]
fn shade_result_is_stored_unchanged() {
    let raw = render_frame(2, 2, |_p: PlanePoint| [255, 128, 1]).into_raw();
    assert_eq!(raw, vec![255, 128, 1, 255, 128, 1, 255, 128, 1, 255, 128, 1]);
}
