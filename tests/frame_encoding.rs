use ledstrip::{encode_frame, Rgb8};

fn strip() -> Vec<Rgb8> {
    vec![
        Rgb8 { red: 1, green: 2, blue: 3 },
        Rgb8 { red: 4, green: 5, blue: 6 },
        Rgb8 { red: 7, green: 8, blue: 9 },
    ]
}

#[test]
fn frame_has_header_quads_and_padding() {
    let f = encode_frame(&strip(), 0);
    assert_eq!(
        f,
        vec![0, 0, 0, 0, 0xFF, 3, 2, 1, 0xFF, 6, 5, 4, 0xFF, 9, 8, 7, 0, 0]
    );
}

#[test]
fn frame_starts_at_offset_and_wraps() {
    let f = encode_frame(&strip(), 1);
    assert_eq!(
        f,
        vec![0, 0, 0, 0, 0xFF, 6, 5, 4, 0xFF, 9, 8, 7, 0xFF, 3, 2, 1, 0, 0]
    );
    assert_eq!(encode_frame(&strip(), 4), f);
}

#[test]
fn frame_of_empty_strip_is_the_header() {
    assert_eq!(encode_frame(&Vec::new(), 3), vec![0, 0, 0, 0]);
}

#[test]
fn frame_padding_is_half_the_pixels_rounded_up() {
    let one = vec![Rgb8 { red: 10, green: 20, blue: 30 }];
    assert_eq!(encode_frame(&one, 0), vec![0, 0, 0, 0, 0xFF, 30, 20, 10, 0]);
    let four = vec![Rgb8 { red: 0, green: 0, blue: 0 }; 4];
    assert_eq!(encode_frame(&four, 0).len(), 4 + 16 + 2);
}
