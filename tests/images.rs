use openjudge_cli::kitty::kitty_frames;
use openjudge_cli::{get_image, Fetched, GraphicsProtocol};

fn red_pixel_png() -> Vec<u8> {
    let img = image::RgbImage::from_raw(1, 1, vec![255, 0, 0]).unwrap();
    let mut bytes = std::io::Cursor::new(Vec::new());
    image::DynamicImage::ImageRgb8(img)
        .write_to(&mut bytes, image::ImageFormat::Png)
        .unwrap();
    bytes.into_inner()
}

#[test]
fn payload_of_4096_is_one_frame() {
    let enc = "A".repeat(4096);
    let frames = kitty_frames(2, 3, &enc);
    assert_eq!(frames.len(), 1);
    assert_eq!(frames[0], format!("\x1b_Gf=24,s=2,v=3,a=T;{}\x1b\\", enc));
    assert!(!frames[0].contains("m="));
}

#[test]
fn payload_of_4097_is_two_frames() {
    let enc = format!("{}B", "A".repeat(4096));
    let frames = kitty_frames(2, 3, &enc);
    assert_eq!(frames.len(), 2);
    assert_eq!(frames[0], format!("\x1b_Gf=24,s=2,v=3,a=T,m=1;{}\x1b\\", "A".repeat(4096)));
    assert_eq!(frames[1], "\x1b_Gm=0;B\x1b\\");
}

#[test]
fn long_payload_flags_all_but_last() {
    let enc = "C".repeat(4096 * 3 + 5);
    let frames = kitty_frames(10, 20, &enc);
    assert_eq!(frames.len(), 4);
    assert!(frames[0].starts_with("\x1b_Gf=24,s=10,v=20,a=T,m=1;"));
    assert_eq!(frames[1], format!("\x1b_Gm=1;{}\x1b\\", "C".repeat(4096)));
    assert_eq!(frames[2], format!("\x1b_Gm=1;{}\x1b\\", "C".repeat(4096)));
    assert_eq!(frames[3], format!("\x1b_Gm=0;{}\x1b\\", "C".repeat(5)));
}

#[test]
fn small_payload_short_frame() {
    let frames = kitty_frames(0, 0, "");
    assert_eq!(frames, vec!["\x1b_Gf=24,s=0,v=0,a=T;\x1b\\".to_string()]);
}

#[test]
fn decoded_png_in_kitty_frames() {
    let out = get_image("p.png", GraphicsProtocol::Kitty, Fetched::Bytes(red_pixel_png()));
    assert_eq!(out, "\x1b_Gf=24,s=1,v=1,a=T;/wAA\x1b\\");
}

#[test]
fn decoded_png_in_iterm_frame() {
    let out = get_image("p.png", GraphicsProtocol::ITerm, Fetched::Bytes(red_pixel_png()));
    assert!(out.starts_with("\x1b]1337;File=inline=1;size="));
    assert!(out.contains(";width=1px;height=1px;doNotMoveCursor=1:iVBORw0KGgo"));
    assert!(out.ends_with("\x07"));
}

#[test]
fn undecodable_bytes_give_placeholder() {
    let out = get_image("x", GraphicsProtocol::Kitty, Fetched::Bytes(vec![1, 2, 3, 4, 5]));
    assert_eq!(out, "[Image src x cannot be decoded]");
    let png = red_pixel_png();
    let cut = png[..20].to_vec();
    let out2 = get_image("y", GraphicsProtocol::ITerm, Fetched::Bytes(cut));
    assert_eq!(out2, "[Image src y cannot be decoded]");
}

#[test]
fn fetch_failures_give_placeholders() {
    assert_eq!(
        get_image("u", GraphicsProtocol::ITerm, Fetched::SendFailed),
        "[Image src u fetch failed]"
    );
    assert_eq!(
        get_image("u", GraphicsProtocol::Kitty, Fetched::ReadFailed),
        "[Image src u read bytes failed]"
    );
}

#[test]
fn disabled_protocol_ignores_bytes() {
    let out = get_image("z", GraphicsProtocol::Disabled, Fetched::Bytes(red_pixel_png()));
    assert_eq!(out, "[Image src z]\n");
}

#[test]
fn sixel_has_no_encoder() {
    let out = get_image("s", GraphicsProtocol::Sixel, Fetched::Bytes(red_pixel_png()));
    assert_eq!(out, "[No sixel support in this build.]\n");
}
