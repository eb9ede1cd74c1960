use openjudge_cli::inline_image::{encode_decoded, inline_file_frame};
use openjudge_cli::{DecodedImage, GraphicsProtocol, ImageFailure, ProtocolError};

#[test]
fn unknown_format_placeholder() {
    let out = encode_decoded("f.bin", GraphicsProtocol::Kitty, Err(ImageFailure::UnknownFormat));
    assert_eq!(out, "[Image src f.bin cannot guess format]");
}

#[test]
fn inconsistent_pixels_cannot_become_png() {
    let img = DecodedImage { width: 4, height: 4, pixels: vec![0, 0, 0] };
    let out = encode_decoded("t.png", GraphicsProtocol::ITerm, Ok(img));
    assert_eq!(out, "[Image src t.png cannot be encoded into iTerm inline image]");
}

#[test]
fn kitty_from_decoded_pixels() {
    let img = DecodedImage { width: 2, height: 1, pixels: vec![0, 0, 0, 255, 255, 255] };
    let out = encode_decoded("k.png", GraphicsProtocol::Kitty, Ok(img));
    assert_eq!(out, "\x1b_Gf=24,s=2,v=1,a=T;AAAA////\x1b\\");
}

#[test]
fn inline_file_frame_layout() {
    let out = inline_file_frame(640, 480, 1234, "QUJD");
    assert_eq!(
        out,
        "\x1b]1337;File=inline=1;size=1234;width=640px;height=480px;doNotMoveCursor=1:QUJD\x07"
    );
}

#[test]
fn sixel_refusal_message() {
    assert_eq!(
        ProtocolError::SixelUnavailable.message(),
        "Sixel output is not available in this build."
    );
}
