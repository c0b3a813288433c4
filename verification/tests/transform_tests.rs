//! Tests over a container with every extension kind: full round trips,
//! extension field values, frame reversal and canvas resizing.
use gif_codec::{decode_gif, encode_gif, GIF};

fn two_frame_file() -> Vec<u8> {
    let mut b: Vec<u8> = Vec::new();
    // Header and screen descriptor with a 4-entry global color table.
    b.extend_from_slice(&[0x47, 0x49, 0x46, 0x38, 0x39, 0x61]);
    b.extend_from_slice(&[0x0A, 0x00, 0x0A, 0x00, 0x91, 0x00, 0x00]);
    b.extend_from_slice(&[
        0x00, 0x00, 0x00, 0xFF, 0x00, 0x00, 0x00, 0xFF, 0x00, 0xFF, 0xFF, 0xFF,
    ]);
    // First frame: all four extension kinds, then the image block.
    b.extend_from_slice(&[0x21, 0xF9, 0x04, 0x05, 0xF4, 0x01, 0x02, 0x00]);
    b.extend_from_slice(&[0x21, 0xFE, 0x02, 0x02, 0x68, 0x69, 0x01, 0x21, 0x00]);
    b.extend_from_slice(&[
        0x21, 0x01, 0x0C, 0x01, 0x00, 0x02, 0x00, 0x03, 0x00, 0x04, 0x00, 0x08, 0x08, 0x01, 0x00,
        0x02, 0x41, 0x42, 0x00,
    ]);
    b.extend_from_slice(&[
        0x21, 0xFF, 0x0B, 0x4E, 0x45, 0x54, 0x53, 0x43, 0x41, 0x50, 0x45, 0x32, 0x2E, 0x30, 0x03,
        0x01, 0x00, 0x00, 0x00,
    ]);
    b.extend_from_slice(&[
        0x2C, 0x00, 0x00, 0x00, 0x00, 0x02, 0x00, 0x02, 0x00, 0x00, 0x02, 0x02, 0x4C, 0x01, 0x00,
    ]);
    // Second frame: a 4-entry local color table, no extensions.
    b.extend_from_slice(&[0x2C, 0x01, 0x00, 0x01, 0x00, 0x02, 0x00, 0x02, 0x00, 0x81]);
    b.extend_from_slice(&[
        0x10, 0x11, 0x12, 0x20, 0x21, 0x22, 0x30, 0x31, 0x32, 0x40, 0x41, 0x42,
    ]);
    b.extend_from_slice(&[0x02, 0x01, 0x44, 0x00]);
    b.push(0x3B);
    b
}

fn decoded() -> GIF {
    decode_gif(&two_frame_file()).expect("stream should decode")
}

#[test]
fn extensions_decode_with_their_fields() {
    let gif = decoded();
    assert_eq!(gif.images.len(), 2);
    let first = &gif.images[0];

    let gce = first.graphic_control_extension.as_ref().expect("graphic control");
    assert_eq!(gce.block_size, 4);
    assert_eq!(gce.delay_time, 500);
    assert_eq!(gce.transparent_color_index, 2);
    assert_eq!(gce.packed_fields.disposal_method, 1);
    assert!(gce.packed_fields.transparent_color_flag);
    assert!(!gce.packed_fields.user_input_flag);

    let comment = first.comment_extension.as_ref().expect("comment");
    assert_eq!(comment.comment_data.len(), 2);
    assert_eq!(comment.comment_data[0].data, vec![0x68, 0x69]);
    assert_eq!(comment.comment_data[1].data, vec![0x21]);

    let text = first.plain_text_extension.as_ref().expect("plain text");
    assert_eq!(text.text_grid_left_position, 1);
    assert_eq!(text.text_grid_top_position, 2);
    assert_eq!(text.text_grid_width, 3);
    assert_eq!(text.text_grid_height, 4);
    assert_eq!(text.character_cell_width, 8);
    assert_eq!(text.text_data.len(), 1);
    assert_eq!(text.text_data[0].data, vec![0x41, 0x42]);

    let app = first.application_extension.as_ref().expect("application");
    assert_eq!(app.block_size, 0x0B);
    assert_eq!(&app.application_identifier, b"NETSCAPE");
    assert_eq!(&app.application_authentication_code, b"2.0");
    assert_eq!(app.application_data.len(), 1);
    assert_eq!(app.application_data[0].data, vec![0x01, 0x00, 0x00]);

    let second = &gif.images[1];
    assert!(second.graphic_control_extension.is_none());
    let table = second.local_color_table.as_ref().expect("local table");
    assert_eq!(table.colors.len(), 4);
}

#[test]
fn encode_reproduces_the_source_bytes() {
    let bytes = two_frame_file();
    let gif = decode_gif(&bytes).expect("stream should decode");
    assert_eq!(encode_gif(gif), bytes);
}

#[test]
fn decode_encode_roundtrip_is_identity() {
    let gif = decoded();
    let reencoded = encode_gif(gif.clone());
    let again = decode_gif(&reencoded).expect("re-encoded stream should decode");
    assert_eq!(again, gif);
}

#[test]
fn reverse_reverses_the_frame_order() {
    let gif = decoded();
    let rev = gif.reverse();
    assert_eq!(rev.images.len(), 2);
    assert_eq!(rev.images[0], gif.images[1]);
    assert_eq!(rev.images[1], gif.images[0]);
    assert_eq!(rev.header, gif.header);
    assert_eq!(rev.logical_screen_descriptor, gif.logical_screen_descriptor);
    assert_eq!(rev.global_color_table, gif.global_color_table);
    assert_eq!(rev.trailer, gif.trailer);
}

#[test]
fn reverse_twice_is_identity() {
    let gif = decoded();
    assert_eq!(gif.reverse().reverse(), gif);
}

#[test]
fn reversed_container_still_roundtrips() {
    let rev = decoded().reverse();
    let bytes = encode_gif(rev.clone());
    let again = decode_gif(&bytes).expect("reversed stream should decode");
    assert_eq!(again, rev);
}

#[test]
fn resize_rewrites_only_the_canvas_dimensions() {
    let gif = decoded();
    let resized = gif.resize(640, 480);
    assert_eq!(resized.logical_screen_descriptor.width, 640);
    assert_eq!(resized.logical_screen_descriptor.height, 480);
    assert_eq!(
        resized.logical_screen_descriptor.packed_fields,
        gif.logical_screen_descriptor.packed_fields
    );
    assert_eq!(
        resized.logical_screen_descriptor.background_color_index,
        gif.logical_screen_descriptor.background_color_index
    );
    assert_eq!(
        resized.logical_screen_descriptor.pixel_aspect_ratio,
        gif.logical_screen_descriptor.pixel_aspect_ratio
    );
    assert_eq!(resized.header, gif.header);
    assert_eq!(resized.global_color_table, gif.global_color_table);
    assert_eq!(resized.images, gif.images);
    assert_eq!(resized.trailer, gif.trailer);
}

#[test]
fn zero_frame_file_roundtrips() {
    let bytes = vec![
        0x47, 0x49, 0x46, 0x38, 0x37, 0x61, 0x01, 0x00, 0x01, 0x00, 0x00, 0x00, 0x00, 0x3B,
    ];
    let gif = decode_gif(&bytes).expect("stream should decode");
    assert_eq!(gif.images.len(), 0);
    assert_eq!(gif.header.version, *b"87a");
    assert_eq!(encode_gif(gif), bytes);
}

#[test]
fn extensions_before_trailer_without_image_are_dropped() {
    // A graphic control extension directly followed by the trailer: the
    // unfinished frame is discarded and the stream still decodes.
    let mut bytes = vec![
        0x47, 0x49, 0x46, 0x38, 0x39, 0x61, 0x01, 0x00, 0x01, 0x00, 0x00, 0x00, 0x00,
    ];
    bytes.extend_from_slice(&[0x21, 0xF9, 0x04, 0x00, 0x00, 0x00, 0x00, 0x00]);
    bytes.push(0x3B);
    let gif = decode_gif(&bytes).expect("stream should decode");
    assert_eq!(gif.images.len(), 0);
}

#[test]
fn truncated_inside_sub_block_is_truncated_input() {
    let mut bytes = vec![
        0x47, 0x49, 0x46, 0x38, 0x39, 0x61, 0x01, 0x00, 0x01, 0x00, 0x00, 0x00, 0x00,
    ];
    // Image block whose sub-block declares 5 bytes but only 2 follow.
    bytes.extend_from_slice(&[
        0x2C, 0x00, 0x00, 0x00, 0x00, 0x01, 0x00, 0x01, 0x00, 0x00, 0x02, 0x05, 0xAA, 0xBB,
    ]);
    assert_eq!(decode_gif(&bytes), Err(gif_codec::GIFError::TruncatedInput));
}

#[test]
fn gce_block_terminator_is_stored_as_found() {
    // The graphic-control terminator byte is carried verbatim, whatever
    // its value, and written back as stored.
    let mut bytes = vec![
        0x47, 0x49, 0x46, 0x38, 0x39, 0x61, 0x01, 0x00, 0x01, 0x00, 0x00, 0x00, 0x00,
    ];
    bytes.extend_from_slice(&[0x21, 0xF9, 0x04, 0x00, 0x0A, 0x00, 0x00, 0x07]);
    bytes.extend_from_slice(&[
        0x2C, 0x00, 0x00, 0x00, 0x00, 0x01, 0x00, 0x01, 0x00, 0x00, 0x02, 0x01, 0x55, 0x00,
    ]);
    bytes.push(0x3B);
    let gif = decode_gif(&bytes).expect("stream should decode");
    let gce = gif.images[0].graphic_control_extension.as_ref().expect("graphic control");
    assert_eq!(gce.block_terminator, 0x07);
    assert_eq!(encode_gif(gif), bytes);
}

#[test]
fn comment_block_size_does_not_bound_the_chain() {
    // The comment's block-size byte is carried for fidelity but the chain
    // runs until its zero terminator regardless.
    let mut bytes = vec![
        0x47, 0x49, 0x46, 0x38, 0x39, 0x61, 0x01, 0x00, 0x01, 0x00, 0x00, 0x00, 0x00,
    ];
    bytes.extend_from_slice(&[0x21, 0xFE, 0x55, 0x03, 0x61, 0x62, 0x63, 0x01, 0x64, 0x00]);
    bytes.extend_from_slice(&[
        0x2C, 0x00, 0x00, 0x00, 0x00, 0x01, 0x00, 0x01, 0x00, 0x00, 0x02, 0x01, 0x55, 0x00,
    ]);
    bytes.push(0x3B);
    let gif = decode_gif(&bytes).expect("stream should decode");
    let comment = gif.images[0].comment_extension.as_ref().expect("comment");
    assert_eq!(comment.block_size, 0x55);
    assert_eq!(comment.comment_data.len(), 2);
    assert_eq!(comment.comment_data[0].data, vec![0x61, 0x62, 0x63]);
    assert_eq!(comment.comment_data[1].data, vec![0x64]);
    assert_eq!(encode_gif(gif), bytes);
}
