//! Byte-level tests for the structural codec: packed fields, color tables,
//! error discrimination, and full decode/encode round trips.
use gif_codec::{
    decode_gif, encode_gif, Color, GCEPackedFields, GIFDataSubBlock, GIFError, IDPackedFields,
    LSDPackedFields,
};

#[test]
fn lsd_packed_field_roundtrip_all_bytes() {
    let mut b: u16 = 0;
    while b <= 255 {
        let fields = LSDPackedFields::from_byte(b as u8);
        assert_eq!(fields.to_byte(), b as u8);
        b += 1;
    }
}

#[test]
fn id_packed_field_roundtrip_all_bytes() {
    let mut b: u16 = 0;
    while b <= 255 {
        let fields = IDPackedFields::from_byte(b as u8);
        assert_eq!(fields.to_byte(), b as u8);
        b += 1;
    }
}

#[test]
fn gce_packed_field_roundtrip_all_bytes() {
    let mut b: u16 = 0;
    while b <= 255 {
        let fields = GCEPackedFields::from_byte(b as u8);
        assert_eq!(fields.to_byte(), b as u8);
        b += 1;
    }
}

#[test]
fn lsd_packed_field_layout() {
    let fields = LSDPackedFields::from_byte(0b1011_0101);
    assert!(fields.global_color_table_flag);
    assert_eq!(fields.color_resolution, 0b011);
    assert!(!fields.sort_flag);
    assert_eq!(fields.size_of_global_color_table, 0b101);
}

#[test]
fn id_packed_field_layout() {
    let fields = IDPackedFields::from_byte(0b1101_1010);
    assert!(fields.local_color_table_flag);
    assert!(fields.interlace_flag);
    assert!(!fields.sort_flag);
    assert_eq!(fields.reserved, 0b11);
    assert_eq!(fields.size_of_local_color_table, 0b010);
}

#[test]
fn gce_packed_field_layout() {
    let fields = GCEPackedFields::from_byte(0b1011_0110);
    assert_eq!(fields.reserved, 0b101);
    assert_eq!(fields.disposal_method, 0b101);
    assert!(fields.user_input_flag);
    assert!(!fields.transparent_color_flag);
}

fn header_and_descriptor(packed: u8) -> Vec<u8> {
    let mut bytes = vec![0x47, 0x49, 0x46, 0x38, 0x39, 0x61];
    bytes.extend_from_slice(&[0x02, 0x00, 0x02, 0x00, packed, 0x00, 0x00]);
    bytes
}

#[test]
fn global_color_table_length_per_size_field() {
    for n in 0u8..8 {
        let entries: usize = 1 << (n + 1);
        let mut bytes = header_and_descriptor(0x80 | n);
        for i in 0..entries {
            bytes.extend_from_slice(&[i as u8, 0x10, 0x20]);
        }
        bytes.push(0x3B);
        let gif = decode_gif(&bytes).expect("stream should decode");
        let table = gif.global_color_table.expect("table should be present");
        assert_eq!(table.colors.len(), entries);
    }
}

#[test]
fn wrong_signature_byte_is_invalid_signature() {
    let bytes = vec![0x47, 0x49, 0x58, 0x38, 0x39, 0x61];
    assert_eq!(decode_gif(&bytes), Err(GIFError::InvalidSignature));
}

#[test]
fn unknown_separator_is_invalid_separator() {
    let mut bytes = header_and_descriptor(0x00);
    bytes.push(0x99);
    assert_eq!(decode_gif(&bytes), Err(GIFError::InvalidSeparator));
}

#[test]
fn unknown_extension_label_is_invalid_label() {
    let mut bytes = header_and_descriptor(0x00);
    bytes.extend_from_slice(&[0x21, 0x77]);
    assert_eq!(decode_gif(&bytes), Err(GIFError::InvalidExtensionLabel));
}

#[test]
fn truncated_screen_descriptor_is_truncated_input() {
    let bytes = vec![0x47, 0x49, 0x46, 0x38, 0x39, 0x61, 0x02, 0x00];
    assert_eq!(decode_gif(&bytes), Err(GIFError::TruncatedInput));
}

#[test]
fn truncated_header_is_truncated_input() {
    let bytes = vec![0x47, 0x49, 0x46];
    assert_eq!(decode_gif(&bytes), Err(GIFError::TruncatedInput));
}

#[test]
fn empty_input_is_truncated_input() {
    let bytes: Vec<u8> = Vec::new();
    assert_eq!(decode_gif(&bytes), Err(GIFError::TruncatedInput));
}

fn minimal_file() -> Vec<u8> {
    let mut bytes = header_and_descriptor(0x00);
    // One frame: descriptor with a 2-color local table, then a single
    // 1-byte sub-block and the chain terminator.
    bytes.push(0x2C);
    bytes.extend_from_slice(&[0x00, 0x00, 0x00, 0x00, 0x01, 0x00, 0x01, 0x00]);
    bytes.push(0x80);
    bytes.extend_from_slice(&[0x11, 0x22, 0x33, 0x44, 0x55, 0x66]);
    bytes.push(0x02);
    bytes.extend_from_slice(&[0x01, 0xAB, 0x00]);
    bytes.push(0x3B);
    bytes
}

#[test]
fn minimal_file_decodes_to_one_frame_with_one_sub_block() {
    let bytes = minimal_file();
    let gif = decode_gif(&bytes).expect("minimal file should decode");
    assert!(gif.global_color_table.is_none());
    assert_eq!(gif.images.len(), 1);
    let frame = &gif.images[0];
    let table = frame.local_color_table.as_ref().expect("local table");
    assert_eq!(table.colors.len(), 2);
    assert_eq!(table.colors[0], Color { red: 0x11, green: 0x22, blue: 0x33 });
    assert_eq!(frame.image_data.lzw_minimum_code_size, 0x02);
    assert_eq!(frame.image_data.sub_blocks.len(), 1);
    assert_eq!(frame.image_data.sub_blocks[0].size, 1);
    assert_eq!(frame.image_data.sub_blocks[0].data, vec![0xAB]);
    assert_eq!(gif.trailer.trailer, 0x3B);
}

#[test]
fn minimal_file_reencodes_to_identical_bytes() {
    let bytes = minimal_file();
    let gif = decode_gif(&bytes).expect("minimal file should decode");
    assert_eq!(encode_gif(gif), bytes);
}

#[test]
fn trailing_bytes_after_trailer_are_ignored() {
    let mut bytes = minimal_file();
    bytes.extend_from_slice(&[0xDE, 0xAD]);
    let gif = decode_gif(&bytes).expect("stream should decode");
    assert_eq!(gif.images.len(), 1);
}

#[test]
fn sub_block_to_bytes_is_length_prefixed() {
    let block = GIFDataSubBlock { size: 3, data: vec![0x0A, 0x0B, 0x0C] };
    assert_eq!(block.to_bytes(), vec![0x03, 0x0A, 0x0B, 0x0C]);
}
