//! The round-trip theorem: decoding the encoding of any well-formed
//! container gives back exactly that container. The proof follows the
//! format's structure — one lemma per block kind relates the block's
//! serialized bytes to what the parsing model reads back from them, and
//! the top-level lemma composes them over a whole container.
use vstd::prelude::*;

use crate::decode::{
    empty_slots, parse_blocks, parse_colors, parse_comment, parse_frame, parse_frames, parse_gce,
    parse_application, parse_image, parse_plain_text, spec_decode, spec_decode_body,
};
use crate::encode::{
    ser_block, ser_blocks, ser_color, ser_colors, ser_frame, ser_frames, ser_gce, ser_gif, ser_image_descriptor,
    ser_application, ser_comment, ser_lsd, ser_opt_application, ser_opt_colors, ser_opt_comment,
    ser_opt_gce, ser_opt_plain_text, ser_plain_text,
};
use crate::packed::{
    lemma_gce_field_roundtrip, lemma_id_field_roundtrip, lemma_lsd_field_roundtrip,
    lemma_u16_le_roundtrip, ser_u16, u16_le,
};
use crate::types::{
    Color, CommentView, ExtSlots, FrameView, GIFView, HeaderView, SubBlockView, Trailer,
    color_count, spec_signature, wf_application, wf_blocks, wf_comment, wf_frame, wf_gce,
    wf_gif, wf_plain_text,
};
use crate::types::{GCEPackedFields, IDPackedFields, LSDPackedFields};
use crate::types::{ApplicationView, ImageDataView, ImageDescriptor, PlainTextView};

verus! {

// ---------------------------------------------------------------------------
// Sequence bookkeeping.
// ---------------------------------------------------------------------------

/// Where the bytes from `pos` match a concatenation, they match each part
/// in place.
proof fn lemma_split_match(s: Seq<u8>, pos: int, a: Seq<u8>, b: Seq<u8>)
    requires
        0 <= pos,
        pos + a.len() + b.len() <= s.len(),
        s.subrange(pos, pos + a.len() + b.len()) == a + b,
    ensures
        s.subrange(pos, pos + a.len()) == a,
        s.subrange(pos + a.len(), pos + a.len() + b.len()) == b,
{
    assert forall|k: int| 0 <= k < a.len() implies s.subrange(pos, pos + a.len())[k] == a[k] by {
        assert(s.subrange(pos, pos + a.len() + b.len())[k] == (a + b)[k]);
    }
    assert(s.subrange(pos, pos + a.len()) =~= a);
    assert forall|k: int| 0 <= k < b.len() implies s.subrange(
        pos + a.len(),
        pos + a.len() + b.len(),
    )[k] == b[k] by {
        assert(s.subrange(pos + a.len(), pos + a.len() + b.len())[k] == s[pos + a.len() + k]);
        assert(s.subrange(pos, pos + a.len() + b.len())[a.len() + k] == s[pos + a.len() + k]);
        assert(s.subrange(pos, pos + a.len() + b.len())[a.len() + k] == (a + b)[a.len() + k]);
        assert((a + b)[a.len() + k] == b[k]);
    }
    assert(s.subrange(pos + a.len(), pos + a.len() + b.len()) =~= b);
}

/// Where the bytes from `pos` match a block, each byte of the block stands
/// at its offset.
proof fn lemma_byte_at(s: Seq<u8>, pos: int, a: Seq<u8>, k: int)
    requires
        0 <= pos,
        pos + a.len() <= s.len(),
        s.subrange(pos, pos + a.len()) == a,
        0 <= k < a.len(),
    ensures
        s[pos + k] == a[k],
{
    assert(s.subrange(pos, pos + a.len())[k] == a[k]);
}

/// A serialized color table takes three bytes per entry.
proof fn lemma_ser_colors_len(cs: Seq<Color>)
    ensures
        ser_colors(cs).len() == 3 * cs.len(),
    decreases cs.len(),
{
    if cs.len() != 0 {
        lemma_ser_colors_len(cs.drop_first());
    }
}

// ---------------------------------------------------------------------------
// Per-block round trips.
// ---------------------------------------------------------------------------

/// Parsing the serialization of a color table reads back exactly its
/// entries.
proof fn lemma_colors_roundtrip(s: Seq<u8>, pos: int, cs: Seq<Color>, acc: Seq<Color>)
    requires
        0 <= pos,
        pos + 3 * cs.len() <= s.len(),
        s.subrange(pos, pos + 3 * cs.len()) == ser_colors(cs),
    ensures
        parse_colors(s, pos, cs.len() as nat, acc) == Ok::<_, crate::types::GIFError>(
            (acc + cs, pos + 3 * cs.len()),
        ),
    decreases cs.len(),
{
    lemma_ser_colors_len(cs);
    if cs.len() == 0 {
        assert(acc + cs =~= acc);
    } else {
        let c = cs[0];
        let rest = cs.drop_first();
        lemma_ser_colors_len(rest);
        assert(ser_colors(cs) == ser_color(c) + ser_colors(rest));
        lemma_split_match(s, pos, ser_color(c), ser_colors(rest));
        lemma_byte_at(s, pos, ser_color(c), 0);
        lemma_byte_at(s, pos, ser_color(c), 1);
        lemma_byte_at(s, pos, ser_color(c), 2);
        assert(Color { red: s[pos], green: s[pos + 1], blue: s[pos + 2] } == c);
        lemma_colors_roundtrip(s, pos + 3, rest, acc.push(c));
        assert(acc.push(c) + rest =~= acc + cs);
    }
}

/// Parsing the serialization of a well-formed sub-block chain, followed by
/// its terminating zero byte, reads back exactly its chunks and consumes
/// the terminator.
proof fn lemma_blocks_roundtrip(s: Seq<u8>, pos: int, bs: Seq<SubBlockView>, acc: Seq<SubBlockView>)
    requires
        0 <= pos,
        wf_blocks(bs),
        pos + ser_blocks(bs).len() + 1 <= s.len(),
        s.subrange(pos, pos + ser_blocks(bs).len() + 1) == ser_blocks(bs) + seq![0u8],
    ensures
        parse_blocks(s, pos, acc) == Ok::<_, crate::types::GIFError>(
            (acc + bs, pos + ser_blocks(bs).len() + 1),
        ),
    decreases bs.len(),
{
    let l0 = ser_blocks(bs).len();
    lemma_split_match(s, pos, ser_blocks(bs), seq![0u8]);
    lemma_byte_at(s, pos + l0, seq![0u8], 0);
    if bs.len() == 0 {
        assert(s[pos] == 0);
        assert(acc + bs =~= acc);
    } else {
        let b = bs[0];
        let rest = bs.drop_first();
        let lr = ser_blocks(rest).len();
        assert(b.size != 0 && b.data.len() == b.size);
        assert(ser_blocks(bs) == ser_block(b) + ser_blocks(rest));
        assert(l0 == 1 + b.data.len() + lr);
        lemma_split_match(s, pos, ser_block(b), ser_blocks(rest));
        lemma_split_match(s, pos, seq![b.size], b.data);
        lemma_byte_at(s, pos, seq![b.size], 0);
        assert(s[pos] == b.size);
        assert(s.subrange(pos + 1, pos + 1 + b.size) == b.data);
        assert(SubBlockView { size: b.size, data: s.subrange(pos + 1, pos + 1 + b.size) } == b);
        let pos2 = pos + 1 + b.size;
        // The remaining bytes are the remaining chain and the terminator.
        assert forall|k: int| 0 <= k < lr + 1 implies s.subrange(pos2, pos2 + lr + 1)[k] == (
        ser_blocks(rest) + seq![0u8])[k] by {
            if k < lr {
                assert(s.subrange(pos2, pos2 + lr)[k] == ser_blocks(rest)[k]);
            } else {
                assert(s[pos + l0] == 0);
            }
        }
        assert(s.subrange(pos2, pos2 + lr + 1) =~= ser_blocks(rest) + seq![0u8]);
        lemma_blocks_roundtrip(s, pos2, rest, acc.push(b));
        assert(acc.push(b) + rest =~= acc + bs);
        assert(parse_blocks(s, pos, acc) == parse_blocks(s, pos2, acc.push(b)));
    }
}


// ---------------------------------------------------------------------------
// Extension round trips. Each serialized extension starts with its two
// introducer/label bytes; the parsing model takes over just past the label.
// ---------------------------------------------------------------------------

proof fn seq_assoc(a: Seq<u8>, b: Seq<u8>, c: Seq<u8>)
    ensures
        a + b + c == a + (b + c),
{
    assert(a + b + c =~= a + (b + c));
}

/// Parsing the serialization of a well-formed graphic control extension
/// reads back exactly that extension.
proof fn lemma_gce_roundtrip(s: Seq<u8>, pos: int, g: crate::types::GraphicControlExtension)
    requires
        wf_gce(g),
        0 <= pos,
        pos + 8 <= s.len(),
        s.subrange(pos, pos + 8) == ser_gce(g),
    ensures
        parse_gce(s, pos + 2) == Ok::<_, crate::types::GIFError>((g, pos + 8)),
{
    assert(ser_gce(g).len() == 8);
    lemma_byte_at(s, pos, ser_gce(g), 0);
    lemma_byte_at(s, pos, ser_gce(g), 1);
    lemma_byte_at(s, pos, ser_gce(g), 2);
    lemma_byte_at(s, pos, ser_gce(g), 3);
    lemma_byte_at(s, pos, ser_gce(g), 4);
    lemma_byte_at(s, pos, ser_gce(g), 5);
    lemma_byte_at(s, pos, ser_gce(g), 6);
    lemma_byte_at(s, pos, ser_gce(g), 7);
    assert(ser_gce(g)[2] == g.block_size);
    assert(ser_gce(g)[3] == g.packed_fields.spec_to_byte());
    assert(ser_gce(g)[4] == ser_u16(g.delay_time)[0] && ser_gce(g)[5] == ser_u16(g.delay_time)[1]);
    assert(ser_gce(g)[6] == g.transparent_color_index && ser_gce(g)[7] == g.block_terminator);
    lemma_u16_le_roundtrip(g.delay_time);
    lemma_gce_field_roundtrip(g.packed_fields);
    assert(parse_gce(s, pos + 2) == Ok::<_, crate::types::GIFError>((g, pos + 8)));
}

/// Parsing the serialization of a well-formed comment extension reads back
/// exactly that extension.
proof fn lemma_comment_roundtrip(s: Seq<u8>, pos: int, c: CommentView)
    requires
        wf_comment(c),
        0 <= pos,
        pos + ser_comment(c).len() <= s.len(),
        s.subrange(pos, pos + ser_comment(c).len()) == ser_comment(c),
    ensures
        parse_comment(s, pos + 2) == Ok::<_, crate::types::GIFError>(
            (c, pos + ser_comment(c).len()),
        ),
{
    let a = seq![c.extension_introducer, c.comment_label, c.block_size];
    let b = ser_blocks(c.comment_data);
    let t = seq![c.block_terminator];
    seq_assoc(a, b, t);
    assert(ser_comment(c) == a + (b + t));
    lemma_split_match(s, pos, a, b + t);
    lemma_byte_at(s, pos, a, 2);
    assert(t =~= seq![0u8]);
    lemma_blocks_roundtrip(s, pos + 3, c.comment_data, Seq::empty());
    assert(Seq::<SubBlockView>::empty() + c.comment_data =~= c.comment_data);
    assert(parse_comment(s, pos + 2) == Ok::<_, crate::types::GIFError>(
        (c, pos + ser_comment(c).len()),
    ));
}

/// Parsing the serialization of a well-formed plain text extension reads
/// back exactly that extension.
proof fn lemma_plain_text_roundtrip(s: Seq<u8>, pos: int, p: PlainTextView)
    requires
        wf_plain_text(p),
        0 <= pos,
        pos + ser_plain_text(p).len() <= s.len(),
        s.subrange(pos, pos + ser_plain_text(p).len()) == ser_plain_text(p),
    ensures
        parse_plain_text(s, pos + 2) == Ok::<_, crate::types::GIFError>(
            (p, pos + ser_plain_text(p).len()),
        ),
{
    let a = seq![p.extension_introducer, p.plain_text_label, p.block_size] + ser_u16(
        p.text_grid_left_position,
    ) + ser_u16(p.text_grid_top_position) + ser_u16(p.text_grid_width) + ser_u16(
        p.text_grid_height,
    ) + seq![
        p.character_cell_width,
        p.character_cell_height,
        p.text_foreground_color_index,
        p.text_background_color_index,
    ];
    let b = ser_blocks(p.text_data);
    let t = seq![p.block_terminator];
    assert(a.len() == 15);
    seq_assoc(a, b, t);
    assert(ser_plain_text(p) == a + (b + t));
    lemma_split_match(s, pos, a, b + t);
    lemma_byte_at(s, pos, a, 0);
    lemma_byte_at(s, pos, a, 1);
    lemma_byte_at(s, pos, a, 2);
    lemma_byte_at(s, pos, a, 3);
    lemma_byte_at(s, pos, a, 4);
    lemma_byte_at(s, pos, a, 5);
    lemma_byte_at(s, pos, a, 6);
    lemma_byte_at(s, pos, a, 7);
    lemma_byte_at(s, pos, a, 8);
    lemma_byte_at(s, pos, a, 9);
    lemma_byte_at(s, pos, a, 10);
    lemma_byte_at(s, pos, a, 11);
    lemma_byte_at(s, pos, a, 12);
    lemma_byte_at(s, pos, a, 13);
    lemma_byte_at(s, pos, a, 14);
    assert(a[3] == ser_u16(p.text_grid_left_position)[0] && a[4] == ser_u16(
        p.text_grid_left_position,
    )[1]);
    assert(a[5] == ser_u16(p.text_grid_top_position)[0] && a[6] == ser_u16(
        p.text_grid_top_position,
    )[1]);
    assert(a[7] == ser_u16(p.text_grid_width)[0] && a[8] == ser_u16(p.text_grid_width)[1]);
    assert(a[9] == ser_u16(p.text_grid_height)[0] && a[10] == ser_u16(p.text_grid_height)[1]);
    lemma_u16_le_roundtrip(p.text_grid_left_position);
    lemma_u16_le_roundtrip(p.text_grid_top_position);
    lemma_u16_le_roundtrip(p.text_grid_width);
    lemma_u16_le_roundtrip(p.text_grid_height);
    assert(t =~= seq![0u8]);
    lemma_blocks_roundtrip(s, pos + 15, p.text_data, Seq::empty());
    assert(Seq::<SubBlockView>::empty() + p.text_data =~= p.text_data);
    assert(parse_plain_text(s, pos + 2) == Ok::<_, crate::types::GIFError>(
        (p, pos + ser_plain_text(p).len()),
    ));
}

/// Parsing the serialization of a well-formed application extension reads
/// back exactly that extension.
proof fn lemma_application_roundtrip(s: Seq<u8>, pos: int, a: ApplicationView)
    requires
        wf_application(a),
        0 <= pos,
        pos + ser_application(a).len() <= s.len(),
        s.subrange(pos, pos + ser_application(a).len()) == ser_application(a),
    ensures
        parse_application(s, pos + 2) == Ok::<_, crate::types::GIFError>(
            (a, pos + ser_application(a).len()),
        ),
{
    let h = seq![a.extension_introducer, a.extension_label, a.block_size];
    let f = h + a.application_identifier + a.application_authentication_code;
    let b = ser_blocks(a.application_data);
    let t = seq![a.block_terminator];
    assert(f.len() == 14);
    seq_assoc(f, b, t);
    assert(ser_application(a) == f + (b + t));
    lemma_split_match(s, pos, f, b + t);
    lemma_byte_at(s, pos, f, 2);
    assert(f == h + a.application_identifier + a.application_authentication_code);
    seq_assoc(h, a.application_identifier, a.application_authentication_code);
    lemma_split_match(s, pos, h, a.application_identifier + a.application_authentication_code);
    lemma_split_match(s, pos + 3, a.application_identifier, a.application_authentication_code);
    assert(s.subrange(pos + 3, pos + 11) == a.application_identifier);
    assert(s.subrange(pos + 11, pos + 14) == a.application_authentication_code);
    assert(t =~= seq![0u8]);
    lemma_blocks_roundtrip(s, pos + 14, a.application_data, Seq::empty());
    assert(Seq::<SubBlockView>::empty() + a.application_data =~= a.application_data);
    assert(parse_application(s, pos + 2) == Ok::<_, crate::types::GIFError>(
        (a, pos + ser_application(a).len()),
    ));
}


// ---------------------------------------------------------------------------
// Frame round trips.
// ---------------------------------------------------------------------------

/// The bytes of a frame's image block: descriptor, optional local color
/// table, code-size byte, pixel sub-block chain, terminator.
pub open spec fn ser_image_part(f: FrameView) -> Seq<u8> {
    ser_image_descriptor(f.image_descriptor) + ser_opt_colors(f.local_color_table) + seq![
        f.image_data.lzw_minimum_code_size,
    ] + ser_blocks(f.image_data.sub_blocks) + seq![0u8]
}

/// The extension slots a frame's own extensions fill.
pub open spec fn frame_slots(f: FrameView) -> ExtSlots {
    ExtSlots {
        graphic_control_extension: f.graphic_control_extension,
        comment_extension: f.comment_extension,
        plain_text_extension: f.plain_text_extension,
        application_extension: f.application_extension,
    }
}

/// Parsing the serialization of a well-formed frame's image block, with
/// the frame's own extensions already gathered, reads back exactly that
/// frame.
proof fn lemma_image_roundtrip(s: Seq<u8>, pos: int, f: FrameView)
    requires
        wf_frame(f),
        0 <= pos,
        pos + ser_image_part(f).len() <= s.len(),
        s.subrange(pos, pos + ser_image_part(f).len()) == ser_image_part(f),
    ensures
        parse_image(s, pos + 1, frame_slots(f)) == Ok::<_, crate::types::GIFError>(
            (f, pos + ser_image_part(f).len()),
        ),
{
    let e = ser_image_descriptor(f.image_descriptor);
    let g = ser_opt_colors(f.local_color_table);
    let h = seq![f.image_data.lzw_minimum_code_size];
    let j = ser_blocks(f.image_data.sub_blocks);
    let k = seq![0u8];
    assert(e.len() == 10);
    lemma_split_match(s, pos, e + g + h + j, k);
    lemma_byte_at(s, pos + (e + g + h + j).len(), k, 0);
    lemma_split_match(s, pos, e + g + h, j);
    lemma_split_match(s, pos, e + g, h);
    lemma_byte_at(s, pos + (e + g).len(), h, 0);
    lemma_split_match(s, pos, e, g);
    lemma_byte_at(s, pos, e, 0);
    lemma_byte_at(s, pos, e, 1);
    lemma_byte_at(s, pos, e, 2);
    lemma_byte_at(s, pos, e, 3);
    lemma_byte_at(s, pos, e, 4);
    lemma_byte_at(s, pos, e, 5);
    lemma_byte_at(s, pos, e, 6);
    lemma_byte_at(s, pos, e, 7);
    lemma_byte_at(s, pos, e, 8);
    lemma_byte_at(s, pos, e, 9);
    let d = f.image_descriptor;
    assert(e[0] == d.separator && d.separator == 0x2C);
    assert(e[1] == ser_u16(d.left_position)[0] && e[2] == ser_u16(d.left_position)[1]);
    assert(e[3] == ser_u16(d.top_position)[0] && e[4] == ser_u16(d.top_position)[1]);
    assert(e[5] == ser_u16(d.width)[0] && e[6] == ser_u16(d.width)[1]);
    assert(e[7] == ser_u16(d.height)[0] && e[8] == ser_u16(d.height)[1]);
    assert(e[9] == d.packed_fields.spec_to_byte());
    lemma_u16_le_roundtrip(d.left_position);
    lemma_u16_le_roundtrip(d.top_position);
    lemma_u16_le_roundtrip(d.width);
    lemma_u16_le_roundtrip(d.height);
    lemma_id_field_roundtrip(d.packed_fields);
    let parsed_desc = ImageDescriptor {
        separator: 0x2C,
        left_position: u16_le(s[pos + 1], s[pos + 2]),
        top_position: u16_le(s[pos + 3], s[pos + 4]),
        width: u16_le(s[pos + 5], s[pos + 6]),
        height: u16_le(s[pos + 7], s[pos + 8]),
        packed_fields: IDPackedFields::spec_from_byte(s[pos + 9]),
    };
    assert(parsed_desc == d);
    let p2 = pos + 10 + g.len();
    // The optional local color table.
    match f.local_color_table {
        Some(t) => {
            assert(d.packed_fields.local_color_table_flag);
            assert(t.len() == color_count(d.packed_fields.size_of_local_color_table));
            lemma_ser_colors_len(t);
            assert(g == ser_colors(t));
            lemma_colors_roundtrip(s, pos + 10, t, Seq::empty());
            assert(Seq::<Color>::empty() + t =~= t);
            assert(parse_colors(
                s,
                pos + 10,
                color_count(d.packed_fields.size_of_local_color_table),
                Seq::empty(),
            ) == Ok::<_, crate::types::GIFError>((t, p2)));
        },
        None => {
            assert(!d.packed_fields.local_color_table_flag);
            assert(g.len() == 0);
        },
    }
    // The code-size byte and the pixel chain.
    assert(s[p2] == f.image_data.lzw_minimum_code_size);
    let lj = j.len();
    assert forall|x: int| 0 <= x < lj + 1 implies s.subrange(p2 + 1, p2 + 1 + lj + 1)[x] == (j
        + seq![0u8])[x] by {
        assert(s.subrange(p2 + 1, p2 + 1 + lj + 1)[x] == s[p2 + 1 + x]);
        if x < lj {
            assert(s.subrange(pos + (e + g + h).len(), pos + (e + g + h).len() + lj)[x] == j[x]);
        } else {
            assert(s[pos + (e + g + h + j).len()] == 0);
        }
    }
    assert(s.subrange(p2 + 1, p2 + 1 + lj + 1) =~= j + seq![0u8]);
    lemma_blocks_roundtrip(s, p2 + 1, f.image_data.sub_blocks, Seq::empty());
    assert(Seq::<SubBlockView>::empty() + f.image_data.sub_blocks =~= f.image_data.sub_blocks);
    // Assembling the frame gives back exactly the original.
    let parsed = FrameView {
        graphic_control_extension: f.graphic_control_extension,
        comment_extension: f.comment_extension,
        plain_text_extension: f.plain_text_extension,
        application_extension: f.application_extension,
        image_descriptor: parsed_desc,
        local_color_table: f.local_color_table,
        image_data: ImageDataView {
            lzw_minimum_code_size: s[p2],
            sub_blocks: f.image_data.sub_blocks,
        },
    };
    assert(parsed =~= f);
    assert(parse_image(s, pos + 1, frame_slots(f)) == Ok::<_, crate::types::GIFError>(
        (f, pos + ser_image_part(f).len()),
    ));
}

/// The serialized piece that the given extension slot contributes.
pub open spec fn stage_piece(f: FrameView, stage: int) -> Seq<u8> {
    if stage == 0 {
        ser_opt_gce(f.graphic_control_extension)
    } else if stage == 1 {
        ser_opt_comment(f.comment_extension)
    } else if stage == 2 {
        ser_opt_plain_text(f.plain_text_extension)
    } else {
        ser_opt_application(f.application_extension)
    }
}

/// A frame's bytes from the given extension slot on.
pub open spec fn ser_frame_from(f: FrameView, stage: int) -> Seq<u8>
    decreases 4 - stage,
{
    if stage >= 4 || stage < 0 {
        ser_image_part(f)
    } else {
        stage_piece(f, stage) + ser_frame_from(f, stage + 1)
    }
}

/// The slots filled once the walk has passed the given extension slot.
pub open spec fn slots_at(f: FrameView, stage: int) -> ExtSlots {
    ExtSlots {
        graphic_control_extension: if stage >= 1 {
            f.graphic_control_extension
        } else {
            None
        },
        comment_extension: if stage >= 2 {
            f.comment_extension
        } else {
            None
        },
        plain_text_extension: if stage >= 3 {
            f.plain_text_extension
        } else {
            None
        },
        application_extension: if stage >= 4 {
            f.application_extension
        } else {
            None
        },
    }
}

/// A whole serialized frame is its bytes from the first slot on.
proof fn lemma_ser_frame_from_zero(f: FrameView)
    ensures
        ser_frame(f) == ser_frame_from(f, 0),
{
    let a = ser_opt_gce(f.graphic_control_extension);
    let b = ser_opt_comment(f.comment_extension);
    let c = ser_opt_plain_text(f.plain_text_extension);
    let d = ser_opt_application(f.application_extension);
    let e = ser_image_descriptor(f.image_descriptor);
    let g = ser_opt_colors(f.local_color_table);
    let h = seq![f.image_data.lzw_minimum_code_size];
    let j = ser_blocks(f.image_data.sub_blocks);
    let k = seq![0u8];
    let q = a + b + c + d;
    seq_assoc(q, e, g);
    seq_assoc(q, e + g, h);
    seq_assoc(q, e + g + h, j);
    seq_assoc(q, e + g + h + j, k);
    assert(ser_frame(f) == q + ser_image_part(f));
    let i = ser_image_part(f);
    seq_assoc(a + b, c, d);
    seq_assoc(a + b, c + d, i);
    seq_assoc(a, b, (c + d) + i);
    seq_assoc(c, d, i);
    assert(q + i == a + (b + (c + (d + i))));
    assert(ser_frame_from(f, 4) == ser_image_part(f));
    assert(ser_frame_from(f, 3) == d + i);
    assert(ser_frame_from(f, 2) == c + (d + i));
    assert(ser_frame_from(f, 1) == b + (c + (d + i)));
    assert(ser_frame_from(f, 0) == a + (b + (c + (d + i))));
}


/// Parsing a well-formed frame's bytes from any extension slot on, with
/// the earlier slots already gathered, reads back exactly that frame.
proof fn lemma_frame_roundtrip(s: Seq<u8>, pos: int, f: FrameView, stage: int)
    requires
        wf_frame(f),
        0 <= stage <= 4,
        0 <= pos,
        pos + ser_frame_from(f, stage).len() <= s.len(),
        s.subrange(pos, pos + ser_frame_from(f, stage).len()) == ser_frame_from(f, stage),
    ensures
        parse_frame(s, pos, slots_at(f, stage)) == Ok::<_, crate::types::GIFError>(
            (Some(f), pos + ser_frame_from(f, stage).len()),
        ),
    decreases 4 - stage,
{
    if stage == 4 {
        assert(ser_frame_from(f, 4) == ser_image_part(f));
        let e = ser_image_descriptor(f.image_descriptor);
        assert(e.len() == 10);
        assert(ser_image_part(f)[0] == e[0]);
        assert(e[0] == f.image_descriptor.separator);
        lemma_byte_at(s, pos, ser_image_part(f), 0);
        assert(s[pos] == 0x2C);
        assert(slots_at(f, 4) == frame_slots(f));
        lemma_image_roundtrip(s, pos, f);
    } else {
        let piece = stage_piece(f, stage);
        let rest = ser_frame_from(f, stage + 1);
        assert(ser_frame_from(f, stage) == piece + rest);
        if stage == 0 {
            match f.graphic_control_extension {
                None => {
                    assert(piece + rest =~= rest);
                    assert(slots_at(f, 0) == slots_at(f, 1));
                    lemma_frame_roundtrip(s, pos, f, 1);
                },
                Some(g) => {
                    assert(piece == ser_gce(g));
                    assert(piece.len() == 8);
                    lemma_split_match(s, pos, piece, rest);
                    lemma_byte_at(s, pos, piece, 0);
                    lemma_byte_at(s, pos, piece, 1);
                    assert(s[pos] == 0x21 && s[pos + 1] == 0xF9);
                    lemma_gce_roundtrip(s, pos, g);
                    lemma_frame_roundtrip(s, pos + 8, f, 1);
                    assert(ExtSlots { graphic_control_extension: Some(g), ..slots_at(f, 0) }
                        == slots_at(f, 1));
                },
            }
        } else if stage == 1 {
            match f.comment_extension {
                None => {
                    assert(piece + rest =~= rest);
                    assert(slots_at(f, 1) == slots_at(f, 2));
                    lemma_frame_roundtrip(s, pos, f, 2);
                },
                Some(c) => {
                    assert(piece == ser_comment(c));
                    assert(piece.len() == 4 + ser_blocks(c.comment_data).len());
                    lemma_split_match(s, pos, piece, rest);
                    lemma_byte_at(s, pos, piece, 0);
                    lemma_byte_at(s, pos, piece, 1);
                    assert(piece[0] == 0x21 && piece[1] == 0xFE);
                    lemma_comment_roundtrip(s, pos, c);
                    lemma_frame_roundtrip(s, pos + piece.len(), f, 2);
                    assert(ExtSlots { comment_extension: Some(c), ..slots_at(f, 1) } == slots_at(
                        f,
                        2,
                    ));
                },
            }
        } else if stage == 2 {
            match f.plain_text_extension {
                None => {
                    assert(piece + rest =~= rest);
                    assert(slots_at(f, 2) == slots_at(f, 3));
                    lemma_frame_roundtrip(s, pos, f, 3);
                },
                Some(p) => {
                    assert(piece == ser_plain_text(p));
                    assert(piece.len() == 16 + ser_blocks(p.text_data).len());
                    lemma_split_match(s, pos, piece, rest);
                    lemma_byte_at(s, pos, piece, 0);
                    lemma_byte_at(s, pos, piece, 1);
                    assert(piece[0] == 0x21 && piece[1] == 0x01);
                    lemma_plain_text_roundtrip(s, pos, p);
                    lemma_frame_roundtrip(s, pos + piece.len(), f, 3);
                    assert(ExtSlots { plain_text_extension: Some(p), ..slots_at(f, 2) }
                        == slots_at(f, 3));
                },
            }
        } else {
            match f.application_extension {
                None => {
                    assert(piece + rest =~= rest);
                    assert(slots_at(f, 3) == slots_at(f, 4));
                    lemma_frame_roundtrip(s, pos, f, 4);
                },
                Some(a) => {
                    assert(piece == ser_application(a));
                    assert(piece.len() == 15 + ser_blocks(a.application_data).len());
                    lemma_split_match(s, pos, piece, rest);
                    lemma_byte_at(s, pos, piece, 0);
                    lemma_byte_at(s, pos, piece, 1);
                    assert(piece[0] == 0x21 && piece[1] == 0xFF);
                    lemma_application_roundtrip(s, pos, a);
                    lemma_frame_roundtrip(s, pos + piece.len(), f, 4);
                    assert(ExtSlots { application_extension: Some(a), ..slots_at(f, 3) }
                        == slots_at(f, 4));
                },
            }
        }
    }
}

/// Parsing the serialization of well-formed frames followed by the trailer
/// byte reads back exactly those frames and consumes the trailer.
proof fn lemma_frames_roundtrip(s: Seq<u8>, pos: int, fs: Seq<FrameView>, acc: Seq<FrameView>)
    requires
        forall|i: int| 0 <= i < fs.len() ==> wf_frame(#[trigger] fs[i]),
        0 <= pos,
        pos + ser_frames(fs).len() + 1 <= s.len(),
        s.subrange(pos, pos + ser_frames(fs).len() + 1) == ser_frames(fs) + seq![0x3Bu8],
    ensures
        parse_frames(s, pos, acc) == Ok::<_, crate::types::GIFError>(
            (acc + fs, pos + ser_frames(fs).len() + 1),
        ),
    decreases fs.len(),
{
    if fs.len() == 0 {
        lemma_byte_at(s, pos, ser_frames(fs) + seq![0x3Bu8], 0);
        assert(s[pos] == 0x3B);
        assert(acc + fs =~= acc);
    } else {
        let f = fs[0];
        let rest = fs.drop_first();
        assert(wf_frame(f));
        assert(ser_frames(fs) == ser_frame(f) + ser_frames(rest));
        seq_assoc(ser_frame(f), ser_frames(rest), seq![0x3Bu8]);
        lemma_split_match(s, pos, ser_frame(f), ser_frames(rest) + seq![0x3Bu8]);
        lemma_ser_frame_from_zero(f);
        assert(slots_at(f, 0) == empty_slots());
        lemma_frame_roundtrip(s, pos, f, 0);
        let l0 = ser_frame(f).len();
        assert(l0 >= 1);
        assert(forall|i: int| 0 <= i < rest.len() ==> wf_frame(#[trigger] rest[i]));
        lemma_frames_roundtrip(s, pos + l0, rest, acc.push(f));
        assert(acc.push(f) + rest =~= acc + fs);
        assert(parse_frames(s, pos, acc) == parse_frames(s, pos + l0, acc.push(f)));
    }
}

// ---------------------------------------------------------------------------
// The round-trip theorem.
// ---------------------------------------------------------------------------

/// Decoding the encoding of any well-formed container gives back exactly
/// that container: for every `c` with `wf_gif(c@)` — in particular, every
/// container a successful decode produced — `decode(encode(c))` succeeds
/// and returns `c`.
#[verifier::rlimit(100)]
pub proof fn lemma_decode_encode_roundtrip(v: GIFView)
    requires
        wf_gif(v),
    ensures
        spec_decode(ser_gif(v)) == Ok::<_, crate::types::GIFError>(v),
{
    let s = ser_gif(v);
    let sg = v.header.signature;
    let vr = v.header.version;
    let l = ser_lsd(v.logical_screen_descriptor);
    let g = ser_opt_colors(v.global_color_table);
    let fr = ser_frames(v.images);
    let t = seq![v.trailer.trailer];
    assert(sg.len() == 3 && vr.len() == 3 && l.len() == 7 && t.len() == 1);
    assert(s == sg + vr + l + g + fr + t);
    assert(s.subrange(0, s.len() as int) =~= s);
    lemma_split_match(s, 0, sg + vr + l + g + fr, t);
    lemma_byte_at(s, (sg + vr + l + g + fr).len() as int, t, 0);
    lemma_split_match(s, 0, sg + vr + l + g, fr);
    lemma_split_match(s, 0, sg + vr + l, g);
    lemma_split_match(s, 0, sg + vr, l);
    lemma_split_match(s, 0, sg, vr);
    // Header.
    assert(s.subrange(0, 3) == sg);
    assert(sg == spec_signature());
    assert(s.subrange(3, 6) == vr);
    let header = HeaderView { signature: s.subrange(0, 3), version: s.subrange(3, 6) };
    assert(header == v.header);
    // Screen descriptor.
    let d = v.logical_screen_descriptor;
    lemma_byte_at(s, 6, l, 0);
    lemma_byte_at(s, 6, l, 1);
    lemma_byte_at(s, 6, l, 2);
    lemma_byte_at(s, 6, l, 3);
    lemma_byte_at(s, 6, l, 4);
    lemma_byte_at(s, 6, l, 5);
    lemma_byte_at(s, 6, l, 6);
    assert(l[0] == ser_u16(d.width)[0] && l[1] == ser_u16(d.width)[1]);
    assert(l[2] == ser_u16(d.height)[0] && l[3] == ser_u16(d.height)[1]);
    assert(l[4] == d.packed_fields.spec_to_byte());
    assert(l[5] == d.background_color_index && l[6] == d.pixel_aspect_ratio);
    lemma_u16_le_roundtrip(d.width);
    lemma_u16_le_roundtrip(d.height);
    lemma_lsd_field_roundtrip(d.packed_fields);
    let lsd = crate::types::LogicalScreenDescriptor {
        width: u16_le(s[6], s[7]),
        height: u16_le(s[8], s[9]),
        packed_fields: LSDPackedFields::spec_from_byte(s[10]),
        background_color_index: s[11],
        pixel_aspect_ratio: s[12],
    };
    assert(lsd == d);
    // Global color table.
    let p1: int = 13 + g.len() as int;
    match v.global_color_table {
        Some(cs) => {
            assert(d.packed_fields.global_color_table_flag);
            assert(cs.len() == color_count(d.packed_fields.size_of_global_color_table));
            lemma_ser_colors_len(cs);
            assert(g == ser_colors(cs));
            lemma_colors_roundtrip(s, 13, cs, Seq::empty());
            assert(Seq::<Color>::empty() + cs =~= cs);
            assert(parse_colors(
                s,
                13,
                color_count(d.packed_fields.size_of_global_color_table),
                Seq::empty(),
            ) == Ok::<_, crate::types::GIFError>((cs, p1)));
        },
        None => {
            assert(!d.packed_fields.global_color_table_flag);
            assert(g.len() == 0);
        },
    }
    // Frames and trailer.
    let lf = fr.len();
    assert forall|x: int| 0 <= x < lf + 1 implies s.subrange(p1, p1 + lf + 1)[x] == (fr + seq![
        0x3Bu8,
    ])[x] by {
        assert(s.subrange(p1, p1 + lf + 1)[x] == s[p1 + x]);
        if x < lf {
            assert(s.subrange((sg + vr + l + g).len() as int, ((sg + vr + l + g).len() + lf) as int)[x]
                == fr[x]);
        } else {
            assert(s[(sg + vr + l + g + fr).len() as int] == v.trailer.trailer);
            assert(v.trailer.trailer == 0x3B);
        }
    }
    assert(s.subrange(p1, p1 + lf + 1) =~= fr + seq![0x3Bu8]);
    lemma_frames_roundtrip(s, p1, v.images, Seq::empty());
    assert(Seq::<FrameView>::empty() + v.images =~= v.images);
    // Assembly.
    let out = GIFView {
        header,
        logical_screen_descriptor: lsd,
        global_color_table: v.global_color_table,
        images: v.images,
        trailer: Trailer { trailer: 0x3B },
    };
    assert(out =~= v);
    assert(spec_decode(s) == Ok::<_, crate::types::GIFError>(v));
}

} // verus!
