//! The structural decoder: a strict forward walk over a byte sequence that
//! recognizes the header, the screen descriptor, the optional global color
//! table, every frame's extensions, descriptor, optional local color table
//! and pixel sub-block chain, and the trailer.
//!
//! The `parse_*` specification functions form a functional model of the
//! walk: each takes the byte sequence and a position and returns either the
//! parsed value with the position just past it, or the error the walk stops
//! with. [`decode_gif`] is proved to return exactly `spec_decode` of its
//! input, so every success, every failure and the choice of error are
//! pinned down for every input.
use vstd::prelude::*;

use crate::packed::u16_le;
use crate::types::{
    ApplicationExtension, ApplicationView, Color, CommentExtension, CommentView, ExtSlots,
    FrameView, GCEPackedFields, GIF, GIFDataSubBlock, GIFError, GIFHeader, GIFImage, GIFView,
    GlobalColorTable, GraphicControlExtension, HeaderView, IDPackedFields, ImageData,
    ImageDataView, ImageDescriptor, LSDPackedFields, LocalColorTable, LogicalScreenDescriptor,
    PlainTextExtension, PlainTextView, SubBlockView, Trailer, blocks_view, color_count,
    frames_view, spec_signature, view_opt_application, view_opt_comment,
    view_opt_frame, view_opt_global_colors, view_opt_plain_text, wf_application, wf_blocks, wf_comment, wf_frame, wf_gce,
    wf_gif, wf_plain_text,
};

verus! {

// ---------------------------------------------------------------------------
// Specification: a functional model of the decoding walk.
// ---------------------------------------------------------------------------

/// The slots an extension may already have filled when the walk reaches a
/// dispatch position inside a frame.
pub open spec fn empty_slots() -> ExtSlots {
    ExtSlots {
        graphic_control_extension: None,
        comment_extension: None,
        plain_text_extension: None,
        application_extension: None,
    }
}

pub open spec fn slots_view(
    gce: Option<GraphicControlExtension>,
    com: Option<CommentExtension>,
    pt: Option<PlainTextExtension>,
    app: Option<ApplicationExtension>,
) -> ExtSlots {
    ExtSlots {
        graphic_control_extension: gce,
        comment_extension: view_opt_comment(com),
        plain_text_extension: view_opt_plain_text(pt),
        application_extension: view_opt_application(app),
    }
}

/// Reads length-prefixed chunks until a zero length byte, which is consumed.
pub open spec fn parse_blocks(s: Seq<u8>, pos: int, acc: Seq<SubBlockView>) -> Result<
    (Seq<SubBlockView>, int),
    GIFError,
>
    decreases s.len() - pos,
{
    if pos < 0 || pos >= s.len() {
        Err(GIFError::TruncatedInput)
    } else {
        let size: u8 = s[pos];
        if size == 0 {
            Ok((acc, pos + 1))
        } else if pos + 1 + size > s.len() {
            Err(GIFError::TruncatedInput)
        } else {
            parse_blocks(
                s,
                pos + 1 + size,
                acc.push(SubBlockView { size, data: s.subrange(pos + 1, pos + 1 + size) }),
            )
        }
    }
}

/// Reads exactly `count` 3-byte RGB entries.
pub open spec fn parse_colors(s: Seq<u8>, pos: int, count: nat, acc: Seq<Color>) -> Result<
    (Seq<Color>, int),
    GIFError,
>
    decreases count,
{
    if count == 0 {
        Ok((acc, pos))
    } else if pos < 0 || pos + 3 > s.len() {
        Err(GIFError::TruncatedInput)
    } else {
        parse_colors(
            s,
            pos + 3,
            (count - 1) as nat,
            acc.push(Color { red: s[pos], green: s[pos + 1], blue: s[pos + 2] }),
        )
    }
}

/// A successful color-table parse returns exactly the entries asked for,
/// on top of what was gathered before.
pub proof fn lemma_parse_colors_len(s: Seq<u8>, pos: int, count: nat, acc: Seq<Color>)
    ensures
        forall|cs: Seq<Color>, p: int|
            parse_colors(s, pos, count, acc) == Ok::<_, GIFError>((cs, p)) ==> cs.len()
                == acc.len() + count,
    decreases count,
{
    if count != 0 && !(pos < 0 || pos + 3 > s.len()) {
        lemma_parse_colors_len(
            s,
            pos + 3,
            (count - 1) as nat,
            acc.push(Color { red: s[pos], green: s[pos + 1], blue: s[pos + 2] }),
        );
    }
}

/// The entry count a 3-bit size field declares is the power of two
/// `2^(n+1)`.
pub proof fn lemma_color_count_pow2(n: u8)
    requires
        n < 8,
    ensures
        color_count(n) == vstd::arithmetic::power2::pow2((n + 1) as nat),
{
    vstd::arithmetic::power2::lemma2_to64();
    assert(1u16 << 1u16 == 2 && 1u16 << 2u16 == 4 && 1u16 << 3u16 == 8 && 1u16 << 4u16 == 16
        && 1u16 << 5u16 == 32 && 1u16 << 6u16 == 64 && 1u16 << 7u16 == 128 && 1u16 << 8u16
        == 256) by (bit_vector);
    if n == 0 {
    } else if n == 1 {
    } else if n == 2 {
    } else if n == 3 {
    } else if n == 4 {
    } else if n == 5 {
    } else if n == 6 {
    } else {
        assert(n == 7);
    }
}

/// A color table parsed under size field `n` — global or local — has
/// exactly `2^(n+1)` entries.
pub proof fn lemma_color_table_length(s: Seq<u8>, pos: int, n: u8, cs: Seq<Color>, p: int)
    requires
        n < 8,
        parse_colors(s, pos, color_count(n), Seq::empty()) == Ok::<_, GIFError>((cs, p)),
    ensures
        cs.len() == vstd::arithmetic::power2::pow2((n + 1) as nat),
{
    lemma_parse_colors_len(s, pos, color_count(n), Seq::empty());
    lemma_color_count_pow2(n);
}

/// The fixed 6-byte graphic-control body, `pos` just past the label byte.
pub open spec fn parse_gce(s: Seq<u8>, pos: int) -> Result<(GraphicControlExtension, int), GIFError> {
    if pos < 0 || pos + 6 > s.len() {
        Err(GIFError::TruncatedInput)
    } else {
        Ok(
            (
                GraphicControlExtension {
                    extension_introducer: 0x21,
                    graphic_control_label: 0xF9,
                    block_size: s[pos],
                    packed_fields: GCEPackedFields::spec_from_byte(s[pos + 1]),
                    delay_time: u16_le(s[pos + 2], s[pos + 3]),
                    transparent_color_index: s[pos + 4],
                    block_terminator: s[pos + 5],
                },
                pos + 6,
            ),
        )
    }
}

/// A comment body: the block-size byte, then a sub-block chain.
pub open spec fn parse_comment(s: Seq<u8>, pos: int) -> Result<(CommentView, int), GIFError> {
    if pos < 0 || pos >= s.len() {
        Err(GIFError::TruncatedInput)
    } else {
        match parse_blocks(s, pos + 1, Seq::empty()) {
            Ok((bs, p)) => Ok(
                (
                    CommentView {
                        extension_introducer: 0x21,
                        comment_label: 0xFE,
                        block_size: s[pos],
                        comment_data: bs,
                        block_terminator: 0,
                    },
                    p,
                ),
            ),
            Err(e) => Err(e),
        }
    }
}

/// A plain-text body: 13 fixed bytes, then a sub-block chain.
pub open spec fn parse_plain_text(s: Seq<u8>, pos: int) -> Result<(PlainTextView, int), GIFError> {
    if pos < 0 || pos + 13 > s.len() {
        Err(GIFError::TruncatedInput)
    } else {
        match parse_blocks(s, pos + 13, Seq::empty()) {
            Ok((bs, p)) => Ok(
                (
                    PlainTextView {
                        extension_introducer: 0x21,
                        plain_text_label: 0x01,
                        block_size: s[pos],
                        text_grid_left_position: u16_le(s[pos + 1], s[pos + 2]),
                        text_grid_top_position: u16_le(s[pos + 3], s[pos + 4]),
                        text_grid_width: u16_le(s[pos + 5], s[pos + 6]),
                        text_grid_height: u16_le(s[pos + 7], s[pos + 8]),
                        character_cell_width: s[pos + 9],
                        character_cell_height: s[pos + 10],
                        text_foreground_color_index: s[pos + 11],
                        text_background_color_index: s[pos + 12],
                        text_data: bs,
                        block_terminator: 0,
                    },
                    p,
                ),
            ),
            Err(e) => Err(e),
        }
    }
}

/// An application body: 12 fixed bytes, then a sub-block chain.
pub open spec fn parse_application(s: Seq<u8>, pos: int) -> Result<(ApplicationView, int), GIFError> {
    if pos < 0 || pos + 12 > s.len() {
        Err(GIFError::TruncatedInput)
    } else {
        match parse_blocks(s, pos + 12, Seq::empty()) {
            Ok((bs, p)) => Ok(
                (
                    ApplicationView {
                        extension_introducer: 0x21,
                        extension_label: 0xFF,
                        block_size: s[pos],
                        application_identifier: s.subrange(pos + 1, pos + 9),
                        application_authentication_code: s.subrange(pos + 9, pos + 12),
                        application_data: bs,
                        block_terminator: 0,
                    },
                    p,
                ),
            ),
            Err(e) => Err(e),
        }
    }
}

/// The tail of an image block: the code-size byte and the pixel sub-block
/// chain; assembles the frame from the slots gathered so far.
pub open spec fn parse_image_data(
    s: Seq<u8>,
    pos: int,
    slots: ExtSlots,
    desc: ImageDescriptor,
    lct: Option<Seq<Color>>,
) -> Result<(FrameView, int), GIFError> {
    if pos < 0 || pos >= s.len() {
        Err(GIFError::TruncatedInput)
    } else {
        match parse_blocks(s, pos + 1, Seq::empty()) {
            Ok((bs, p)) => Ok(
                (
                    FrameView {
                        graphic_control_extension: slots.graphic_control_extension,
                        comment_extension: slots.comment_extension,
                        plain_text_extension: slots.plain_text_extension,
                        application_extension: slots.application_extension,
                        image_descriptor: desc,
                        local_color_table: lct,
                        image_data: ImageDataView {
                            lzw_minimum_code_size: s[pos],
                            sub_blocks: bs,
                        },
                    },
                    p,
                ),
            ),
            Err(e) => Err(e),
        }
    }
}

/// An image block, `pos` just past the `0x2C` separator: descriptor,
/// conditional local color table, then the image data.
pub open spec fn parse_image(s: Seq<u8>, pos: int, slots: ExtSlots) -> Result<
    (FrameView, int),
    GIFError,
> {
    if pos < 0 || pos + 9 > s.len() {
        Err(GIFError::TruncatedInput)
    } else {
        let desc = ImageDescriptor {
            separator: 0x2C,
            left_position: u16_le(s[pos], s[pos + 1]),
            top_position: u16_le(s[pos + 2], s[pos + 3]),
            width: u16_le(s[pos + 4], s[pos + 5]),
            height: u16_le(s[pos + 6], s[pos + 7]),
            packed_fields: IDPackedFields::spec_from_byte(s[pos + 8]),
        };
        if desc.packed_fields.local_color_table_flag {
            match parse_colors(
                s,
                pos + 9,
                color_count(desc.packed_fields.size_of_local_color_table),
                Seq::empty(),
            ) {
                Ok((cs, p)) => parse_image_data(s, p, slots, desc, Some(cs)),
                Err(e) => Err(e),
            }
        } else {
            parse_image_data(s, pos + 9, slots, desc, None)
        }
    }
}

/// One step of the block-dispatch state machine: reads a separator byte and
/// either ends the stream (`0x3B`, yielding no frame), completes a frame
/// (`0x2C`), gathers one extension (`0x21` and a known label) and goes on,
/// or stops with the error the byte calls for.
pub open spec fn parse_frame(s: Seq<u8>, pos: int, slots: ExtSlots) -> Result<
    (Option<FrameView>, int),
    GIFError,
>
    decreases s.len() - pos,
{
    if pos < 0 || pos >= s.len() {
        Err(GIFError::TruncatedInput)
    } else {
        let b: u8 = s[pos];
        if b == 0x3B {
            Ok((None, pos + 1))
        } else if b == 0x2C {
            match parse_image(s, pos + 1, slots) {
                Ok((f, p)) => Ok((Some(f), p)),
                Err(e) => Err(e),
            }
        } else if b == 0x21 {
            if pos + 1 >= s.len() {
                Err(GIFError::TruncatedInput)
            } else {
                let label: u8 = s[pos + 1];
                if label == 0xF9 {
                    match parse_gce(s, pos + 2) {
                        Ok((g, p)) => if p <= pos || p > s.len() {
                            Err(GIFError::TruncatedInput)
                        } else {
                            parse_frame(
                                s,
                                p,
                                ExtSlots { graphic_control_extension: Some(g), ..slots },
                            )
                        },
                        Err(e) => Err(e),
                    }
                } else if label == 0xFE {
                    match parse_comment(s, pos + 2) {
                        Ok((c, p)) => if p <= pos || p > s.len() {
                            Err(GIFError::TruncatedInput)
                        } else {
                            parse_frame(s, p, ExtSlots { comment_extension: Some(c), ..slots })
                        },
                        Err(e) => Err(e),
                    }
                } else if label == 0x01 {
                    match parse_plain_text(s, pos + 2) {
                        Ok((t, p)) => if p <= pos || p > s.len() {
                            Err(GIFError::TruncatedInput)
                        } else {
                            parse_frame(s, p, ExtSlots { plain_text_extension: Some(t), ..slots })
                        },
                        Err(e) => Err(e),
                    }
                } else if label == 0xFF {
                    match parse_application(s, pos + 2) {
                        Ok((a, p)) => if p <= pos || p > s.len() {
                            Err(GIFError::TruncatedInput)
                        } else {
                            parse_frame(s, p, ExtSlots { application_extension: Some(a), ..slots })
                        },
                        Err(e) => Err(e),
                    }
                } else {
                    Err(GIFError::InvalidExtensionLabel)
                }
            }
        } else {
            Err(GIFError::InvalidSeparator)
        }
    }
}

/// The frame loop: one `parse_frame` per frame until the trailer ends the
/// stream. Extensions gathered when the trailer comes are discarded with
/// the unfinished frame, as the walk never produced it.
pub open spec fn parse_frames(s: Seq<u8>, pos: int, acc: Seq<FrameView>) -> Result<
    (Seq<FrameView>, int),
    GIFError,
>
    decreases s.len() - pos,
{
    match parse_frame(s, pos, empty_slots()) {
        Ok((of, p)) => match of {
            None => Ok((acc, p)),
            Some(f) => if p <= pos || p > s.len() {
                Err(GIFError::TruncatedInput)
            } else {
                parse_frames(s, p, acc.push(f))
            },
        },
        Err(e) => Err(e),
    }
}

/// The frame loop and the final assembly, `pos` just past the global color
/// table (or the screen descriptor when there is none).
pub open spec fn spec_decode_body(
    s: Seq<u8>,
    header: HeaderView,
    lsd: LogicalScreenDescriptor,
    gct: Option<Seq<Color>>,
    pos: int,
) -> Result<GIFView, GIFError> {
    match parse_frames(s, pos, Seq::empty()) {
        Ok((frames, p)) => Ok(
            GIFView {
                header,
                logical_screen_descriptor: lsd,
                global_color_table: gct,
                images: frames,
                trailer: Trailer { trailer: 0x3B },
            },
        ),
        Err(e) => Err(e),
    }
}

/// The whole decoding walk over a byte sequence.
pub open spec fn spec_decode(s: Seq<u8>) -> Result<GIFView, GIFError> {
    if s.len() < 6 {
        Err(GIFError::TruncatedInput)
    } else if s.subrange(0, 3) != spec_signature() {
        Err(GIFError::InvalidSignature)
    } else if s.len() < 13 {
        Err(GIFError::TruncatedInput)
    } else {
        let header = HeaderView { signature: s.subrange(0, 3), version: s.subrange(3, 6) };
        let lsd = LogicalScreenDescriptor {
            width: u16_le(s[6], s[7]),
            height: u16_le(s[8], s[9]),
            packed_fields: LSDPackedFields::spec_from_byte(s[10]),
            background_color_index: s[11],
            pixel_aspect_ratio: s[12],
        };
        if lsd.packed_fields.global_color_table_flag {
            match parse_colors(
                s,
                13,
                color_count(lsd.packed_fields.size_of_global_color_table),
                Seq::empty(),
            ) {
                Ok((cs, p)) => spec_decode_body(s, header, lsd, Some(cs), p),
                Err(e) => Err(e),
            }
        } else {
            spec_decode_body(s, header, lsd, None, 13)
        }
    }
}

// ---------------------------------------------------------------------------
// Executable decoder.
// ---------------------------------------------------------------------------

/// The entry count that a 3-bit size field declares, as a machine integer.
fn table_len(n: u8) -> (r: usize)
    requires
        n < 8,
    ensures
        r as nat == color_count(n),
        r <= 256,
{
    proof {
        assert(n < 8 ==> (1usize << ((n + 1) as usize)) == (1u16 << ((n + 1) as u16)) as usize
            && (1u16 << ((n + 1) as u16)) as usize <= 256) by (bit_vector);
    }
    1usize << ((n as usize) + 1)
}

fn parse_subblock_chain(bytes: &Vec<u8>, pos: usize) -> (r: Result<
    (Vec<GIFDataSubBlock>, usize),
    GIFError,
>)
    ensures
        match r {
            Ok((v, p)) => pos < p && p <= bytes@.len() && parse_blocks(
                bytes@,
                pos as int,
                Seq::empty(),
            ) == Ok::<_, GIFError>((blocks_view(v@), p as int)) && wf_blocks(blocks_view(v@)),
            Err(e) => parse_blocks(bytes@, pos as int, Seq::empty()) == Err::<
                (Seq<SubBlockView>, int),
                _,
            >(e),
        },
{
    let ghost s = bytes@;
    let mut acc: Vec<GIFDataSubBlock> = Vec::new();
    proof {
        assert(blocks_view(acc@) =~= Seq::<SubBlockView>::empty());
    }
    let mut p: usize = pos;
    loop
        invariant
            pos <= p,
            parse_blocks(s, pos as int, Seq::empty()) == parse_blocks(
                s,
                p as int,
                blocks_view(acc@),
            ),
            wf_blocks(blocks_view(acc@)),
            s == bytes@,
        decreases s.len() - p,
    {
        if p >= bytes.len() {
            return Err(GIFError::TruncatedInput);
        }
        let size = bytes[p];
        if size == 0 {
            return Ok((acc, p + 1));
        }
        if bytes.len() - (p + 1) < size as usize {
            return Err(GIFError::TruncatedInput);
        }
        let mut data: Vec<u8> = Vec::new();
        let mut j: usize = 0;
        while j < size as usize
            invariant
                j <= size as usize,
                p as int + 1 + size as int <= s.len(),
                p < s.len(),
                s.len() <= usize::MAX,
                size == s[p as int],
                data@ == s.subrange(p as int + 1, p as int + 1 + j as int),
                s == bytes@,
            decreases size as usize - j,
        {
            data.push(bytes[p + 1 + j]);
            j += 1;
            proof {
                assert(data@ =~= s.subrange(p as int + 1, p as int + 1 + j as int));
            }
        }
        let ghost old_bv = blocks_view(acc@);
        let blk = GIFDataSubBlock { size, data };
        proof {
            let bv = SubBlockView { size, data: s.subrange(p as int + 1, p as int + 1 + size as int) };
            assert(blk@ == bv);
            assert(blocks_view(acc@.push(blk)) =~= old_bv.push(bv));
            assert(parse_blocks(s, p as int, old_bv) == parse_blocks(
                s,
                p as int + 1 + size as int,
                old_bv.push(bv),
            ));
            assert(wf_blocks(old_bv.push(bv)));
        }
        acc.push(blk);
        p = p + 1 + size as usize;
    }
}

fn parse_color_table(bytes: &Vec<u8>, pos: usize, count: usize) -> (r: Result<
    (Vec<Color>, usize),
    GIFError,
>)
    requires
        pos <= bytes@.len(),
    ensures
        match r {
            Ok((v, p)) => pos <= p && p <= bytes@.len() && v@.len() == count && parse_colors(
                bytes@,
                pos as int,
                count as nat,
                Seq::empty(),
            ) == Ok::<_, GIFError>((v@, p as int)),
            Err(e) => parse_colors(bytes@, pos as int, count as nat, Seq::empty()) == Err::<
                (Seq<Color>, int),
                _,
            >(e),
        },
{
    let ghost s = bytes@;
    let mut acc: Vec<Color> = Vec::new();
    let mut p: usize = pos;
    let mut i: usize = 0;
    while i < count
        invariant
            i <= count,
            pos <= p,
            p <= s.len(),
            acc@.len() == i,
            parse_colors(s, pos as int, count as nat, Seq::empty()) == parse_colors(
                s,
                p as int,
                (count - i) as nat,
                acc@,
            ),
            s == bytes@,
        decreases count - i,
    {
        if bytes.len() - p < 3 {
            return Err(GIFError::TruncatedInput);
        }
        let c = Color { red: bytes[p], green: bytes[p + 1], blue: bytes[p + 2] };
        proof {
            assert(parse_colors(s, p as int, (count - i) as nat, acc@) == parse_colors(
                s,
                p as int + 3,
                (count - i - 1) as nat,
                acc@.push(c),
            ));
        }
        acc.push(c);
        p = p + 3;
        i = i + 1;
    }
    Ok((acc, p))
}

fn parse_gce_ext(bytes: &Vec<u8>, pos: usize) -> (r: Result<
    (GraphicControlExtension, usize),
    GIFError,
>)
    ensures
        match r {
            Ok((g, p)) => pos < p && p <= bytes@.len() && parse_gce(bytes@, pos as int) == Ok::<
                _,
                GIFError,
            >((g, p as int)) && wf_gce(g),
            Err(e) => parse_gce(bytes@, pos as int) == Err::<(GraphicControlExtension, int), _>(e),
        },
{
    if bytes.len() < 6 || pos > bytes.len() - 6 {
        return Err(GIFError::TruncatedInput);
    }
    let g = GraphicControlExtension {
        extension_introducer: 0x21,
        graphic_control_label: 0xF9,
        block_size: bytes[pos],
        packed_fields: GCEPackedFields::from_byte(bytes[pos + 1]),
        delay_time: (bytes[pos + 2] as u16) | ((bytes[pos + 3] as u16) << 8),
        transparent_color_index: bytes[pos + 4],
        block_terminator: bytes[pos + 5],
    };
    Ok((g, pos + 6))
}

fn parse_comment_ext(bytes: &Vec<u8>, pos: usize) -> (r: Result<(CommentExtension, usize), GIFError>)
    ensures
        match r {
            Ok((c, p)) => pos < p && p <= bytes@.len() && parse_comment(bytes@, pos as int)
                == Ok::<_, GIFError>((c@, p as int)) && wf_comment(c@),
            Err(e) => parse_comment(bytes@, pos as int) == Err::<(CommentView, int), _>(e),
        },
{
    if pos >= bytes.len() {
        return Err(GIFError::TruncatedInput);
    }
    let block_size = bytes[pos];
    match parse_subblock_chain(bytes, pos + 1) {
        Ok((blocks, p)) => {
            let c = CommentExtension {
                extension_introducer: 0x21,
                comment_label: 0xFE,
                block_size,
                comment_data: blocks,
                block_terminator: 0,
            };
            Ok((c, p))
        },
        Err(e) => Err(e),
    }
}

fn parse_plain_text_ext(bytes: &Vec<u8>, pos: usize) -> (r: Result<
    (PlainTextExtension, usize),
    GIFError,
>)
    ensures
        match r {
            Ok((t, p)) => pos < p && p <= bytes@.len() && parse_plain_text(bytes@, pos as int)
                == Ok::<_, GIFError>((t@, p as int)) && wf_plain_text(t@),
            Err(e) => parse_plain_text(bytes@, pos as int) == Err::<(PlainTextView, int), _>(e),
        },
{
    if bytes.len() < 13 || pos > bytes.len() - 13 {
        return Err(GIFError::TruncatedInput);
    }
    let t = PlainTextExtension {
        extension_introducer: 0x21,
        plain_text_label: 0x01,
        block_size: bytes[pos],
        text_grid_left_position: (bytes[pos + 1] as u16) | ((bytes[pos + 2] as u16) << 8),
        text_grid_top_position: (bytes[pos + 3] as u16) | ((bytes[pos + 4] as u16) << 8),
        text_grid_width: (bytes[pos + 5] as u16) | ((bytes[pos + 6] as u16) << 8),
        text_grid_height: (bytes[pos + 7] as u16) | ((bytes[pos + 8] as u16) << 8),
        character_cell_width: bytes[pos + 9],
        character_cell_height: bytes[pos + 10],
        text_foreground_color_index: bytes[pos + 11],
        text_background_color_index: bytes[pos + 12],
        text_data: Vec::new(),
        block_terminator: 0,
    };
    match parse_subblock_chain(bytes, pos + 13) {
        Ok((blocks, p)) => {
            let t2 = PlainTextExtension { text_data: blocks, ..t };
            Ok((t2, p))
        },
        Err(e) => Err(e),
    }
}

fn parse_application_ext(bytes: &Vec<u8>, pos: usize) -> (r: Result<
    (ApplicationExtension, usize),
    GIFError,
>)
    ensures
        match r {
            Ok((a, p)) => pos < p && p <= bytes@.len() && parse_application(bytes@, pos as int)
                == Ok::<_, GIFError>((a@, p as int)) && wf_application(a@),
            Err(e) => parse_application(bytes@, pos as int) == Err::<(ApplicationView, int), _>(e),
        },
{
    if bytes.len() < 12 || pos > bytes.len() - 12 {
        return Err(GIFError::TruncatedInput);
    }
    let ident: [u8; 8] = [
        bytes[pos + 1],
        bytes[pos + 2],
        bytes[pos + 3],
        bytes[pos + 4],
        bytes[pos + 5],
        bytes[pos + 6],
        bytes[pos + 7],
        bytes[pos + 8],
    ];
    let auth: [u8; 3] = [bytes[pos + 9], bytes[pos + 10], bytes[pos + 11]];
    proof {
        assert(ident@ =~= bytes@.subrange(pos as int + 1, pos as int + 9));
        assert(auth@ =~= bytes@.subrange(pos as int + 9, pos as int + 12));
    }
    match parse_subblock_chain(bytes, pos + 12) {
        Ok((blocks, p)) => {
            let a = ApplicationExtension {
                extension_introducer: 0x21,
                extension_label: 0xFF,
                block_size: bytes[pos],
                application_identifier: ident,
                application_authentication_code: auth,
                application_data: blocks,
                block_terminator: 0,
            };
            Ok((a, p))
        },
        Err(e) => Err(e),
    }
}

/// Whether each slot gathered so far is well-formed.
pub open spec fn wf_slots(
    gce: Option<GraphicControlExtension>,
    com: Option<CommentExtension>,
    pt: Option<PlainTextExtension>,
    app: Option<ApplicationExtension>,
) -> bool {
    &&& match gce {
        Some(g) => wf_gce(g),
        None => true,
    }
    &&& match com {
        Some(c) => wf_comment(c@),
        None => true,
    }
    &&& match pt {
        Some(t) => wf_plain_text(t@),
        None => true,
    }
    &&& match app {
        Some(a) => wf_application(a@),
        None => true,
    }
}

fn parse_image_block(
    bytes: &Vec<u8>,
    pos: usize,
    gce: Option<GraphicControlExtension>,
    com: Option<CommentExtension>,
    pt: Option<PlainTextExtension>,
    app: Option<ApplicationExtension>,
) -> (r: Result<(GIFImage, usize), GIFError>)
    requires
        wf_slots(gce, com, pt, app),
    ensures
        match r {
            Ok((img, p)) => pos < p && p <= bytes@.len() && parse_image(
                bytes@,
                pos as int,
                slots_view(gce, com, pt, app),
            ) == Ok::<_, GIFError>((img@, p as int)) && wf_frame(img@),
            Err(e) => parse_image(bytes@, pos as int, slots_view(gce, com, pt, app)) == Err::<
                (FrameView, int),
                _,
            >(e),
        },
{
    if bytes.len() < 9 || pos > bytes.len() - 9 {
        return Err(GIFError::TruncatedInput);
    }
    let packed = IDPackedFields::from_byte(bytes[pos + 8]);
    let desc = ImageDescriptor {
        separator: 0x2C,
        left_position: (bytes[pos] as u16) | ((bytes[pos + 1] as u16) << 8),
        top_position: (bytes[pos + 2] as u16) | ((bytes[pos + 3] as u16) << 8),
        width: (bytes[pos + 4] as u16) | ((bytes[pos + 5] as u16) << 8),
        height: (bytes[pos + 6] as u16) | ((bytes[pos + 7] as u16) << 8),
        packed_fields: packed,
    };
    let (lct, p2): (Option<LocalColorTable>, usize) = if packed.local_color_table_flag {
        let count = table_len(packed.size_of_local_color_table);
        match parse_color_table(bytes, pos + 9, count) {
            Ok((cs, p)) => (Some(LocalColorTable { colors: cs }), p),
            Err(e) => {
                return Err(e);
            },
        }
    } else {
        (None, pos + 9)
    };
    if p2 >= bytes.len() {
        return Err(GIFError::TruncatedInput);
    }
    let lzw = bytes[p2];
    match parse_subblock_chain(bytes, p2 + 1) {
        Ok((blocks, p3)) => {
            let img = GIFImage {
                graphic_control_extension: gce,
                comment_extension: com,
                plain_text_extension: pt,
                application_extension: app,
                image_descriptor: desc,
                local_color_table: lct,
                image_data: ImageData { lzw_minimum_code_size: lzw, sub_blocks: blocks },
            };
            Ok((img, p3))
        },
        Err(e) => Err(e),
    }
}

fn parse_frame_block(bytes: &Vec<u8>, pos: usize) -> (r: Result<(Option<GIFImage>, usize), GIFError>)
    ensures
        match r {
            Ok((of, p)) => pos < p && p <= bytes@.len() && parse_frame(
                bytes@,
                pos as int,
                empty_slots(),
            ) == Ok::<_, GIFError>((view_opt_frame(of), p as int)) && match of {
                Some(f) => wf_frame(f@),
                None => true,
            },
            Err(e) => parse_frame(bytes@, pos as int, empty_slots()) == Err::<
                (Option<FrameView>, int),
                _,
            >(e),
        },
{
    let ghost s = bytes@;
    let mut gce: Option<GraphicControlExtension> = None;
    let mut com: Option<CommentExtension> = None;
    let mut pt: Option<PlainTextExtension> = None;
    let mut app: Option<ApplicationExtension> = None;
    proof {
        assert(slots_view(None, None, None, None) == empty_slots());
    }
    let mut p: usize = pos;
    loop
        invariant
            pos <= p,
            parse_frame(s, pos as int, empty_slots()) == parse_frame(
                s,
                p as int,
                slots_view(gce, com, pt, app),
            ),
            wf_slots(gce, com, pt, app),
            s == bytes@,
        decreases s.len() - p,
    {
        if p >= bytes.len() {
            return Err(GIFError::TruncatedInput);
        }
        let b = bytes[p];
        if b == 0x3B {
            return Ok((None, p + 1));
        } else if b == 0x2C {
            match parse_image_block(bytes, p + 1, gce, com, pt, app) {
                Ok((img, p2)) => {
                    return Ok((Some(img), p2));
                },
                Err(e) => {
                    return Err(e);
                },
            }
        } else if b == 0x21 {
            if p + 1 >= bytes.len() {
                return Err(GIFError::TruncatedInput);
            }
            let label = bytes[p + 1];
            if label == 0xF9 {
                match parse_gce_ext(bytes, p + 2) {
                    Ok((g, p2)) => {
                        proof {
                            assert(slots_view(Some(g), com, pt, app) == ExtSlots {
                                graphic_control_extension: Some(g),
                                ..slots_view(gce, com, pt, app)
                            });
                        }
                        gce = Some(g);
                        p = p2;
                    },
                    Err(e) => {
                        return Err(e);
                    },
                }
            } else if label == 0xFE {
                match parse_comment_ext(bytes, p + 2) {
                    Ok((c, p2)) => {
                        proof {
                            assert(slots_view(gce, Some(c), pt, app) == ExtSlots {
                                comment_extension: Some(c@),
                                ..slots_view(gce, com, pt, app)
                            });
                        }
                        com = Some(c);
                        p = p2;
                    },
                    Err(e) => {
                        return Err(e);
                    },
                }
            } else if label == 0x01 {
                match parse_plain_text_ext(bytes, p + 2) {
                    Ok((t, p2)) => {
                        proof {
                            assert(slots_view(gce, com, Some(t), app) == ExtSlots {
                                plain_text_extension: Some(t@),
                                ..slots_view(gce, com, pt, app)
                            });
                        }
                        pt = Some(t);
                        p = p2;
                    },
                    Err(e) => {
                        return Err(e);
                    },
                }
            } else if label == 0xFF {
                match parse_application_ext(bytes, p + 2) {
                    Ok((a, p2)) => {
                        proof {
                            assert(slots_view(gce, com, pt, Some(a)) == ExtSlots {
                                application_extension: Some(a@),
                                ..slots_view(gce, com, pt, app)
                            });
                        }
                        app = Some(a);
                        p = p2;
                    },
                    Err(e) => {
                        return Err(e);
                    },
                }
            } else {
                return Err(GIFError::InvalidExtensionLabel);
            }
        } else {
            return Err(GIFError::InvalidSeparator);
        }
    }
}

/// Decodes a byte stream into a container: the walk either completes on the
/// trailer or stops at the first malformed byte or exhausted input, and the
/// result — container or error — is exactly what the specification model
/// gives for these bytes. A decoded container is always well-formed.
pub fn decode_gif(bytes: &Vec<u8>) -> (r: Result<GIF, GIFError>)
    ensures
        match r {
            Ok(g) => spec_decode(bytes@) == Ok::<_, GIFError>(g@) && wf_gif(g@),
            Err(e) => spec_decode(bytes@) == Err::<GIFView, _>(e),
        },
{
    let ghost s = bytes@;
    if bytes.len() < 6 {
        return Err(GIFError::TruncatedInput);
    }
    if !(bytes[0] == 0x47 && bytes[1] == 0x49 && bytes[2] == 0x46) {
        proof {
            assert(s.subrange(0, 3)[0] == s[0] && s.subrange(0, 3)[1] == s[1] && s.subrange(0, 3)[2]
                == s[2]);
            assert(s.subrange(0, 3) != spec_signature());
        }
        return Err(GIFError::InvalidSignature);
    }
    proof {
        assert(s.subrange(0, 3) =~= spec_signature());
    }
    if bytes.len() < 13 {
        return Err(GIFError::TruncatedInput);
    }
    let header = GIFHeader {
        signature: [bytes[0], bytes[1], bytes[2]],
        version: [bytes[3], bytes[4], bytes[5]],
    };
    proof {
        assert(header@.signature =~= s.subrange(0, 3));
        assert(header@.version =~= s.subrange(3, 6));
    }
    let packed = LSDPackedFields::from_byte(bytes[10]);
    let lsd = LogicalScreenDescriptor {
        width: (bytes[6] as u16) | ((bytes[7] as u16) << 8),
        height: (bytes[8] as u16) | ((bytes[9] as u16) << 8),
        packed_fields: packed,
        background_color_index: bytes[11],
        pixel_aspect_ratio: bytes[12],
    };
    let (gct, start): (Option<GlobalColorTable>, usize) = if packed.global_color_table_flag {
        let count = table_len(packed.size_of_global_color_table);
        match parse_color_table(bytes, 13, count) {
            Ok((cs, p)) => (Some(GlobalColorTable { colors: cs }), p),
            Err(e) => {
                return Err(e);
            },
        }
    } else {
        (None, 13)
    };
    let ghost gctv = view_opt_global_colors(gct);
    let mut images: Vec<GIFImage> = Vec::new();
    proof {
        assert(frames_view(images@) =~= Seq::<FrameView>::empty());
    }
    let mut p: usize = start;
    loop
        invariant
            start <= p,
            p <= s.len(),
            parse_frames(s, start as int, Seq::empty()) == parse_frames(
                s,
                p as int,
                frames_view(images@),
            ),
            forall|i: int| 0 <= i < frames_view(images@).len() ==> wf_frame(
                #[trigger] frames_view(images@)[i],
            ),
            s == bytes@,
            spec_decode(s) == spec_decode_body(s, header@, lsd, gctv, start as int),
            gctv == view_opt_global_colors(gct),
            match gct {
                Some(t) => lsd.packed_fields.global_color_table_flag && t.colors@.len()
                    == color_count(lsd.packed_fields.size_of_global_color_table),
                None => !lsd.packed_fields.global_color_table_flag,
            },
            header@.signature == spec_signature(),
            header@.version.len() == 3,
            crate::types::wf_lsd_packed(lsd.packed_fields),
        decreases s.len() - p,
    {
        match parse_frame_block(bytes, p) {
            Err(e) => {
                return Err(e);
            },
            Ok((of, p2)) => {
                match of {
                    None => {
                        let g = GIF {
                            header,
                            logical_screen_descriptor: lsd,
                            global_color_table: gct,
                            images,
                            trailer: Trailer { trailer: 0x3B },
                        };
                        proof {
                            assert(parse_frames(s, start as int, Seq::empty()) == Ok::<
                                _,
                                GIFError,
                            >((frames_view(g.images@), p2 as int)));
                            assert(g@ == GIFView {
                                header: header@,
                                logical_screen_descriptor: lsd,
                                global_color_table: gctv,
                                images: frames_view(g.images@),
                                trailer: Trailer { trailer: 0x3B },
                            });
                            assert(spec_decode(s) == Ok::<_, GIFError>(g@));
                            assert(wf_gif(g@));
                        }
                        return Ok(g);
                    },
                    Some(img) => {
                        proof {
                            assert(frames_view(images@.push(img)) =~= frames_view(
                                images@,
                            ).push(img@));
                        }
                        images.push(img);
                        p = p2;
                    },
                }
            },
        }
    }
}

} // verus!
