//! The structural encoder: serializes a decoded container back to bytes,
//! concatenating every stored field in declaration order. Nothing is
//! recomputed from anything else — block-size bytes, table-size bits and
//! terminators are emitted exactly as stored — so a well-formed container
//! reproduces its source stream bit for bit.
//!
//! Each `ser_*` specification function gives the exact byte sequence of one
//! structural block; [`encode_gif`] is proved to return `ser_gif` of its
//! argument's view.
use vstd::prelude::*;

use crate::packed::ser_u16;
use crate::types::{
    ApplicationExtension, ApplicationView, Color, CommentExtension, CommentView, FrameView, GIF,
    GIFDataSubBlock, GIFImage, GIFView, GraphicControlExtension, ImageDescriptor,
    LogicalScreenDescriptor, PlainTextExtension, PlainTextView, SubBlockView, blocks_view,
    frames_view,
};

verus! {

// ---------------------------------------------------------------------------
// Specification: the byte sequence of each structural block.
// ---------------------------------------------------------------------------

pub open spec fn ser_color(c: Color) -> Seq<u8> {
    seq![c.red, c.green, c.blue]
}

pub open spec fn ser_colors(cs: Seq<Color>) -> Seq<u8>
    decreases cs.len(),
{
    if cs.len() == 0 {
        Seq::empty()
    } else {
        ser_color(cs[0]) + ser_colors(cs.drop_first())
    }
}

pub open spec fn ser_opt_colors(o: Option<Seq<Color>>) -> Seq<u8> {
    match o {
        Some(cs) => ser_colors(cs),
        None => Seq::empty(),
    }
}

/// One chunk of a sub-block chain: its length byte, then its payload.
pub open spec fn ser_block(b: SubBlockView) -> Seq<u8> {
    seq![b.size] + b.data
}

/// A sub-block chain without its terminating zero byte.
pub open spec fn ser_blocks(bs: Seq<SubBlockView>) -> Seq<u8>
    decreases bs.len(),
{
    if bs.len() == 0 {
        Seq::empty()
    } else {
        ser_block(bs[0]) + ser_blocks(bs.drop_first())
    }
}

pub open spec fn ser_lsd(d: LogicalScreenDescriptor) -> Seq<u8> {
    ser_u16(d.width) + ser_u16(d.height) + seq![
        d.packed_fields.spec_to_byte(),
        d.background_color_index,
        d.pixel_aspect_ratio,
    ]
}

pub open spec fn ser_gce(g: GraphicControlExtension) -> Seq<u8> {
    seq![
        g.extension_introducer,
        g.graphic_control_label,
        g.block_size,
        g.packed_fields.spec_to_byte(),
    ] + ser_u16(g.delay_time) + seq![g.transparent_color_index, g.block_terminator]
}

pub open spec fn ser_comment(c: CommentView) -> Seq<u8> {
    seq![c.extension_introducer, c.comment_label, c.block_size] + ser_blocks(c.comment_data)
        + seq![c.block_terminator]
}

pub open spec fn ser_plain_text(p: PlainTextView) -> Seq<u8> {
    seq![p.extension_introducer, p.plain_text_label, p.block_size] + ser_u16(
        p.text_grid_left_position,
    ) + ser_u16(p.text_grid_top_position) + ser_u16(p.text_grid_width) + ser_u16(
        p.text_grid_height,
    ) + seq![
        p.character_cell_width,
        p.character_cell_height,
        p.text_foreground_color_index,
        p.text_background_color_index,
    ] + ser_blocks(p.text_data) + seq![p.block_terminator]
}

pub open spec fn ser_application(a: ApplicationView) -> Seq<u8> {
    seq![a.extension_introducer, a.extension_label, a.block_size] + a.application_identifier
        + a.application_authentication_code + ser_blocks(a.application_data)
        + seq![a.block_terminator]
}

pub open spec fn ser_image_descriptor(d: ImageDescriptor) -> Seq<u8> {
    seq![d.separator] + ser_u16(d.left_position) + ser_u16(d.top_position) + ser_u16(d.width)
        + ser_u16(d.height) + seq![d.packed_fields.spec_to_byte()]
}

pub open spec fn ser_opt_gce(o: Option<GraphicControlExtension>) -> Seq<u8> {
    match o {
        Some(g) => ser_gce(g),
        None => Seq::empty(),
    }
}

pub open spec fn ser_opt_comment(o: Option<CommentView>) -> Seq<u8> {
    match o {
        Some(c) => ser_comment(c),
        None => Seq::empty(),
    }
}

pub open spec fn ser_opt_plain_text(o: Option<PlainTextView>) -> Seq<u8> {
    match o {
        Some(p) => ser_plain_text(p),
        None => Seq::empty(),
    }
}

pub open spec fn ser_opt_application(o: Option<ApplicationView>) -> Seq<u8> {
    match o {
        Some(a) => ser_application(a),
        None => Seq::empty(),
    }
}

/// One frame: its extensions in slot order, the image descriptor, the
/// optional local color table, the code-size byte, the pixel sub-block
/// chain and the chain's terminating zero byte.
pub open spec fn ser_frame(f: FrameView) -> Seq<u8> {
    ser_opt_gce(f.graphic_control_extension) + ser_opt_comment(f.comment_extension)
        + ser_opt_plain_text(f.plain_text_extension) + ser_opt_application(f.application_extension)
        + ser_image_descriptor(f.image_descriptor) + ser_opt_colors(f.local_color_table) + seq![
        f.image_data.lzw_minimum_code_size,
    ] + ser_blocks(f.image_data.sub_blocks) + seq![0u8]
}

pub open spec fn ser_frames(fs: Seq<FrameView>) -> Seq<u8>
    decreases fs.len(),
{
    if fs.len() == 0 {
        Seq::empty()
    } else {
        ser_frame(fs[0]) + ser_frames(fs.drop_first())
    }
}

/// The whole container: header, screen descriptor, optional global color
/// table, every frame, and the trailer byte.
pub open spec fn ser_gif(g: GIFView) -> Seq<u8> {
    g.header.signature + g.header.version + ser_lsd(g.logical_screen_descriptor) + ser_opt_colors(
        g.global_color_table,
    ) + ser_frames(g.images) + seq![g.trailer.trailer]
}

// ---------------------------------------------------------------------------
// Executable encoder.
// ---------------------------------------------------------------------------

impl GIFDataSubBlock {
    /// The chunk as it stands in the stream: its length byte, then its
    /// payload.
    pub fn to_bytes(&self) -> (r: Vec<u8>)
        ensures
            r@ == ser_block(self@),
    {
        let mut bytes: Vec<u8> = Vec::new();
        bytes.push(self.size);
        push_bytes(&mut bytes, &self.data);
        proof {
            assert(bytes@ =~= ser_block(self@));
        }
        bytes
    }
}


fn push_u16(out: &mut Vec<u8>, x: u16)
    ensures
        final(out)@ == old(out)@ + ser_u16(x),
{
    out.push((x & 0xFF) as u8);
    out.push(((x >> 8) & 0xFF) as u8);
    proof {
        assert(out@ =~= old(out)@ + ser_u16(x));
    }
}

fn push3(out: &mut Vec<u8>, a: &[u8; 3])
    ensures
        final(out)@ == old(out)@ + a@,
{
    out.push(a[0]);
    out.push(a[1]);
    out.push(a[2]);
    proof {
        assert(out@ =~= old(out)@ + a@);
    }
}

fn push8(out: &mut Vec<u8>, a: &[u8; 8])
    ensures
        final(out)@ == old(out)@ + a@,
{
    out.push(a[0]);
    out.push(a[1]);
    out.push(a[2]);
    out.push(a[3]);
    out.push(a[4]);
    out.push(a[5]);
    out.push(a[6]);
    out.push(a[7]);
    proof {
        assert(out@ =~= old(out)@ + a@);
    }
}

fn push_bytes(out: &mut Vec<u8>, data: &Vec<u8>)
    ensures
        final(out)@ == old(out)@ + data@,
{
    let ghost orig = out@;
    let mut i: usize = 0;
    while i < data.len()
        invariant
            i <= data.len(),
            out@ == orig + data@.take(i as int),
        decreases data.len() - i,
    {
        out.push(data[i]);
        i += 1;
        proof {
            assert(out@ =~= orig + data@.take(i as int));
        }
    }
    proof {
        assert(data@.take(data.len() as int) =~= data@);
    }
}

fn write_colors(out: &mut Vec<u8>, colors: &Vec<Color>)
    ensures
        final(out)@ == old(out)@ + ser_colors(colors@),
{
    let ghost orig = out@;
    proof {
        assert(colors@.skip(0) =~= colors@);
    }
    let mut i: usize = 0;
    while i < colors.len()
        invariant
            i <= colors.len(),
            out@ + ser_colors(colors@.skip(i as int)) == orig + ser_colors(colors@),
        decreases colors.len() - i,
    {
        let c = colors[i];
        proof {
            assert(colors@.skip(i as int)[0] == colors@[i as int]);
            assert(colors@.skip(i as int).drop_first() =~= colors@.skip(i as int + 1));
        }
        out.push(c.red);
        out.push(c.green);
        out.push(c.blue);
        i += 1;
        proof {
            assert(out@ + ser_colors(colors@.skip(i as int)) =~= orig + ser_colors(colors@));
        }
    }
    proof {
        assert(colors@.skip(colors@.len() as int) =~= Seq::<Color>::empty());
        assert(out@ =~= out@ + ser_colors(Seq::<Color>::empty()));
    }
}

fn write_blocks(out: &mut Vec<u8>, blocks: &Vec<GIFDataSubBlock>)
    ensures
        final(out)@ == old(out)@ + ser_blocks(blocks_view(blocks@)),
{
    let ghost orig = out@;
    let ghost bv = blocks_view(blocks@);
    proof {
        assert(bv.skip(0) =~= bv);
    }
    let mut i: usize = 0;
    while i < blocks.len()
        invariant
            i <= blocks.len(),
            bv == blocks_view(blocks@),
            bv.len() == blocks@.len(),
            out@ + ser_blocks(bv.skip(i as int)) == orig + ser_blocks(bv),
        decreases blocks.len() - i,
    {
        proof {
            assert(bv.skip(i as int)[0] == bv[i as int]);
            assert(bv[i as int] == blocks@[i as int]@);
            assert(bv.skip(i as int).drop_first() =~= bv.skip(i as int + 1));
        }
        let b = &blocks[i];
        out.push(b.size);
        push_bytes(out, &b.data);
        i += 1;
        proof {
            assert(out@ + ser_blocks(bv.skip(i as int)) =~= orig + ser_blocks(bv));
        }
    }
    proof {
        assert(bv.skip(bv.len() as int) =~= Seq::<SubBlockView>::empty());
        assert(out@ =~= out@ + ser_blocks(Seq::<SubBlockView>::empty()));
    }
}

fn write_gce(out: &mut Vec<u8>, g: &GraphicControlExtension)
    ensures
        final(out)@ == old(out)@ + ser_gce(*g),
{
    out.push(g.extension_introducer);
    out.push(g.graphic_control_label);
    out.push(g.block_size);
    out.push(g.packed_fields.to_byte());
    push_u16(out, g.delay_time);
    out.push(g.transparent_color_index);
    out.push(g.block_terminator);
    proof {
        assert(out@ =~= old(out)@ + ser_gce(*g));
    }
}

fn write_comment(out: &mut Vec<u8>, c: &CommentExtension)
    ensures
        final(out)@ == old(out)@ + ser_comment(c@),
{
    out.push(c.extension_introducer);
    out.push(c.comment_label);
    out.push(c.block_size);
    write_blocks(out, &c.comment_data);
    out.push(c.block_terminator);
    proof {
        assert(out@ =~= old(out)@ + ser_comment(c@));
    }
}

fn write_plain_text(out: &mut Vec<u8>, p: &PlainTextExtension)
    ensures
        final(out)@ == old(out)@ + ser_plain_text(p@),
{
    out.push(p.extension_introducer);
    out.push(p.plain_text_label);
    out.push(p.block_size);
    push_u16(out, p.text_grid_left_position);
    push_u16(out, p.text_grid_top_position);
    push_u16(out, p.text_grid_width);
    push_u16(out, p.text_grid_height);
    out.push(p.character_cell_width);
    out.push(p.character_cell_height);
    out.push(p.text_foreground_color_index);
    out.push(p.text_background_color_index);
    write_blocks(out, &p.text_data);
    out.push(p.block_terminator);
    proof {
        assert(out@ =~= old(out)@ + ser_plain_text(p@));
    }
}

fn write_application(out: &mut Vec<u8>, a: &ApplicationExtension)
    ensures
        final(out)@ == old(out)@ + ser_application(a@),
{
    out.push(a.extension_introducer);
    out.push(a.extension_label);
    out.push(a.block_size);
    push8(out, &a.application_identifier);
    push3(out, &a.application_authentication_code);
    write_blocks(out, &a.application_data);
    out.push(a.block_terminator);
    proof {
        assert(out@ =~= old(out)@ + ser_application(a@));
    }
}

fn write_image_descriptor(out: &mut Vec<u8>, d: &ImageDescriptor)
    ensures
        final(out)@ == old(out)@ + ser_image_descriptor(*d),
{
    out.push(d.separator);
    push_u16(out, d.left_position);
    push_u16(out, d.top_position);
    push_u16(out, d.width);
    push_u16(out, d.height);
    out.push(d.packed_fields.to_byte());
    proof {
        assert(out@ =~= old(out)@ + ser_image_descriptor(*d));
    }
}

proof fn seq_assoc(a: Seq<u8>, b: Seq<u8>, c: Seq<u8>)
    ensures
        a + b + c == a + (b + c),
{
    assert(a + b + c =~= a + (b + c));
}

proof fn seq_push_is_add(s: Seq<u8>, x: u8)
    ensures
        s.push(x) == s + seq![x],
{
    assert(s.push(x) =~= s + seq![x]);
}

fn write_frame(out: &mut Vec<u8>, f: &GIFImage)
    ensures
        final(out)@ == old(out)@ + ser_frame(f@),
{
    let ghost s0 = out@;
    let ghost a = ser_opt_gce(f@.graphic_control_extension);
    let ghost b = ser_opt_comment(f@.comment_extension);
    let ghost c = ser_opt_plain_text(f@.plain_text_extension);
    let ghost d = ser_opt_application(f@.application_extension);
    let ghost e = ser_image_descriptor(f@.image_descriptor);
    let ghost g = ser_opt_colors(f@.local_color_table);
    let ghost h = seq![f@.image_data.lzw_minimum_code_size];
    let ghost j = ser_blocks(f@.image_data.sub_blocks);
    let ghost k = seq![0u8];
    if let Some(x) = &f.graphic_control_extension {
        write_gce(out, x);
    } else {
        proof {
            assert(out@ =~= out@ + a);
        }
    }
    proof {
        assert(out@ == s0 + a);
    }
    if let Some(x) = &f.comment_extension {
        write_comment(out, x);
    } else {
        proof {
            assert(out@ =~= out@ + b);
        }
    }
    proof {
        assert(out@ == s0 + a + b);
    }
    if let Some(x) = &f.plain_text_extension {
        write_plain_text(out, x);
    } else {
        proof {
            assert(out@ =~= out@ + c);
        }
    }
    proof {
        assert(out@ == s0 + a + b + c);
    }
    if let Some(x) = &f.application_extension {
        write_application(out, x);
    } else {
        proof {
            assert(out@ =~= out@ + d);
        }
    }
    proof {
        assert(out@ == s0 + a + b + c + d);
    }
    write_image_descriptor(out, &f.image_descriptor);
    proof {
        assert(out@ == s0 + a + b + c + d + e);
    }
    if let Some(t) = &f.local_color_table {
        write_colors(out, &t.colors);
    } else {
        proof {
            assert(out@ =~= out@ + g);
        }
    }
    proof {
        assert(out@ == s0 + a + b + c + d + e + g);
    }
    proof {
        seq_push_is_add(out@, f.image_data.lzw_minimum_code_size);
    }
    out.push(f.image_data.lzw_minimum_code_size);
    proof {
        assert(out@ == s0 + a + b + c + d + e + g + h);
    }
    write_blocks(out, &f.image_data.sub_blocks);
    proof {
        assert(out@ == s0 + a + b + c + d + e + g + h + j);
    }
    proof {
        seq_push_is_add(out@, 0u8);
    }
    out.push(0u8);
    proof {
        assert(out@ == s0 + a + b + c + d + e + g + h + j + k);
        seq_assoc(s0, a, b);
        seq_assoc(s0, a + b, c);
        seq_assoc(s0, a + b + c, d);
        seq_assoc(s0, a + b + c + d, e);
        seq_assoc(s0, a + b + c + d + e, g);
        seq_assoc(s0, a + b + c + d + e + g, h);
        seq_assoc(s0, a + b + c + d + e + g + h, j);
        seq_assoc(s0, a + b + c + d + e + g + h + j, k);
        assert(ser_frame(f@) == a + b + c + d + e + g + h + j + k);
        assert(out@ == old(out)@ + ser_frame(f@));
    }
}

#[verifier::rlimit(50)]
pub fn encode_gif(gif: GIF) -> (r: Vec<u8>)
    ensures
        r@ == ser_gif(gif@),
{
    let mut bytes: Vec<u8> = Vec::new();
    push3(&mut bytes, &gif.header.signature);
    push3(&mut bytes, &gif.header.version);
    push_u16(&mut bytes, gif.logical_screen_descriptor.width);
    push_u16(&mut bytes, gif.logical_screen_descriptor.height);
    bytes.push(gif.logical_screen_descriptor.packed_fields.to_byte());
    bytes.push(gif.logical_screen_descriptor.background_color_index);
    bytes.push(gif.logical_screen_descriptor.pixel_aspect_ratio);
    let ghost s0 = bytes@;
    proof {
        assert(s0 =~= gif@.header.signature + gif@.header.version + ser_lsd(
            gif@.logical_screen_descriptor,
        ));
    }
    if let Some(gct) = &gif.global_color_table {
        write_colors(&mut bytes, &gct.colors);
    }
    proof {
        assert(bytes@ =~= s0 + ser_opt_colors(gif@.global_color_table));
    }
    let ghost head = bytes@;
    let ghost fv = frames_view(gif.images@);
    proof {
        assert(fv.skip(0) =~= fv);
    }
    let mut i: usize = 0;
    while i < gif.images.len()
        invariant
            i <= gif.images.len(),
            fv == frames_view(gif.images@),
            fv.len() == gif.images@.len(),
            bytes@ + ser_frames(fv.skip(i as int)) == head + ser_frames(fv),
        decreases gif.images.len() - i,
    {
        proof {
            assert(fv.skip(i as int)[0] == fv[i as int]);
            assert(fv[i as int] == gif.images@[i as int]@);
            assert(fv.skip(i as int).drop_first() =~= fv.skip(i as int + 1));
        }
        write_frame(&mut bytes, &gif.images[i]);
        i += 1;
        proof {
            assert(bytes@ + ser_frames(fv.skip(i as int)) =~= head + ser_frames(fv));
        }
    }
    proof {
        assert(fv.skip(fv.len() as int) =~= Seq::<FrameView>::empty());
        assert(bytes@ =~= bytes@ + ser_frames(Seq::<FrameView>::empty()));
    }
    bytes.push(gif.trailer.trailer);
    proof {
        assert(bytes@ =~= ser_gif(gif@));
    }
    bytes
}

} // verus!
