//! The data model of a decoded GIF container: one record per structural
//! block of the file format, together with the mathematical view of each
//! record and the well-formedness conditions that a decoded container obeys.
use vstd::prelude::*;

verus! {

// ---------------------------------------------------------------------------
// Records for the fixed-layout blocks (plain fields only; these are usable
// directly in specifications).
// ---------------------------------------------------------------------------

/// Signature and version bytes at the very start of the stream.
#[derive(Clone, Copy, Debug, PartialEq, Eq)]
pub struct GIFHeader {
    pub signature: [u8; 3],
    pub version: [u8; 3],
}

/// The bit fields packed into byte 4 of the logical screen descriptor.
#[derive(Clone, Copy, Debug, PartialEq, Eq)]
pub struct LSDPackedFields {
    pub global_color_table_flag: bool,
    pub color_resolution: u8,
    pub sort_flag: bool,
    pub size_of_global_color_table: u8,
}

/// Canvas geometry and global-table metadata (7 bytes in the stream).
#[derive(Clone, Copy, Debug, PartialEq, Eq)]
pub struct LogicalScreenDescriptor {
    pub width: u16,
    pub height: u16,
    pub packed_fields: LSDPackedFields,
    pub background_color_index: u8,
    pub pixel_aspect_ratio: u8,
}

/// One RGB palette entry (3 bytes in the stream).
#[derive(Clone, Copy, Debug, PartialEq, Eq)]
pub struct Color {
    pub red: u8,
    pub green: u8,
    pub blue: u8,
}

/// The bit fields packed into the last byte of an image descriptor.
#[derive(Clone, Copy, Debug, PartialEq, Eq)]
pub struct IDPackedFields {
    pub local_color_table_flag: bool,
    pub interlace_flag: bool,
    pub sort_flag: bool,
    pub reserved: u8,
    pub size_of_local_color_table: u8,
}

/// Per-frame placement and geometry (separator byte plus 9 bytes).
#[derive(Clone, Copy, Debug, PartialEq, Eq)]
pub struct ImageDescriptor {
    pub separator: u8,
    pub left_position: u16,
    pub top_position: u16,
    pub width: u16,
    pub height: u16,
    pub packed_fields: IDPackedFields,
}

/// The bit fields packed into the flag byte of a graphic control extension.
#[derive(Clone, Copy, Debug, PartialEq, Eq)]
pub struct GCEPackedFields {
    pub reserved: u8,
    pub disposal_method: u8,
    pub user_input_flag: bool,
    pub transparent_color_flag: bool,
}

/// Graphic control extension: a fixed 6-byte body behind `0x21 0xF9`.
#[derive(Clone, Copy, Debug, PartialEq, Eq)]
pub struct GraphicControlExtension {
    pub extension_introducer: u8,
    pub graphic_control_label: u8,
    pub block_size: u8,
    pub packed_fields: GCEPackedFields,
    pub delay_time: u16,
    pub transparent_color_index: u8,
    pub block_terminator: u8,
}

/// End-of-stream marker, a single byte.
#[derive(Clone, Copy, Debug, PartialEq, Eq)]
pub struct Trailer {
    pub trailer: u8,
}

// ---------------------------------------------------------------------------
// Records with variable-length payloads.
// ---------------------------------------------------------------------------

/// The global palette, present when the screen descriptor's flag is set.
#[derive(Debug, PartialEq, Eq)]
pub struct GlobalColorTable {
    pub colors: Vec<Color>,
}

/// A per-frame palette, present when the image descriptor's flag is set.
#[derive(Debug, PartialEq, Eq)]
pub struct LocalColorTable {
    pub colors: Vec<Color>,
}

/// One length-prefixed chunk of a sub-block chain.
#[derive(Debug, PartialEq, Eq)]
pub struct GIFDataSubBlock {
    pub size: u8,
    pub data: Vec<u8>,
}

/// The opaque compressed pixel stream of one frame.
#[derive(Debug, PartialEq, Eq)]
pub struct ImageData {
    pub lzw_minimum_code_size: u8,
    pub sub_blocks: Vec<GIFDataSubBlock>,
}

/// Comment extension: a sub-block chain behind `0x21 0xFE`.
#[derive(Debug, PartialEq, Eq)]
pub struct CommentExtension {
    pub extension_introducer: u8,
    pub comment_label: u8,
    pub block_size: u8,
    pub comment_data: Vec<GIFDataSubBlock>,
    pub block_terminator: u8,
}

/// Plain text extension: a fixed 13-byte body behind `0x21 0x01`, then a
/// sub-block chain.
#[derive(Debug, PartialEq, Eq)]
pub struct PlainTextExtension {
    pub extension_introducer: u8,
    pub plain_text_label: u8,
    pub block_size: u8,
    pub text_grid_left_position: u16,
    pub text_grid_top_position: u16,
    pub text_grid_width: u16,
    pub text_grid_height: u16,
    pub character_cell_width: u8,
    pub character_cell_height: u8,
    pub text_foreground_color_index: u8,
    pub text_background_color_index: u8,
    pub text_data: Vec<GIFDataSubBlock>,
    pub block_terminator: u8,
}

/// Application extension: a fixed 12-byte body behind `0x21 0xFF`, then a
/// sub-block chain.
#[derive(Debug, PartialEq, Eq)]
pub struct ApplicationExtension {
    pub extension_introducer: u8,
    pub extension_label: u8,
    pub block_size: u8,
    pub application_identifier: [u8; 8],
    pub application_authentication_code: [u8; 3],
    pub application_data: Vec<GIFDataSubBlock>,
    pub block_terminator: u8,
}

/// One frame: its optional extensions, mandatory descriptor, optional local
/// palette and mandatory pixel data.
#[derive(Debug, PartialEq, Eq)]
pub struct GIFImage {
    pub graphic_control_extension: Option<GraphicControlExtension>,
    pub comment_extension: Option<CommentExtension>,
    pub plain_text_extension: Option<PlainTextExtension>,
    pub application_extension: Option<ApplicationExtension>,
    pub image_descriptor: ImageDescriptor,
    pub local_color_table: Option<LocalColorTable>,
    pub image_data: ImageData,
}

/// A whole decoded GIF container.
#[derive(Debug, PartialEq, Eq)]
pub struct GIF {
    pub header: GIFHeader,
    pub logical_screen_descriptor: LogicalScreenDescriptor,
    pub global_color_table: Option<GlobalColorTable>,
    pub images: Vec<GIFImage>,
    pub trailer: Trailer,
}

/// Everything that can go wrong while decoding a byte stream.
#[derive(Clone, Copy, Debug, PartialEq, Eq)]
pub enum GIFError {
    /// Fewer bytes remain than a fixed-size field or a declared length requires.
    TruncatedInput,
    /// The first three bytes are not the literal signature.
    InvalidSignature,
    /// A byte in block-dispatch position is none of `0x2C`, `0x21`, `0x3B`.
    InvalidSeparator,
    /// A byte following the `0x21` introducer is none of the four known labels.
    InvalidExtensionLabel,
}

// ---------------------------------------------------------------------------
// Mathematical views. Records whose payload lives in a `Vec` are abstracted
// to values over `Seq`, so that contracts and lemmas speak of pure data.
// ---------------------------------------------------------------------------

#[verifier::ext_equal]
pub struct HeaderView {
    pub signature: Seq<u8>,
    pub version: Seq<u8>,
}

#[verifier::ext_equal]
pub struct SubBlockView {
    pub size: u8,
    pub data: Seq<u8>,
}

#[verifier::ext_equal]
pub struct ImageDataView {
    pub lzw_minimum_code_size: u8,
    pub sub_blocks: Seq<SubBlockView>,
}

#[verifier::ext_equal]
pub struct CommentView {
    pub extension_introducer: u8,
    pub comment_label: u8,
    pub block_size: u8,
    pub comment_data: Seq<SubBlockView>,
    pub block_terminator: u8,
}

#[verifier::ext_equal]
pub struct PlainTextView {
    pub extension_introducer: u8,
    pub plain_text_label: u8,
    pub block_size: u8,
    pub text_grid_left_position: u16,
    pub text_grid_top_position: u16,
    pub text_grid_width: u16,
    pub text_grid_height: u16,
    pub character_cell_width: u8,
    pub character_cell_height: u8,
    pub text_foreground_color_index: u8,
    pub text_background_color_index: u8,
    pub text_data: Seq<SubBlockView>,
    pub block_terminator: u8,
}

#[verifier::ext_equal]
pub struct ApplicationView {
    pub extension_introducer: u8,
    pub extension_label: u8,
    pub block_size: u8,
    pub application_identifier: Seq<u8>,
    pub application_authentication_code: Seq<u8>,
    pub application_data: Seq<SubBlockView>,
    pub block_terminator: u8,
}

#[verifier::ext_equal]
pub struct FrameView {
    pub graphic_control_extension: Option<GraphicControlExtension>,
    pub comment_extension: Option<CommentView>,
    pub plain_text_extension: Option<PlainTextView>,
    pub application_extension: Option<ApplicationView>,
    pub image_descriptor: ImageDescriptor,
    pub local_color_table: Option<Seq<Color>>,
    pub image_data: ImageDataView,
}

#[verifier::ext_equal]
pub struct GIFView {
    pub header: HeaderView,
    pub logical_screen_descriptor: LogicalScreenDescriptor,
    pub global_color_table: Option<Seq<Color>>,
    pub images: Seq<FrameView>,
    pub trailer: Trailer,
}

/// The extension slots a frame under construction has gathered before its
/// image block arrives.
#[verifier::ext_equal]
pub struct ExtSlots {
    pub graphic_control_extension: Option<GraphicControlExtension>,
    pub comment_extension: Option<CommentView>,
    pub plain_text_extension: Option<PlainTextView>,
    pub application_extension: Option<ApplicationView>,
}

/// The view of a sequence of sub-blocks, element by element.
pub open spec fn blocks_view(s: Seq<GIFDataSubBlock>) -> Seq<SubBlockView> {
    s.map_values(|b: GIFDataSubBlock| b@)
}

/// The view of a sequence of frames, element by element.
pub open spec fn frames_view(s: Seq<GIFImage>) -> Seq<FrameView> {
    s.map_values(|f: GIFImage| f@)
}

pub open spec fn view_opt_comment(o: Option<CommentExtension>) -> Option<CommentView> {
    match o {
        Some(c) => Some(c@),
        None => None,
    }
}

pub open spec fn view_opt_plain_text(o: Option<PlainTextExtension>) -> Option<PlainTextView> {
    match o {
        Some(p) => Some(p@),
        None => None,
    }
}

pub open spec fn view_opt_application(o: Option<ApplicationExtension>) -> Option<ApplicationView> {
    match o {
        Some(a) => Some(a@),
        None => None,
    }
}

pub open spec fn view_opt_frame(o: Option<GIFImage>) -> Option<FrameView> {
    match o {
        Some(f) => Some(f@),
        None => None,
    }
}

pub open spec fn view_opt_colors(o: Option<LocalColorTable>) -> Option<Seq<Color>> {
    match o {
        Some(t) => Some(t.colors@),
        None => None,
    }
}

pub open spec fn view_opt_global_colors(o: Option<GlobalColorTable>) -> Option<Seq<Color>> {
    match o {
        Some(t) => Some(t.colors@),
        None => None,
    }
}

impl View for GIFHeader {
    type V = HeaderView;

    open spec fn view(&self) -> HeaderView {
        HeaderView { signature: self.signature@, version: self.version@ }
    }
}

impl View for GIFDataSubBlock {
    type V = SubBlockView;

    open spec fn view(&self) -> SubBlockView {
        SubBlockView { size: self.size, data: self.data@ }
    }
}

impl View for ImageData {
    type V = ImageDataView;

    open spec fn view(&self) -> ImageDataView {
        ImageDataView {
            lzw_minimum_code_size: self.lzw_minimum_code_size,
            sub_blocks: blocks_view(self.sub_blocks@),
        }
    }
}

impl View for CommentExtension {
    type V = CommentView;

    open spec fn view(&self) -> CommentView {
        CommentView {
            extension_introducer: self.extension_introducer,
            comment_label: self.comment_label,
            block_size: self.block_size,
            comment_data: blocks_view(self.comment_data@),
            block_terminator: self.block_terminator,
        }
    }
}

impl View for PlainTextExtension {
    type V = PlainTextView;

    open spec fn view(&self) -> PlainTextView {
        PlainTextView {
            extension_introducer: self.extension_introducer,
            plain_text_label: self.plain_text_label,
            block_size: self.block_size,
            text_grid_left_position: self.text_grid_left_position,
            text_grid_top_position: self.text_grid_top_position,
            text_grid_width: self.text_grid_width,
            text_grid_height: self.text_grid_height,
            character_cell_width: self.character_cell_width,
            character_cell_height: self.character_cell_height,
            text_foreground_color_index: self.text_foreground_color_index,
            text_background_color_index: self.text_background_color_index,
            text_data: blocks_view(self.text_data@),
            block_terminator: self.block_terminator,
        }
    }
}

impl View for ApplicationExtension {
    type V = ApplicationView;

    open spec fn view(&self) -> ApplicationView {
        ApplicationView {
            extension_introducer: self.extension_introducer,
            extension_label: self.extension_label,
            block_size: self.block_size,
            application_identifier: self.application_identifier@,
            application_authentication_code: self.application_authentication_code@,
            application_data: blocks_view(self.application_data@),
            block_terminator: self.block_terminator,
        }
    }
}

impl View for GIFImage {
    type V = FrameView;

    open spec fn view(&self) -> FrameView {
        FrameView {
            graphic_control_extension: self.graphic_control_extension,
            comment_extension: view_opt_comment(self.comment_extension),
            plain_text_extension: view_opt_plain_text(self.plain_text_extension),
            application_extension: view_opt_application(self.application_extension),
            image_descriptor: self.image_descriptor,
            local_color_table: view_opt_colors(self.local_color_table),
            image_data: self.image_data@,
        }
    }
}

impl View for GIF {
    type V = GIFView;

    open spec fn view(&self) -> GIFView {
        GIFView {
            header: self.header@,
            logical_screen_descriptor: self.logical_screen_descriptor,
            global_color_table: match self.global_color_table {
                Some(t) => Some(t.colors@),
                None => None,
            },
            images: frames_view(self.images@),
            trailer: self.trailer,
        }
    }
}

// ---------------------------------------------------------------------------
// Cloning. The records owning a `Vec` get hand-written `Clone` impls whose
// contracts state that a clone has the same view as the original.
// ---------------------------------------------------------------------------

fn clone_bytes(v: &Vec<u8>) -> (r: Vec<u8>)
    ensures
        r@ == v@,
{
    let mut r: Vec<u8> = Vec::new();
    let mut i: usize = 0;
    while i < v.len()
        invariant
            i <= v.len(),
            r@ == v@.take(i as int),
        decreases v.len() - i,
    {
        r.push(v[i]);
        i += 1;
        proof {
            assert(r@ =~= v@.take(i as int));
        }
    }
    proof {
        assert(v@.take(v@.len() as int) =~= v@);
    }
    r
}

fn clone_colors(v: &Vec<Color>) -> (r: Vec<Color>)
    ensures
        r@ == v@,
{
    let mut r: Vec<Color> = Vec::new();
    let mut i: usize = 0;
    while i < v.len()
        invariant
            i <= v.len(),
            r@ == v@.take(i as int),
        decreases v.len() - i,
    {
        r.push(v[i]);
        i += 1;
        proof {
            assert(r@ =~= v@.take(i as int));
        }
    }
    proof {
        assert(v@.take(v@.len() as int) =~= v@);
    }
    r
}

fn clone_blocks(v: &Vec<GIFDataSubBlock>) -> (r: Vec<GIFDataSubBlock>)
    ensures
        blocks_view(r@) == blocks_view(v@),
{
    let mut r: Vec<GIFDataSubBlock> = Vec::new();
    let mut i: usize = 0;
    while i < v.len()
        invariant
            i <= v.len(),
            r@.len() == i,
            forall|k: int| 0 <= k < i ==> (#[trigger] r@[k])@ == v@[k]@,
        decreases v.len() - i,
    {
        let b = v[i].clone();
        r.push(b);
        i += 1;
    }
    proof {
        assert(blocks_view(r@) =~= blocks_view(v@));
    }
    r
}

impl Clone for GIFDataSubBlock {
    fn clone(&self) -> (r: Self)
        ensures
            r@ == self@,
    {
        GIFDataSubBlock { size: self.size, data: clone_bytes(&self.data) }
    }
}

impl Clone for ImageData {
    fn clone(&self) -> (r: Self)
        ensures
            r@ == self@,
    {
        ImageData {
            lzw_minimum_code_size: self.lzw_minimum_code_size,
            sub_blocks: clone_blocks(&self.sub_blocks),
        }
    }
}

impl Clone for GlobalColorTable {
    fn clone(&self) -> (r: Self)
        ensures
            r.colors@ == self.colors@,
    {
        GlobalColorTable { colors: clone_colors(&self.colors) }
    }
}

impl Clone for LocalColorTable {
    fn clone(&self) -> (r: Self)
        ensures
            r.colors@ == self.colors@,
    {
        LocalColorTable { colors: clone_colors(&self.colors) }
    }
}

impl Clone for CommentExtension {
    fn clone(&self) -> (r: Self)
        ensures
            r@ == self@,
    {
        CommentExtension {
            extension_introducer: self.extension_introducer,
            comment_label: self.comment_label,
            block_size: self.block_size,
            comment_data: clone_blocks(&self.comment_data),
            block_terminator: self.block_terminator,
        }
    }
}

impl Clone for PlainTextExtension {
    fn clone(&self) -> (r: Self)
        ensures
            r@ == self@,
    {
        PlainTextExtension {
            extension_introducer: self.extension_introducer,
            plain_text_label: self.plain_text_label,
            block_size: self.block_size,
            text_grid_left_position: self.text_grid_left_position,
            text_grid_top_position: self.text_grid_top_position,
            text_grid_width: self.text_grid_width,
            text_grid_height: self.text_grid_height,
            character_cell_width: self.character_cell_width,
            character_cell_height: self.character_cell_height,
            text_foreground_color_index: self.text_foreground_color_index,
            text_background_color_index: self.text_background_color_index,
            text_data: clone_blocks(&self.text_data),
            block_terminator: self.block_terminator,
        }
    }
}

impl Clone for ApplicationExtension {
    fn clone(&self) -> (r: Self)
        ensures
            r@ == self@,
    {
        ApplicationExtension {
            extension_introducer: self.extension_introducer,
            extension_label: self.extension_label,
            block_size: self.block_size,
            application_identifier: self.application_identifier,
            application_authentication_code: self.application_authentication_code,
            application_data: clone_blocks(&self.application_data),
            block_terminator: self.block_terminator,
        }
    }
}

impl Clone for GIFImage {
    fn clone(&self) -> (r: Self)
        ensures
            r@ == self@,
    {
        GIFImage {
            graphic_control_extension: self.graphic_control_extension,
            comment_extension: match &self.comment_extension {
                Some(c) => Some(c.clone()),
                None => None,
            },
            plain_text_extension: match &self.plain_text_extension {
                Some(p) => Some(p.clone()),
                None => None,
            },
            application_extension: match &self.application_extension {
                Some(a) => Some(a.clone()),
                None => None,
            },
            image_descriptor: self.image_descriptor,
            local_color_table: match &self.local_color_table {
                Some(t) => Some(t.clone()),
                None => None,
            },
            image_data: self.image_data.clone(),
        }
    }
}

fn clone_frames(v: &Vec<GIFImage>) -> (r: Vec<GIFImage>)
    ensures
        frames_view(r@) == frames_view(v@),
{
    let mut r: Vec<GIFImage> = Vec::new();
    let mut i: usize = 0;
    while i < v.len()
        invariant
            i <= v.len(),
            r@.len() == i,
            forall|k: int| 0 <= k < i ==> (#[trigger] r@[k])@ == v@[k]@,
        decreases v.len() - i,
    {
        let f = v[i].clone();
        r.push(f);
        i += 1;
    }
    proof {
        assert(frames_view(r@) =~= frames_view(v@));
    }
    r
}

impl Clone for GIF {
    fn clone(&self) -> (r: Self)
        ensures
            r@ == self@,
    {
        GIF {
            header: self.header,
            logical_screen_descriptor: self.logical_screen_descriptor,
            global_color_table: match &self.global_color_table {
                Some(t) => Some(t.clone()),
                None => None,
            },
            images: clone_frames(&self.images),
            trailer: self.trailer,
        }
    }
}

// ---------------------------------------------------------------------------
// Well-formedness: the shape that every successfully decoded container has,
// and that the encoder maps back to the identical byte stream.
// ---------------------------------------------------------------------------

/// The literal signature bytes `G`, `I`, `F`.
pub open spec fn spec_signature() -> Seq<u8> {
    seq![0x47u8, 0x49u8, 0x46u8]
}

/// Entry count of a color table whose 3-bit size field is `n`: `2^(n+1)`.
pub open spec fn color_count(n: u8) -> nat {
    (1u16 << ((n + 1) as u16)) as nat
}

pub open spec fn wf_lsd_packed(p: LSDPackedFields) -> bool {
    &&& p.color_resolution < 8
    &&& p.size_of_global_color_table < 8
}

pub open spec fn wf_id_packed(p: IDPackedFields) -> bool {
    &&& p.reserved < 4
    &&& p.size_of_local_color_table < 8
}

pub open spec fn wf_gce_packed(p: GCEPackedFields) -> bool {
    &&& p.reserved < 8
    &&& p.disposal_method < 8
}

/// Every chunk of a sub-block chain has a non-zero declared length that
/// matches its payload.
pub open spec fn wf_blocks(bs: Seq<SubBlockView>) -> bool {
    forall|i: int| 0 <= i < bs.len() ==> (#[trigger] bs[i]).size != 0 && bs[i].data.len() == bs[i].size
}

pub open spec fn wf_header(h: HeaderView) -> bool {
    &&& h.signature == spec_signature()
    &&& h.version.len() == 3
}

pub open spec fn wf_gce(g: GraphicControlExtension) -> bool {
    &&& g.extension_introducer == 0x21
    &&& g.graphic_control_label == 0xF9
    &&& wf_gce_packed(g.packed_fields)
}

pub open spec fn wf_comment(c: CommentView) -> bool {
    &&& c.extension_introducer == 0x21
    &&& c.comment_label == 0xFE
    &&& wf_blocks(c.comment_data)
    &&& c.block_terminator == 0
}

pub open spec fn wf_plain_text(p: PlainTextView) -> bool {
    &&& p.extension_introducer == 0x21
    &&& p.plain_text_label == 0x01
    &&& wf_blocks(p.text_data)
    &&& p.block_terminator == 0
}

pub open spec fn wf_application(a: ApplicationView) -> bool {
    &&& a.extension_introducer == 0x21
    &&& a.extension_label == 0xFF
    &&& a.application_identifier.len() == 8
    &&& a.application_authentication_code.len() == 3
    &&& wf_blocks(a.application_data)
    &&& a.block_terminator == 0
}

pub open spec fn wf_image_descriptor(d: ImageDescriptor) -> bool {
    &&& d.separator == 0x2C
    &&& wf_id_packed(d.packed_fields)
}

pub open spec fn wf_frame(f: FrameView) -> bool {
    &&& match f.graphic_control_extension {
        Some(g) => wf_gce(g),
        None => true,
    }
    &&& match f.comment_extension {
        Some(c) => wf_comment(c),
        None => true,
    }
    &&& match f.plain_text_extension {
        Some(p) => wf_plain_text(p),
        None => true,
    }
    &&& match f.application_extension {
        Some(a) => wf_application(a),
        None => true,
    }
    &&& wf_image_descriptor(f.image_descriptor)
    &&& match f.local_color_table {
        Some(t) => f.image_descriptor.packed_fields.local_color_table_flag && t.len()
            == color_count(f.image_descriptor.packed_fields.size_of_local_color_table),
        None => !f.image_descriptor.packed_fields.local_color_table_flag,
    }
    &&& wf_blocks(f.image_data.sub_blocks)
}

/// A container in exactly the shape that a successful decode produces.
pub open spec fn wf_gif(g: GIFView) -> bool {
    &&& wf_header(g.header)
    &&& wf_lsd_packed(g.logical_screen_descriptor.packed_fields)
    &&& match g.global_color_table {
        Some(t) => g.logical_screen_descriptor.packed_fields.global_color_table_flag && t.len()
            == color_count(g.logical_screen_descriptor.packed_fields.size_of_global_color_table),
        None => !g.logical_screen_descriptor.packed_fields.global_color_table_flag,
    }
    &&& forall|i: int| 0 <= i < g.images.len() ==> wf_frame(#[trigger] g.images[i])
    &&& g.trailer.trailer == 0x3B
}

} // verus!
