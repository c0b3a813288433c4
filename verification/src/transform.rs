//! Pure, structure-preserving transforms on a decoded container. Each
//! returns a new container value; the original is left untouched.
use vstd::prelude::*;

use crate::types::{GIF, GIFImage, GIFView, LogicalScreenDescriptor, wf_frame, wf_gif};
use crate::types::{FrameView, frames_view};

verus! {

/// The container with its frame order reversed; every other field is the
/// same.
pub open spec fn spec_reverse(g: GIFView) -> GIFView {
    GIFView { images: g.images.reverse(), ..g }
}

/// The container with only the screen descriptor's width and height
/// overwritten; no frame, color table, header or trailer changes.
pub open spec fn spec_resize(g: GIFView, width: u16, height: u16) -> GIFView {
    GIFView {
        logical_screen_descriptor: LogicalScreenDescriptor {
            width,
            height,
            ..g.logical_screen_descriptor
        },
        ..g
    }
}

/// Reversing the frame order twice gives back the original container.
pub proof fn lemma_reverse_involution(g: GIFView)
    ensures
        spec_reverse(spec_reverse(g)) == g,
{
    assert(g.images.reverse().reverse() =~= g.images);
    assert(spec_reverse(spec_reverse(g)) =~= g);
}

/// Resizing changes exactly the screen descriptor's width and height: the
/// header, the global color table, every frame, the trailer, and the other
/// screen-descriptor fields are those of the original.
pub proof fn lemma_resize_isolation(g: GIFView, width: u16, height: u16)
    ensures
        spec_resize(g, width, height).header == g.header,
        spec_resize(g, width, height).global_color_table == g.global_color_table,
        spec_resize(g, width, height).images == g.images,
        spec_resize(g, width, height).trailer == g.trailer,
        spec_resize(g, width, height).logical_screen_descriptor.width == width,
        spec_resize(g, width, height).logical_screen_descriptor.height == height,
        spec_resize(g, width, height).logical_screen_descriptor.packed_fields
            == g.logical_screen_descriptor.packed_fields,
        spec_resize(g, width, height).logical_screen_descriptor.background_color_index
            == g.logical_screen_descriptor.background_color_index,
        spec_resize(g, width, height).logical_screen_descriptor.pixel_aspect_ratio
            == g.logical_screen_descriptor.pixel_aspect_ratio,
{
}

impl GIF {
    /// A new container whose frame sequence is the reverse of this one's;
    /// all other fields are unchanged. Well-formedness is preserved.
    pub fn reverse(&self) -> (r: GIF)
        ensures
            r@ == spec_reverse(self@),
            wf_gif(self@) ==> wf_gif(r@),
    {
        let ghost fv = frames_view(self.images@);
        let mut rev: Vec<GIFImage> = Vec::new();
        let mut i: usize = 0;
        let n = self.images.len();
        while i < n
            invariant
                i <= n,
                n == self.images@.len(),
                fv == frames_view(self.images@),
                fv.len() == n,
                rev@.len() == i,
                forall|j: int| 0 <= j < i ==> (#[trigger] rev@[j])@ == fv[n - 1 - j],
            decreases n - i,
        {
            let f = self.images[n - 1 - i].clone();
            proof {
                assert(fv[n as int - 1 - i as int] == self.images@[n as int - 1 - i as int]@);
            }
            rev.push(f);
            i += 1;
        }
        proof {
            assert(frames_view(rev@) =~= fv.reverse());
        }
        let r = GIF {
            header: self.header,
            logical_screen_descriptor: self.logical_screen_descriptor,
            global_color_table: match &self.global_color_table {
                Some(t) => Some(t.clone()),
                None => None,
            },
            images: rev,
            trailer: self.trailer,
        };
        proof {
            assert(r@ =~= spec_reverse(self@));
            if wf_gif(self@) {
                assert(forall|j: int|
                    0 <= j < r@.images.len() ==> wf_frame(#[trigger] r@.images[j]));
            }
        }
        r
    }

    /// A new container with the screen descriptor's width and height
    /// overwritten; frames, color tables, header and trailer are untouched.
    /// This is a metadata-only rewrite, not a visual rescale.
    pub fn resize(&self, width: u16, height: u16) -> (r: GIF)
        ensures
            r@ == spec_resize(self@, width, height),
            wf_gif(self@) ==> wf_gif(r@),
    {
        let mut r = self.clone();
        r.logical_screen_descriptor.width = width;
        r.logical_screen_descriptor.height = height;
        proof {
            assert(r@ =~= spec_resize(self@, width, height));
        }
        r
    }
}

} // verus!
