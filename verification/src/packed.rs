//! Byte-level codecs: the 16-bit little-endian fields and the three packed
//! bit-field bytes (screen descriptor, image descriptor, graphic control).
//! Each codec is total — every byte is a valid bit pattern — and encoding
//! is proved to be the exact inverse of decoding.
use vstd::prelude::*;

use crate::types::{GCEPackedFields, IDPackedFields, LSDPackedFields};
use crate::types::{wf_gce_packed, wf_id_packed, wf_lsd_packed};

verus! {

/// The 16-bit value stored little-endian in bytes `lo`, `hi`.
pub open spec fn u16_le(lo: u8, hi: u8) -> u16 {
    (lo as u16) | ((hi as u16) << 8)
}

/// The two little-endian bytes of a 16-bit value.
pub open spec fn ser_u16(x: u16) -> Seq<u8> {
    seq![(x & 0xFF) as u8, ((x >> 8) & 0xFF) as u8]
}

/// Splitting a 16-bit value into its bytes and reading them back is the
/// identity.
pub proof fn lemma_u16_le_roundtrip(x: u16)
    ensures
        u16_le((x & 0xFF) as u8, ((x >> 8) & 0xFF) as u8) == x,
{
    assert((((x & 0xFF) as u8) as u16) | ((((x >> 8) & 0xFF) as u8) as u16) << 8 == x)
        by (bit_vector);
}

impl LSDPackedFields {
    /// The fields packed into a screen-descriptor flag byte.
    pub open spec fn spec_from_byte(byte: u8) -> LSDPackedFields {
        LSDPackedFields {
            global_color_table_flag: (byte & 0x80) != 0,
            color_resolution: (byte & 0x70) >> 4,
            sort_flag: (byte & 0x08) != 0,
            size_of_global_color_table: byte & 0x07,
        }
    }

    /// The screen-descriptor flag byte holding these fields.
    pub open spec fn spec_to_byte(self) -> u8 {
        (if self.global_color_table_flag {
            0x80u8
        } else {
            0u8
        }) | (self.color_resolution << 4) | (if self.sort_flag {
            0x08u8
        } else {
            0u8
        }) | self.size_of_global_color_table
    }

    pub fn from_byte(byte: u8) -> (r: LSDPackedFields)
        ensures
            r == LSDPackedFields::spec_from_byte(byte),
            wf_lsd_packed(r),
    {
        proof {
            assert((byte & 0x70) >> 4 < 8 && byte & 0x07 < 8) by (bit_vector);
        }
        LSDPackedFields {
            global_color_table_flag: (byte & 0x80) != 0,
            color_resolution: (byte & 0x70) >> 4,
            sort_flag: (byte & 0x08) != 0,
            size_of_global_color_table: byte & 0x07,
        }
    }

    pub fn to_byte(&self) -> (r: u8)
        ensures
            r == self.spec_to_byte(),
    {
        (if self.global_color_table_flag {
            0x80u8
        } else {
            0u8
        }) | (self.color_resolution << 4) | (if self.sort_flag {
            0x08u8
        } else {
            0u8
        }) | self.size_of_global_color_table
    }
}

impl IDPackedFields {
    /// The fields packed into an image-descriptor flag byte.
    pub open spec fn spec_from_byte(byte: u8) -> IDPackedFields {
        IDPackedFields {
            local_color_table_flag: (byte & 0x80) != 0,
            interlace_flag: (byte & 0x40) != 0,
            sort_flag: (byte & 0x20) != 0,
            reserved: (byte & 0x18) >> 3,
            size_of_local_color_table: byte & 0x07,
        }
    }

    /// The image-descriptor flag byte holding these fields.
    pub open spec fn spec_to_byte(self) -> u8 {
        (if self.local_color_table_flag {
            0x80u8
        } else {
            0u8
        }) | (if self.interlace_flag {
            0x40u8
        } else {
            0u8
        }) | (if self.sort_flag {
            0x20u8
        } else {
            0u8
        }) | (self.reserved << 3) | self.size_of_local_color_table
    }

    pub fn from_byte(byte: u8) -> (r: IDPackedFields)
        ensures
            r == IDPackedFields::spec_from_byte(byte),
            wf_id_packed(r),
    {
        proof {
            assert((byte & 0x18) >> 3 < 4 && byte & 0x07 < 8) by (bit_vector);
        }
        IDPackedFields {
            local_color_table_flag: (byte & 0x80) != 0,
            interlace_flag: (byte & 0x40) != 0,
            sort_flag: (byte & 0x20) != 0,
            reserved: (byte & 0x18) >> 3,
            size_of_local_color_table: byte & 0x07,
        }
    }

    pub fn to_byte(&self) -> (r: u8)
        ensures
            r == self.spec_to_byte(),
    {
        (if self.local_color_table_flag {
            0x80u8
        } else {
            0u8
        }) | (if self.interlace_flag {
            0x40u8
        } else {
            0u8
        }) | (if self.sort_flag {
            0x20u8
        } else {
            0u8
        }) | (self.reserved << 3) | self.size_of_local_color_table
    }
}

impl GCEPackedFields {
    /// The fields packed into a graphic-control flag byte.
    pub open spec fn spec_from_byte(byte: u8) -> GCEPackedFields {
        GCEPackedFields {
            reserved: (byte & 0xE0) >> 5,
            disposal_method: (byte & 0x1C) >> 2,
            user_input_flag: (byte & 0x02) != 0,
            transparent_color_flag: (byte & 0x01) != 0,
        }
    }

    /// The graphic-control flag byte holding these fields.
    pub open spec fn spec_to_byte(self) -> u8 {
        (self.reserved << 5) | (self.disposal_method << 2) | (if self.user_input_flag {
            0x02u8
        } else {
            0u8
        }) | (if self.transparent_color_flag {
            0x01u8
        } else {
            0u8
        })
    }

    pub fn from_byte(byte: u8) -> (r: GCEPackedFields)
        ensures
            r == GCEPackedFields::spec_from_byte(byte),
            wf_gce_packed(r),
    {
        proof {
            assert((byte & 0xE0) >> 5 < 8 && (byte & 0x1C) >> 2 < 8) by (bit_vector);
        }
        GCEPackedFields {
            reserved: (byte & 0xE0) >> 5,
            disposal_method: (byte & 0x1C) >> 2,
            user_input_flag: (byte & 0x02) != 0,
            transparent_color_flag: (byte & 0x01) != 0,
        }
    }

    pub fn to_byte(&self) -> (r: u8)
        ensures
            r == self.spec_to_byte(),
    {
        (self.reserved << 5) | (self.disposal_method << 2) | (if self.user_input_flag {
            0x02u8
        } else {
            0u8
        }) | (if self.transparent_color_flag {
            0x01u8
        } else {
            0u8
        })
    }
}

/// Re-packing the fields decoded from any screen-descriptor flag byte gives
/// back that byte.
pub proof fn lemma_lsd_byte_roundtrip(b: u8)
    ensures
        LSDPackedFields::spec_from_byte(b).spec_to_byte() == b,
{
    assert(((if b & 0x80 != 0 {
        0x80u8
    } else {
        0u8
    }) | (((b & 0x70) >> 4) << 4) | (if b & 0x08 != 0 {
        0x08u8
    } else {
        0u8
    }) | (b & 0x07)) == b) by (bit_vector);
}

/// Decoding the flag byte packed from well-formed screen-descriptor fields
/// gives back those fields.
pub proof fn lemma_lsd_field_roundtrip(p: LSDPackedFields)
    requires
        wf_lsd_packed(p),
    ensures
        LSDPackedFields::spec_from_byte(p.spec_to_byte()) == p,
{
    let res = p.color_resolution;
    let size = p.size_of_global_color_table;
    let g = p.global_color_table_flag;
    let s = p.sort_flag;
    let b = p.spec_to_byte();
    assert(b == (if g {
        0x80u8
    } else {
        0u8
    }) | (res << 4) | (if s {
        0x08u8
    } else {
        0u8
    }) | size);
    assert({
        let x = (if g {
            0x80u8
        } else {
            0u8
        }) | (res << 4) | (if s {
            0x08u8
        } else {
            0u8
        }) | size;
        (x & 0x80 != 0) == g && (x & 0x70) >> 4 == res && (x & 0x08 != 0) == s && x & 0x07 == size
    }) by (bit_vector)
        requires
            res < 8 && size < 8,
    ;
}

/// Re-packing the fields decoded from any image-descriptor flag byte gives
/// back that byte.
pub proof fn lemma_id_byte_roundtrip(b: u8)
    ensures
        IDPackedFields::spec_from_byte(b).spec_to_byte() == b,
{
    assert(((if b & 0x80 != 0 {
        0x80u8
    } else {
        0u8
    }) | (if b & 0x40 != 0 {
        0x40u8
    } else {
        0u8
    }) | (if b & 0x20 != 0 {
        0x20u8
    } else {
        0u8
    }) | (((b & 0x18) >> 3) << 3) | (b & 0x07)) == b) by (bit_vector);
}

/// Decoding the flag byte packed from well-formed image-descriptor fields
/// gives back those fields.
pub proof fn lemma_id_field_roundtrip(p: IDPackedFields)
    requires
        wf_id_packed(p),
    ensures
        IDPackedFields::spec_from_byte(p.spec_to_byte()) == p,
{
    let rsv = p.reserved;
    let size = p.size_of_local_color_table;
    let l = p.local_color_table_flag;
    let i = p.interlace_flag;
    let s = p.sort_flag;
    assert({
        let x = (if l {
            0x80u8
        } else {
            0u8
        }) | (if i {
            0x40u8
        } else {
            0u8
        }) | (if s {
            0x20u8
        } else {
            0u8
        }) | (rsv << 3) | size;
        (x & 0x80 != 0) == l && (x & 0x40 != 0) == i && (x & 0x20 != 0) == s && (x & 0x18) >> 3
            == rsv && x & 0x07 == size
    }) by (bit_vector)
        requires
            rsv < 4 && size < 8,
    ;
}

/// Re-packing the fields decoded from any graphic-control flag byte gives
/// back that byte.
pub proof fn lemma_gce_byte_roundtrip(b: u8)
    ensures
        GCEPackedFields::spec_from_byte(b).spec_to_byte() == b,
{
    assert(((((b & 0xE0) >> 5) << 5) | (((b & 0x1C) >> 2) << 2) | (if b & 0x02 != 0 {
        0x02u8
    } else {
        0u8
    }) | (if b & 0x01 != 0 {
        0x01u8
    } else {
        0u8
    })) == b) by (bit_vector);
}

/// Decoding the flag byte packed from well-formed graphic-control fields
/// gives back those fields.
pub proof fn lemma_gce_field_roundtrip(p: GCEPackedFields)
    requires
        wf_gce_packed(p),
    ensures
        GCEPackedFields::spec_from_byte(p.spec_to_byte()) == p,
{
    let rsv = p.reserved;
    let d = p.disposal_method;
    let u = p.user_input_flag;
    let t = p.transparent_color_flag;
    assert({
        let x = (rsv << 5) | (d << 2) | (if u {
            0x02u8
        } else {
            0u8
        }) | (if t {
            0x01u8
        } else {
            0u8
        });
        (x & 0xE0) >> 5 == rsv && (x & 0x1C) >> 2 == d && (x & 0x02 != 0) == u && (x & 0x01 != 0)
            == t
    }) by (bit_vector)
        requires
            rsv < 8 && d < 8,
    ;
}

} // verus!
