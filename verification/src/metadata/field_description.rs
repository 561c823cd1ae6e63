use crate::errors::DecodeError;
use crate::stream::ByteReader;
use crate::traits::ReadAs;
use crate::traits::Readable;
use crate::wire::in_range;
use crate::wire::le_val;
use crate::wire::lemma_le_val_bound;
use crate::wire::lemma_pow256_values;
use vstd::prelude::*;

verus! {

/// The shape of a schema field: a closed enumeration over five 16-bit codes,
/// 0 to 4.  Decoding any other code is a hard error, never a default.
#[derive(Debug, Clone, Copy, PartialEq, Eq, Structural)]
pub enum StructuralRole {
    Plain,
    Collection,
    Record,
    Variant,
    Streamer,
}

impl StructuralRole {
    /// The role bound to a 16-bit code, if the code is one of 0 to 4.
    pub open spec fn spec_from_repr(code: u16) -> Option<StructuralRole> {
        if code == 0 {
            Some(StructuralRole::Plain)
        } else if code == 1 {
            Some(StructuralRole::Collection)
        } else if code == 2 {
            Some(StructuralRole::Record)
        } else if code == 3 {
            Some(StructuralRole::Variant)
        } else if code == 4 {
            Some(StructuralRole::Streamer)
        } else {
            None
        }
    }

    /// The role whose on-wire code is `code`, or nothing for a code outside
    /// the closed enumeration.
    pub fn from_repr(code: u16) -> (r: Option<StructuralRole>)
        ensures
            r == StructuralRole::spec_from_repr(code),
    {
        if code == 0 {
            Some(StructuralRole::Plain)
        } else if code == 1 {
            Some(StructuralRole::Collection)
        } else if code == 2 {
            Some(StructuralRole::Record)
        } else if code == 3 {
            Some(StructuralRole::Variant)
        } else if code == 4 {
            Some(StructuralRole::Streamer)
        } else {
            None
        }
    }
}

/// An independent bit set over three named bits.  Unrecognised bits are
/// silently dropped on decode — the deliberate forward-compatibility policy
/// that sets it apart from [`StructuralRole`]'s strictness.
#[derive(Debug, Clone, Copy, PartialEq, Eq, Hash, Structural)]
pub struct Flags {
    bits: u16,
}

impl Flags {
    /// The raw bit pattern.
    pub closed spec fn spec_bits(&self) -> u16 {
        self.bits
    }

    /// The set with no flag raised.
    pub fn empty() -> (f: Flags)
        ensures
            f.spec_bits() == 0,
    {
        Flags { bits: 0 }
    }

    /// The field repeats.
    pub fn repetitive() -> (f: Flags)
        ensures
            f.spec_bits() == 0x01,
    {
        Flags { bits: 0x01 }
    }

    /// The field is projected.
    pub fn projected() -> (f: Flags)
        ensures
            f.spec_bits() == 0x02,
    {
        Flags { bits: 0x02 }
    }

    /// The field carries a checksum.
    pub fn checksum() -> (f: Flags)
        ensures
            f.spec_bits() == 0x04,
    {
        Flags { bits: 0x04 }
    }

    /// Keep the three known bits of `raw` and drop the rest.
    pub fn from_bits_truncate(raw: u16) -> (f: Flags)
        ensures
            f.spec_bits() == raw & 0x07,
    {
        Flags { bits: raw & 0x07 }
    }

    /// The raw bit pattern.
    pub fn bits(&self) -> (b: u16)
        ensures
            b == self.spec_bits(),
    {
        self.bits
    }

    /// Whether every bit of `other` is also set in `self`.
    pub fn contains(&self, other: Flags) -> (c: bool)
        ensures
            c == (self.spec_bits() & other.spec_bits() == other.spec_bits()),
    {
        self.bits & other.bits == other.bits
    }

    /// Whether no flag is raised.
    pub fn is_empty(&self) -> (c: bool)
        ensures
            c == (self.spec_bits() == 0),
    {
        self.bits == 0
    }
}

/// One schema element: two version numbers, a back-reference to a parent
/// field (not validated here), the structural role, and the flag set, 16
/// bytes in fixed order.
#[derive(Debug)]
pub struct FieldDescription {
    pub field_version: u32,
    pub type_version: u32,
    pub parent_field_id: u32,
    pub structural_role: StructuralRole,
    pub flags: Flags,
}

impl Readable for FieldDescription {
    /// Three little-endian `u32`s, a strict role code, then a lenient flag
    /// word.  The role is validated as soon as its bytes arrive, before the
    /// flag bytes are touched.
    open spec fn read_rel(
        data: Seq<u8>,
        pos: int,
        out: Result<(FieldDescription, int), DecodeError>,
    ) -> bool {
        if !in_range(data, pos, 14) {
            out == Err::<(FieldDescription, int), DecodeError>(DecodeError::UnexpectedEnd)
        } else {
            let code = le_val(data, pos + 12, 2) as u16;
            match StructuralRole::spec_from_repr(code) {
                None => out == Err::<(FieldDescription, int), DecodeError>(
                    DecodeError::InvalidStructuralRole(code),
                ),
                Some(role) => {
                    if !in_range(data, pos, 16) {
                        out == Err::<(FieldDescription, int), DecodeError>(
                            DecodeError::UnexpectedEnd,
                        )
                    } else {
                        match out {
                            Ok((fd, end)) => {
                                &&& fd.field_version == le_val(data, pos, 4) as u32
                                &&& fd.type_version == le_val(data, pos + 4, 4) as u32
                                &&& fd.parent_field_id == le_val(data, pos + 8, 4) as u32
                                &&& fd.structural_role == role
                                &&& fd.flags.spec_bits() == (le_val(data, pos + 14, 2) as u16)
                                    & 0x07
                                &&& end == pos + 16
                            },
                            Err(_) => false,
                        }
                    }
                },
            }
        }
    }

    open spec fn min_len() -> int {
        14
    }

    proof fn lemma_short_input(
        data: Seq<u8>,
        pos: int,
        out: Result<(FieldDescription, int), DecodeError>,
    ) {
    }

    fn read_from(reader: &mut ByteReader) -> (r: Result<FieldDescription, DecodeError>) {
        let ghost d = reader.data();
        let ghost p = reader.pos();
        let field_version = reader.read_as::<u32>()?;
        let type_version = reader.read_as::<u32>()?;
        let parent_field_id = reader.read_as::<u32>()?;
        let structural_role_raw = reader.read_as::<u16>()?;
        proof {
            lemma_pow256_values();
            lemma_le_val_bound(d, p + 12, 2);
        }
        let structural_role = match StructuralRole::from_repr(structural_role_raw) {
            Some(role) => role,
            None => {
                return Err(DecodeError::InvalidStructuralRole(structural_role_raw));
            },
        };
        let flags_raw = reader.read_as::<u16>()?;
        let flags = Flags::from_bits_truncate(flags_raw);
        proof {
            lemma_le_val_bound(d, p + 14, 2);
        }
        Ok(FieldDescription { field_version, type_version, parent_field_id, structural_role, flags })
    }
}

/// Any role code outside 0 to 4 fails the whole record with that code;
/// codes 0 to 4 are the only ones `spec_from_repr` accepts.
pub proof fn lemma_invalid_role_rejected(
    data: Seq<u8>,
    pos: int,
    out: Result<(FieldDescription, int), DecodeError>,
)
    requires
        FieldDescription::read_rel(data, pos, out),
        in_range(data, pos, 14),
        StructuralRole::spec_from_repr(le_val(data, pos + 12, 2) as u16) is None,
    ensures
        out == Err::<(FieldDescription, int), DecodeError>(
            DecodeError::InvalidStructuralRole(le_val(data, pos + 12, 2) as u16),
        ),
{
}

} // verus!
