//! Index data, packed the way it is uploaded.
//!
//! The indices of a mesh go into a pool that every indexed mesh shares, as
//! 16-bit numbers where the compressor could narrow them and as 32-bit numbers
//! otherwise, padded to what a buffer copy is aligned to.

use vstd::prelude::*;

use crate::mesh::index_format_size;
use wgpu::IndexFormat;
use zerocopy::IntoBytes;

verus! {

/// What the size of a buffer copy is a multiple of, in bytes.
pub const COPY_ALIGNMENT: usize = 4;

/// Whether `bytes` are the bytes of `values`, two each, in little-endian order
/// or else in big-endian order.
pub open spec fn are_bytes_of_u16(bytes: Seq<u8>, values: Seq<u16>, little: bool) -> bool {
    &&& bytes.len() == 2 * values.len()
    &&& forall|i: int|
        #![trigger values[i]]
        0 <= i < values.len() ==> values[i] == if little {
            bytes[2 * i] + 256 * bytes[2 * i + 1]
        } else {
            256 * bytes[2 * i] + bytes[2 * i + 1]
        }
}

/// Whether `bytes` are the bytes of `values`, four each, in little-endian order
/// or else in big-endian order.
pub open spec fn are_bytes_of_u32(bytes: Seq<u8>, values: Seq<u32>, little: bool) -> bool {
    &&& bytes.len() == 4 * values.len()
    &&& forall|i: int|
        #![trigger values[i]]
        0 <= i < values.len() ==> values[i] == if little {
            bytes[4 * i] + 256 * bytes[4 * i + 1] + 65536 * bytes[4 * i + 2] + 16777216 * bytes[4
                * i + 3]
        } else {
            16777216 * bytes[4 * i] + 65536 * bytes[4 * i + 1] + 256 * bytes[4 * i + 2] + bytes[4
                * i + 3]
        }
}

/// The bytes of 16-bit numbers, from zerocopy's `IntoBytes::as_bytes`.
///
/// The bytes are the numbers' own, in order, in the byte order of the machine;
/// which of the two orders that is is left open.
#[verifier::external_body]
fn bytes_of_u16(values: &Vec<u16>) -> (bytes: Vec<u8>)
    ensures
        exists|little: bool| are_bytes_of_u16(bytes@, values@, little),
{
    values.as_slice().as_bytes().to_vec()
}

/// The bytes of 32-bit numbers, from zerocopy's `IntoBytes::as_bytes`.
///
/// As for 16-bit numbers: the numbers' own bytes, in order, in the byte order
/// of the machine.
#[verifier::external_body]
fn bytes_of_u32(values: &Vec<u32>) -> (bytes: Vec<u8>)
    ensures
        exists|little: bool| are_bytes_of_u32(bytes@, values@, little),
{
    values.as_slice().as_bytes().to_vec()
}

/// The zero bytes that bring `bytes` to a multiple of the copy alignment.
pub open spec fn padded(bytes: Seq<u8>) -> Seq<u8> {
    bytes + Seq::new(((COPY_ALIGNMENT - bytes.len() % 4) % 4) as nat, |i: int| 0u8)
}

/// `bytes`, padded with zeros to a multiple of the copy alignment.
fn pad(bytes: Vec<u8>) -> (data: Vec<u8>)
    ensures
        data@ == padded(bytes@),
{
    let ghost before = bytes@;
    let mut data = bytes;
    let ghost mut added: nat = 0;
    while data.len() % COPY_ALIGNMENT != 0
        invariant
            data@ == before + Seq::new(added, |i: int| 0u8),
            added <= (4 - before.len() % 4) % 4,
        decreases (4 - before.len() % 4) % 4 - added,
    {
        data.push(0);
        proof {
            added = added + 1;
            assert(data@ =~= before + Seq::new(added, |i: int| 0u8));
        }
    }
    assert(added == (4 - before.len() % 4) % 4);
    data
}

/// A mesh's indices, ready to be written into the index pool.
#[derive(Debug, PartialEq, Eq)]
pub struct PackedIndices {
    /// The width each index is stored at.
    pub format: IndexFormat,
    /// How many indices there are.
    pub count: u32,
    /// The bytes, padded to the copy alignment.
    pub data: Vec<u8>,
}

/// Whether `data` is the padded bytes of 16-bit numbers.
pub open spec fn is_padded_u16(data: Seq<u8>, values: Seq<u16>) -> bool {
    exists|bytes: Seq<u8>, little: bool| #[trigger]
        are_bytes_of_u16(bytes, values, little) && data == padded(bytes)
}

/// Whether `data` is the padded bytes of 32-bit numbers.
pub open spec fn is_padded_u32(data: Seq<u8>, values: Seq<u32>) -> bool {
    exists|bytes: Seq<u8>, little: bool| #[trigger]
        are_bytes_of_u32(bytes, values, little) && data == padded(bytes)
}

/// Whether `packed` holds `indices`: narrowed to `compressed` where the
/// compressor could, as they are otherwise.
pub open spec fn is_packing_of(
    packed: PackedIndices,
    indices: Seq<u32>,
    compressed: Option<Seq<u16>>,
) -> bool {
    &&& packed.count == indices.len()
    &&& match compressed {
        Some(narrow) => packed.format == IndexFormat::Uint16 && is_padded_u16(
            packed.data@,
            narrow,
        ),
        None => packed.format == IndexFormat::Uint32 && is_padded_u32(packed.data@, indices),
    }
}

/// Whether `narrow` is `indices`, number for number.
pub open spec fn same_indices(narrow: Seq<u16>, indices: Seq<u32>) -> bool {
    &&& narrow.len() == indices.len()
    &&& forall|i: int| #![trigger indices[i]] 0 <= i < indices.len() ==> narrow[i] == indices[i]
}

/// The index at place `i` of packed data, in little-endian order or else in
/// big-endian order.
pub open spec fn index_at(data: Seq<u8>, format: IndexFormat, little: bool, i: int) -> int {
    match format {
        IndexFormat::Uint16 => if little {
            data[2 * i] + 256 * data[2 * i + 1]
        } else {
            256 * data[2 * i] + data[2 * i + 1]
        },
        IndexFormat::Uint32 => if little {
            data[4 * i] + 256 * data[4 * i + 1] + 65536 * data[4 * i + 2] + 16777216 * data[4 * i
                + 3]
        } else {
            16777216 * data[4 * i] + 65536 * data[4 * i + 1] + 256 * data[4 * i + 2] + data[4 * i
                + 3]
        },
    }
}

/// Whether packed data reads as `indices` in the byte order `little` names.
pub open spec fn reads_as(
    data: Seq<u8>,
    format: IndexFormat,
    little: bool,
    indices: Seq<u32>,
) -> bool {
    forall|i: int|
        #![trigger indices[i]]
        0 <= i < indices.len() ==> index_at(data, format, little, i) == indices[i]
}

/// Pack the indices of a mesh, or nothing for a mesh that has none.
///
/// `compressed` is what the compressor made of `indices`: the same indices as
/// 16-bit numbers where every one of them fits, and `None` otherwise.
pub fn pack_indices(indices: Option<&Vec<u32>>, compressed: Option<Vec<u16>>) -> (packed: Option<
    PackedIndices,
>)
    requires
        indices matches Some(indices) ==> indices@.len() <= u32::MAX,
    ensures
        match indices {
            Some(indices) if indices@.len() > 0 => packed matches Some(packed) && is_packing_of(
                packed,
                indices@,
                match compressed {
                    Some(narrow) => Some(narrow@),
                    None => None,
                },
            ),
            _ => packed is None,
        },
        packed matches Some(packed) ==> (compressed matches Some(narrow) ==> same_indices(
            narrow@,
            indices->0@,
        )) ==> exists|little: bool| #[trigger]
            reads_as(packed.data@, packed.format, little, indices->0@),
{
    let indices = match indices {
        Some(indices) => indices,
        None => {
            return None;
        },
    };
    if indices.len() == 0 {
        return None;
    }
    let count = indices.len() as u32;
    match compressed {
        Some(narrow) => {
            let bytes = bytes_of_u16(&narrow);
            let ghost raw = bytes@;
            let ghost little = choose|little: bool| are_bytes_of_u16(raw, narrow@, little);
            let data = pad(bytes);
            assert(is_padded_u16(data@, narrow@)) by {
                assert(are_bytes_of_u16(raw, narrow@, little));
            }
            let packed = PackedIndices { format: IndexFormat::Uint16, count, data };
            proof {
                if same_indices(narrow@, indices@) {
                    law_packing_keeps_the_indices(packed, indices@, Some(narrow@));
                }
            }
            Some(packed)
        },
        None => {
            let bytes = bytes_of_u32(indices);
            let ghost raw = bytes@;
            let ghost little = choose|little: bool| are_bytes_of_u32(raw, indices@, little);
            let data = pad(bytes);
            assert(is_padded_u32(data@, indices@)) by {
                assert(are_bytes_of_u32(raw, indices@, little));
            }
            let packed = PackedIndices { format: IndexFormat::Uint32, count, data };
            proof {
                law_packing_keeps_the_indices(packed, indices@, None);
            }
            Some(packed)
        },
    }
}

/// The index a range of the pool starts at, from the byte it starts at.
#[verifier::allow_in_spec]
pub fn first_index(offset: u32, format: IndexFormat) -> u32
    returns
        offset / index_format_size(format),
{
    match format {
        IndexFormat::Uint16 => offset / 2,
        IndexFormat::Uint32 => offset / 4,
    }
}

/// Packed data is a whole number of copies.
pub proof fn law_packed_data_is_aligned(bytes: Seq<u8>)
    ensures
        padded(bytes).len() % 4 == 0,
        bytes.is_prefix_of(padded(bytes)),
        padded(bytes).len() < bytes.len() + 4,
{
    assert(bytes.is_prefix_of(padded(bytes)));
}

/// How many bytes the packed data of `count` indices takes: theirs, up to the
/// next multiple of the copy alignment.
pub open spec fn packed_size(count: nat, format: IndexFormat) -> nat {
    let size = count * index_format_size(format) as nat;
    size + ((COPY_ALIGNMENT - size % 4) % 4) as nat
}

/// The packed data of a mesh has the size its count and its format say.
pub proof fn law_packed_data_has_its_size(
    packed: PackedIndices,
    indices: Seq<u32>,
    compressed: Option<Seq<u16>>,
)
    requires
        is_packing_of(packed, indices, compressed),
        compressed matches Some(narrow) ==> narrow.len() == indices.len(),
    ensures
        packed.data@.len() == packed_size(packed.count as nat, packed.format),
{
    match compressed {
        Some(narrow) => {
            let (bytes, little) = choose|bytes: Seq<u8>, little: bool| #[trigger]
                are_bytes_of_u16(bytes, narrow, little) && packed.data@ == padded(bytes);
        },
        None => {
            let (bytes, little) = choose|bytes: Seq<u8>, little: bool| #[trigger]
                are_bytes_of_u32(bytes, indices, little) && packed.data@ == padded(bytes);
        },
    }
}

/// A range of the pool that starts at a multiple of the copy alignment starts
/// at a whole index, whichever width its indices have, so a draw that starts at
/// that index reads exactly from where the range starts.
pub proof fn law_ranges_start_at_a_whole_index(offset: u32, format: IndexFormat)
    requires
        offset % 4 == 0,
    ensures
        first_index(offset, format) * index_format_size(format) == offset,
{
    match format {
        IndexFormat::Uint16 => {
            assert((offset / 2) * 2 == offset);
        },
        IndexFormat::Uint32 => {
            assert((offset / 4) * 4 == offset);
        },
    }
}

/// The padded bytes of 32-bit indices read as the indices.
proof fn lemma_wide_bytes_read_back(bytes: Seq<u8>, indices: Seq<u32>, little: bool)
    requires
        are_bytes_of_u32(bytes, indices, little),
    ensures
        reads_as(padded(bytes), IndexFormat::Uint32, little, indices),
{
    let data = padded(bytes);
    assert forall|i: int| 0 <= i < indices.len() implies index_at(
        data,
        IndexFormat::Uint32,
        little,
        i,
    ) == #[trigger] indices[i] by {
        assert(data[4 * i] == bytes[4 * i]);
        assert(data[4 * i + 1] == bytes[4 * i + 1]);
        assert(data[4 * i + 2] == bytes[4 * i + 2]);
        assert(data[4 * i + 3] == bytes[4 * i + 3]);
    }
}

/// The padded bytes of 16-bit numbers read as the indices the numbers equal.
proof fn lemma_narrow_bytes_read_back(
    bytes: Seq<u8>,
    narrow: Seq<u16>,
    indices: Seq<u32>,
    little: bool,
)
    requires
        are_bytes_of_u16(bytes, narrow, little),
        same_indices(narrow, indices),
    ensures
        reads_as(padded(bytes), IndexFormat::Uint16, little, indices),
{
    let data = padded(bytes);
    assert forall|i: int| 0 <= i < indices.len() implies index_at(
        data,
        IndexFormat::Uint16,
        little,
        i,
    ) == #[trigger] indices[i] by {
        assert(narrow[i] == indices[i]);
        assert(data[2 * i] == bytes[2 * i]);
        assert(data[2 * i + 1] == bytes[2 * i + 1]);
    }
}

/// Packing loses nothing, at either width: read in one of the two byte orders,
/// the packed data holds every index of the mesh at its place.
pub proof fn law_packing_keeps_the_indices(
    packed: PackedIndices,
    indices: Seq<u32>,
    compressed: Option<Seq<u16>>,
)
    requires
        is_packing_of(packed, indices, compressed),
        compressed matches Some(narrow) ==> same_indices(narrow, indices),
    ensures
        exists|little: bool| #[trigger] reads_as(packed.data@, packed.format, little, indices),
{
    match compressed {
        Some(narrow) => {
            let (bytes, little) = choose|bytes: Seq<u8>, little: bool| #[trigger]
                are_bytes_of_u16(bytes, narrow, little) && packed.data@ == padded(bytes);
            lemma_narrow_bytes_read_back(bytes, narrow, indices, little);
            assert(reads_as(packed.data@, packed.format, little, indices));
        },
        None => {
            let (bytes, little) = choose|bytes: Seq<u8>, little: bool| #[trigger]
                are_bytes_of_u32(bytes, indices, little) && packed.data@ == padded(bytes);
            lemma_wide_bytes_read_back(bytes, indices, little);
            assert(reads_as(packed.data@, packed.format, little, indices));
        },
    }
}

/// Packed data tells its indices: no two meshes with as many indices pack into
/// the same data at the same width and byte order.
pub proof fn law_packed_data_tells_the_indices(
    data: Seq<u8>,
    format: IndexFormat,
    little: bool,
    a: Seq<u32>,
    b: Seq<u32>,
)
    requires
        a.len() == b.len(),
        reads_as(data, format, little, a),
        reads_as(data, format, little, b),
    ensures
        a == b,
{
    assert forall|i: int| 0 <= i < a.len() implies a[i] == b[i] by {
        assert(index_at(data, format, little, i) == a[i]);
        assert(index_at(data, format, little, i) == b[i]);
    }
    assert(a =~= b);
}

/// What is added to reach the alignment is zeros, and the indices come before
/// it.
pub proof fn law_padding_is_zeros(bytes: Seq<u8>, i: int)
    requires
        0 <= i < padded(bytes).len(),
    ensures
        i < bytes.len() ==> padded(bytes)[i] == bytes[i],
        i >= bytes.len() ==> padded(bytes)[i] == 0,
{
}

} // verus!
