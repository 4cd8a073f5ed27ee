//! The static memory image: what the active data segments put into linear memory.

use std::collections::HashMap;
use vstd::prelude::*;
use vstd::utf8::{decode_utf8, encode_utf8, encode_utf8_decode_utf8, valid_utf8};

verus! {

broadcast use vstd::std_specs::hash::group_hash_axioms;

/// The longest byte range that is ever read as a string.
pub const MAX_STRING_BYTES: u32 = 1000;

/// An active data segment whose offset is a constant.
#[derive(Debug, Clone)]
pub struct DataSegment {
    /// The address of the segment's first byte.
    pub offset: u32,
    /// The segment's bytes.
    pub data: Vec<u8>,
}

/// A data segment as a value: its address and its bytes.
pub struct Segment {
    pub offset: u32,
    pub data: Seq<u8>,
}

impl View for DataSegment {
    type V = Segment;

    open spec fn view(&self) -> Segment {
        Segment { offset: self.offset, data: self.data@ }
    }
}

/// The segments of a list, each as a value.
pub open spec fn segments_of(segments: Seq<DataSegment>) -> Seq<Segment> {
    Seq::new(segments.len(), |i: int| segments[i]@)
}

/// Whether `segment` places a byte at `addr`. A byte that would lie beyond
/// the 32-bit address space is not placed.
pub open spec fn segment_covers(segment: Segment, addr: int) -> bool {
    segment.offset <= addr < segment.offset + segment.data.len() && addr <= u32::MAX
}

/// The image after `segment` has been written over `image`.
pub open spec fn with_segment(image: Map<u32, u8>, segment: Segment) -> Map<u32, u8> {
    Map::new(
        |addr: u32| image.dom().contains(addr) || segment_covers(segment, addr as int),
        |addr: u32|
            if segment_covers(segment, addr as int) {
                segment.data[addr - segment.offset]
            } else {
                image[addr]
            },
    )
}

/// The image that the first `n` segments build, written in order: where two
/// segments overlap, the later one wins.
pub open spec fn image_of_first(segments: Seq<Segment>, n: int) -> Map<u32, u8>
    decreases n,
{
    if n <= 0 {
        Map::empty()
    } else {
        with_segment(image_of_first(segments, n - 1), segments[n - 1])
    }
}

/// The image that all of `segments` build.
pub open spec fn image_of(segments: Seq<Segment>) -> Map<u32, u8> {
    image_of_first(segments, segments.len() as int)
}

/// Whether every address of `ptr .. ptr + len` lies in the image.
pub open spec fn range_in_image(image: Map<u32, u8>, ptr: int, len: int) -> bool {
    forall|i: int| 0 <= i < len ==> ptr + i <= u32::MAX && #[trigger] image.dom().contains((ptr + i) as u32)
}

/// The bytes of the image at `ptr .. ptr + len`.
pub open spec fn bytes_in_image(image: Map<u32, u8>, ptr: int, len: int) -> Seq<u8> {
    Seq::new(len as nat, |i: int| image[(ptr + i) as u32])
}

/// The string that the image holds at `ptr .. ptr + len`, if it holds one:
/// the range is neither empty nor longer than `MAX_STRING_BYTES`, lies in
/// the image, and its bytes are UTF-8.
pub open spec fn string_in_image(image: Map<u32, u8>, ptr: u32, len: u32) -> Option<Seq<char>> {
    if len == 0 || len > MAX_STRING_BYTES {
        None
    } else if !range_in_image(image, ptr as int, len as int) {
        None
    } else if !valid_utf8(bytes_in_image(image, ptr as int, len as int)) {
        None
    } else {
        Some(decode_utf8(bytes_in_image(image, ptr as int, len as int)))
    }
}

/// A sparse map from address to byte, fixed once built.
pub struct MemoryImage {
    bytes: HashMap<u32, u8>,
}

impl View for MemoryImage {
    type V = Map<u32, u8>;

    closed spec fn view(&self) -> Map<u32, u8> {
        self.bytes@
    }
}

impl MemoryImage {
    /// The byte at `addr`, if the image holds one.
    pub fn get(&self, addr: u32) -> (byte: Option<u8>)
        ensures
            byte == (if self@.dom().contains(addr) {
                Some(self@[addr])
            } else {
                None
            }),
    {
        match self.bytes.get(&addr) {
            Some(b) => Some(*b),
            None => None,
        }
    }
}

/// Builds the memory image of `segments`, writing them in order.
pub fn build_memory_map(segments: &[DataSegment]) -> (image: MemoryImage)
    ensures
        image@ == image_of(segments_of(segments@)),
{
    let mut bytes: HashMap<u32, u8> = HashMap::new();
    let mut k: usize = 0;
    while k < segments.len()
        invariant
            k <= segments.len(),
            bytes@ == image_of_first(segments_of(segments@), k as int),
        decreases segments.len() - k,
    {
        let segment = &segments[k];
        let ghost before = bytes@;
        let mut i: usize = 0;
        while i < segment.data.len()
            invariant
                i <= segment.data.len(),
                k < segments.len(),
                segment == segments@[k as int],
                forall|addr: u32|
                    #![trigger bytes@.dom().contains(addr)]
                    bytes@.dom().contains(addr) <==> before.dom().contains(addr) || (
                    segment_covers(segment@, addr as int) && addr - segment.offset < i),
                forall|addr: u32|
                    #![trigger bytes@[addr]]
                    bytes@.dom().contains(addr) ==> bytes@[addr] == (if segment_covers(
                        segment@,
                        addr as int,
                    ) && addr - segment.offset < i {
                        segment.data@[addr - segment.offset]
                    } else {
                        before[addr]
                    }),
            decreases segment.data.len() - i,
        {
            if i as u64 <= (u32::MAX - segment.offset) as u64 {
                let addr: u32 = segment.offset + i as u32;
                bytes.insert(addr, segment.data[i]);
            }
            i = i + 1;
        }
        assert(bytes@ =~= with_segment(before, segment@));
        assert(segments_of(segments@)[k as int] == segment@);
        k = k + 1;
    }
    MemoryImage { bytes }
}

/// `String::from_utf8`: succeeds exactly on well-formed UTF-8, and the
/// string is then made of the bytes given.
#[verifier::external_body]
fn string_from_utf8(bytes: Vec<u8>) -> (text: Option<String>)
    ensures
        text is Some <==> valid_utf8(bytes@),
        text matches Some(s) ==> encode_utf8(s@) == bytes@,
{
    String::from_utf8(bytes).ok()
}

/// Reads the string at `ptr .. ptr + len` out of the image.
pub fn read_string(memory: &MemoryImage, ptr: u32, len: u32) -> (text: Option<String>)
    ensures
        match text {
            Some(s) => string_in_image(memory@, ptr, len) == Some(s@),
            None => string_in_image(memory@, ptr, len) is None,
        },
{
    if len == 0 || len > MAX_STRING_BYTES {
        return None;
    }
    let mut bytes: Vec<u8> = Vec::new();
    let mut i: u32 = 0;
    while i < len
        invariant
            i <= len <= MAX_STRING_BYTES,
            range_in_image(memory@, ptr as int, i as int),
            bytes@ == bytes_in_image(memory@, ptr as int, i as int),
        decreases len - i,
    {
        if i > u32::MAX - ptr {
            assert(!range_in_image(memory@, ptr as int, len as int)) by {
                let missing = memory@.dom().contains((ptr + i) as u32);
            }
            return None;
        }
        match memory.get(ptr + i) {
            Some(b) => {
                bytes.push(b);
            },
            None => {
                assert(!range_in_image(memory@, ptr as int, len as int)) by {
                    assert(!memory@.dom().contains((ptr + i) as u32));
                }
                return None;
            },
        }
        i = i + 1;
    }
    let text = string_from_utf8(bytes);
    proof {
        if text is Some {
            encode_utf8_decode_utf8(text->0@);
        }
    }
    text
}

} // verus!
