//! The header of a DEX file, and a candidate found at the start of a region.

use crate::memory::{MemoryMap, ReadError, RemoteMemory};
use vstd::prelude::*;

verus! {

/// The size of a DEX header in bytes.
pub const HEADER_SIZE: usize = 112;

/// The endianness marker of a file in the byte order of this layout.
pub const ENDIAN_CONSTANT: u32 = 0x12345678;

/// The endianness marker of a file in the opposite byte order.
pub const REVERSE_ENDIAN_CONSTANT: u32 = 0x78563412;

/// The greatest number of type identifiers, and of prototype identifiers,
/// that the format allows.
pub const MAX_IDS: u32 = 65535;

/// The 32-bit number that the four bytes of `s` from `at` on hold, least
/// significant byte first.
pub open spec fn le_u32(s: Seq<u8>, at: int) -> u32 {
    (s[at] + s[at + 1] * 0x100 + s[at + 2] * 0x1_0000 + s[at + 3] * 0x100_0000) as u32
}

/// Whether `m` is the magic of a DEX file: `dex`, a line feed, three decimal
/// digits and a zero byte.
pub open spec fn is_dex_magic(m: Seq<u8>) -> bool {
    &&& m.len() == 8
    &&& m[0] == 0x64
    &&& m[1] == 0x65
    &&& m[2] == 0x78
    &&& m[3] == 0x0a
    &&& 0x30 <= m[4] <= 0x39
    &&& 0x30 <= m[5] <= 0x39
    &&& 0x30 <= m[6] <= 0x39
    &&& m[7] == 0
}

/// The fixed-size header of a DEX file, field by field.
#[derive(Debug)]
pub struct Header {
    pub magic: [u8; 8],
    pub checksum: u32,
    pub signature: [u8; 20],
    pub file_size: u32,
    pub header_size: u32,
    pub endian_tag: u32,
    pub link_size: u32,
    pub link_off: u32,
    pub map_off: u32,
    pub string_ids_size: u32,
    pub string_ids_off: u32,
    pub type_ids_size: u32,
    pub type_ids_off: u32,
    pub proto_ids_size: u32,
    pub proto_ids_off: u32,
    pub field_ids_size: u32,
    pub field_ids_off: u32,
    pub method_ids_size: u32,
    pub method_ids_off: u32,
    pub class_ids_size: u32,
    pub class_ids_off: u32,
    pub data_size: u32,
    pub data_off: u32,
}

fn read_u32(b: &[u8], at: usize) -> (r: u32)
    requires
        at + 4 <= b.len(),
    ensures
        r == le_u32(b@, at as int),
{
    let b0: u32 = b[at] as u32;
    let b1: u32 = b[at + 1] as u32;
    let b2: u32 = b[at + 2] as u32;
    let b3: u32 = b[at + 3] as u32;
    b0 + b1 * 0x100 + b2 * 0x1_0000 + b3 * 0x100_0000
}

impl Header {
    pub const SIZE: usize = HEADER_SIZE;

    /// Whether the fields are those that the first 112 bytes of `s` hold:
    /// each at its fixed offset, without padding, numbers least significant
    /// byte first.
    pub open spec fn decodes(&self, s: Seq<u8>) -> bool {
        &&& s.len() >= 112
        &&& self.magic@ == s.subrange(0, 8)
        &&& self.checksum == le_u32(s, 8)
        &&& self.signature@ == s.subrange(12, 32)
        &&& self.file_size == le_u32(s, 32)
        &&& self.header_size == le_u32(s, 36)
        &&& self.endian_tag == le_u32(s, 40)
        &&& self.link_size == le_u32(s, 44)
        &&& self.link_off == le_u32(s, 48)
        &&& self.map_off == le_u32(s, 52)
        &&& self.string_ids_size == le_u32(s, 56)
        &&& self.string_ids_off == le_u32(s, 60)
        &&& self.type_ids_size == le_u32(s, 64)
        &&& self.type_ids_off == le_u32(s, 68)
        &&& self.proto_ids_size == le_u32(s, 72)
        &&& self.proto_ids_off == le_u32(s, 76)
        &&& self.field_ids_size == le_u32(s, 80)
        &&& self.field_ids_off == le_u32(s, 84)
        &&& self.method_ids_size == le_u32(s, 88)
        &&& self.method_ids_off == le_u32(s, 92)
        &&& self.class_ids_size == le_u32(s, 96)
        &&& self.class_ids_off == le_u32(s, 100)
        &&& self.data_size == le_u32(s, 104)
        &&& self.data_off == le_u32(s, 108)
    }

    /// Whether a region of `region_size` bytes that starts with this header
    /// holds a DEX file: the magic is right, the declared size fits in the
    /// region, the declared header size is 112, the endianness marker is one
    /// of the two, and neither identifier count is over the format's bound.
    pub open spec fn accepted(&self, region_size: int) -> bool {
        &&& is_dex_magic(self.magic@)
        &&& self.file_size <= region_size
        &&& self.header_size == HEADER_SIZE
        &&& (self.endian_tag == ENDIAN_CONSTANT || self.endian_tag == REVERSE_ENDIAN_CONSTANT)
        &&& self.type_ids_size <= MAX_IDS
        &&& self.proto_ids_size <= MAX_IDS
    }

    /// Decodes the header that `buffer` starts with. A buffer shorter than a
    /// header holds none.
    pub fn new(buffer: &[u8]) -> (r: Option<Header>)
        ensures
            match r {
                Some(h) => h.decodes(buffer@),
                None => buffer.len() < 112,
            },
    {
        if buffer.len() < HEADER_SIZE {
            return None;
        }
        let magic: [u8; 8] = [
            buffer[0],
            buffer[1],
            buffer[2],
            buffer[3],
            buffer[4],
            buffer[5],
            buffer[6],
            buffer[7],
        ];
        let signature: [u8; 20] = [
            buffer[12],
            buffer[13],
            buffer[14],
            buffer[15],
            buffer[16],
            buffer[17],
            buffer[18],
            buffer[19],
            buffer[20],
            buffer[21],
            buffer[22],
            buffer[23],
            buffer[24],
            buffer[25],
            buffer[26],
            buffer[27],
            buffer[28],
            buffer[29],
            buffer[30],
            buffer[31],
        ];
        proof {
            assert(magic@ =~= buffer@.subrange(0, 8));
            assert(signature@ =~= buffer@.subrange(12, 32));
        }
        Some(
            Header {
                magic,
                checksum: read_u32(buffer, 8),
                signature,
                file_size: read_u32(buffer, 32),
                header_size: read_u32(buffer, 36),
                endian_tag: read_u32(buffer, 40),
                link_size: read_u32(buffer, 44),
                link_off: read_u32(buffer, 48),
                map_off: read_u32(buffer, 52),
                string_ids_size: read_u32(buffer, 56),
                string_ids_off: read_u32(buffer, 60),
                type_ids_size: read_u32(buffer, 64),
                type_ids_off: read_u32(buffer, 68),
                proto_ids_size: read_u32(buffer, 72),
                proto_ids_off: read_u32(buffer, 76),
                field_ids_size: read_u32(buffer, 80),
                field_ids_off: read_u32(buffer, 84),
                method_ids_size: read_u32(buffer, 88),
                method_ids_off: read_u32(buffer, 92),
                class_ids_size: read_u32(buffer, 96),
                class_ids_off: read_u32(buffer, 100),
                data_size: read_u32(buffer, 104),
                data_off: read_u32(buffer, 108),
            },
        )
    }

    /// Whether the magic is that of a DEX file.
    pub fn has_magic(&self) -> (r: bool)
        ensures
            r == is_dex_magic(self.magic@),
    {
        self.magic[0] == 0x64 && self.magic[1] == 0x65 && self.magic[2] == 0x78 && self.magic[3]
            == 0x0a && 0x30 <= self.magic[4] && self.magic[4] <= 0x39 && 0x30 <= self.magic[5]
            && self.magic[5] <= 0x39 && 0x30 <= self.magic[6] && self.magic[6] <= 0x39
            && self.magic[7] == 0
    }
}

/// Whether a region of `region_size` bytes that starts with `bytes` is taken
/// for a DEX file: `bytes` hold a whole header, and the header is accepted.
pub open spec fn accepts(bytes: Seq<u8>, region_size: int) -> bool {
    &&& bytes.len() >= 112
    &&& is_dex_magic(bytes.subrange(0, 8))
    &&& le_u32(bytes, 32) <= region_size
    &&& le_u32(bytes, 36) == HEADER_SIZE
    &&& (le_u32(bytes, 40) == ENDIAN_CONSTANT || le_u32(bytes, 40) == REVERSE_ENDIAN_CONSTANT)
    &&& le_u32(bytes, 64) <= MAX_IDS
    &&& le_u32(bytes, 72) <= MAX_IDS
}

/// The verdict on a header depends on the bytes it was decoded from and on
/// the region's size, and on nothing else: whenever the same bytes are
/// decoded and judged again, the verdict is the same.
pub proof fn lemma_validation_repeats(first: Header, second: Header, bytes: Seq<u8>, region_size: int)
    requires
        first.decodes(bytes),
        second.decodes(bytes),
    ensures
        first.accepted(region_size) == accepts(bytes, region_size),
        first.accepted(region_size) == second.accepted(region_size),
{
}

/// Each of these alone has a header refused: a magic that is not the
/// pattern, a declared size over the region's size, a declared header size
/// other than 112, an endianness marker that is neither constant, a count of
/// type or prototype identifiers over 65535.
pub proof fn lemma_validation_rejects(header: Header, region_size: int)
    ensures
        !is_dex_magic(header.magic@) ==> !header.accepted(region_size),
        header.file_size > region_size ==> !header.accepted(region_size),
        header.header_size != 112 ==> !header.accepted(region_size),
        header.endian_tag != 0x12345678 && header.endian_tag != 0x78563412 ==> !header.accepted(
            region_size,
        ),
        header.type_ids_size > 65535 ==> !header.accepted(region_size),
        header.proto_ids_size > 65535 ==> !header.accepted(region_size),
        is_dex_magic(header.magic@) && header.file_size <= region_size && header.header_size == 112
            && (header.endian_tag == 0x12345678 || header.endian_tag == 0x78563412)
            && header.type_ids_size <= 65535 && header.proto_ids_size <= 65535 ==> header.accepted(
            region_size,
        ),
{
}

/// A candidate DEX file: the header read from the start of a region.
pub struct MemoryDex<'a> {
    memory: &'a RemoteMemory,
    map: &'a MemoryMap,
    header: Header,
}

impl<'a> MemoryDex<'a> {
    /// The process that the candidate was found in.
    pub closed spec fn memory(&self) -> RemoteMemory {
        *self.memory
    }

    /// The region that the candidate starts.
    pub closed spec fn map(&self) -> MemoryMap {
        *self.map
    }

    /// The header that the region starts with.
    pub closed spec fn header(&self) -> Header {
        self.header
    }

    /// The candidate at the start of `map`, from the bytes that a read of
    /// the region's first 112 bytes gave. Fewer bytes make no candidate.
    pub fn new(memory: &'a RemoteMemory, map: &'a MemoryMap, buffer: &[u8]) -> (r: Option<Self>)
        ensures
            match r {
                Some(dex) => dex.header().decodes(buffer@) && dex.map() == *map && dex.memory()
                    == *memory,
                None => buffer.len() < 112,
            },
    {
        match Header::new(buffer) {
            Some(header) => Some(Self { memory, map, header }),
            None => None,
        }
    }

    /// Whether the candidate is a DEX file. The checks run in this order and
    /// stop at the first that fails: magic, declared size against the
    /// region's size, declared header size, endianness marker, identifier
    /// counts.
    pub fn is_valid(&self) -> (r: bool)
        requires
            self.map().wf(),
        ensures
            r == self.header().accepted(self.map()@.end - self.map()@.start),
    {
        if !self.header.has_magic() {
            return false;
        }
        if self.map.size() < self.header.file_size as u64 {
            return false;
        }
        if self.header.header_size != HEADER_SIZE as u32 {
            return false;
        }
        if self.header.endian_tag != ENDIAN_CONSTANT && self.header.endian_tag
            != REVERSE_ENDIAN_CONSTANT {
            return false;
        }
        if self.header.type_ids_size > MAX_IDS || self.header.proto_ids_size > MAX_IDS {
            return false;
        }
        true
    }

    /// The size of the file that the header declares.
    pub fn size(&self) -> (r: usize)
        ensures
            r == self.header().file_size,
    {
        self.header.file_size as usize
    }

    /// The process that the candidate was found in.
    pub fn process(&self) -> (r: &'a RemoteMemory)
        ensures
            *r == self.memory(),
    {
        self.memory
    }

    /// The region that the candidate starts.
    pub fn region(&self) -> (r: &'a MemoryMap)
        ensures
            *r == self.map(),
    {
        self.map
    }

    /// The bytes to write out for this candidate, from the outcome of a read
    /// of `size()` bytes from the region's start: those bytes, all of them
    /// and no more. A failed read, or one of another length, gives nothing
    /// to write.
    pub fn dump(&self, payload: Result<Vec<u8>, ReadError>) -> (r: Result<Vec<u8>, ReadError>)
        ensures
            r == dump_result(self.header().file_size as usize, payload),
            r is Ok ==> payload is Ok && r->Ok_0@ == payload->Ok_0@ && r->Ok_0@.len()
                == self.header().file_size,
    {
        match payload {
            Err(e) => Err(e),
            Ok(bytes) => {
                if bytes.len() == self.size() {
                    Ok(bytes)
                } else {
                    Err(ReadError::Short { wanted: self.size(), got: bytes.len() })
                }
            },
        }
    }
}

/// What there is to write for a file of `size` bytes after a read with the
/// outcome `payload`.
pub open spec fn dump_result(size: usize, payload: Result<Vec<u8>, ReadError>) -> Result<
    Vec<u8>,
    ReadError,
> {
    match payload {
        Err(e) => Err(e),
        Ok(bytes) => if bytes@.len() == size {
            Ok(bytes)
        } else {
            Err(ReadError::Short { wanted: size, got: bytes@.len() as usize })
        },
    }
}

} // verus!
