//! A loader for a small subset of the ASCII ply point format: a header
//! state machine over raw bytes, then one point record per line. Only the
//! properties this renderer uses are understood — integer positions
//! written as `float` properties, and `uchar` color channels, which are
//! folded into a pairing key over the albedo table.
//!
//! Reading the file off disk happens outside the library; everything here
//! works on the loaded bytes.

use vstd::prelude::*;
use vstd::string::StringSliceAdditionalSpecFns;
use std::collections::HashMap;

use crate::Vec3i;

verus! {

broadcast use vstd::std_specs::hash::group_hash_axioms;

/// Carriage return.
pub const CR: u8 = 0x0D;

/// Line feed.
pub const NL: u8 = 0x0A;

/// Space: the word separator of record lines.
pub const SPACE: u8 = 0x20;

/// Where the parser failed.
#[derive(Debug)]
pub enum ParseError {
    /// The resource could not be loaded at all; carries the reason.
    FailedLoading(String),
    /// Something other than the expected text stood at the carried offset,
    /// in the carried state; the first field names what was expected.
    Unexpected(String, ReadState, usize),
    /// The input ended with the parser in a state that cannot accept an
    /// end of input.
    InvalidState(ReadState, usize),
}

/// The parser's coarse state: still reading the header, or reading point
/// records.
#[derive(Clone, Copy, PartialEq, Eq, Structural, Debug)]
pub enum ReadState {
    ReadHeader(HeaderSubstate),
    ReadPoint,
}

/// Which header line the parser expects next.
#[derive(Clone, Copy, PartialEq, Eq, Structural, Debug)]
pub enum HeaderSubstate {
    Ply,
    Format,
    InferLine,
    Comment,
    Element,
    Propery,
}

/// The per-point variables this loader understands: three position axes
/// and three color channels.
#[derive(Clone, Copy, PartialEq, Eq, Structural, Debug)]
pub enum Identifier {
    X,
    Y,
    Z,
    R,
    G,
    B,
}

/// The declared type of a property, with a sample value of its carrier
/// type. Positions arrive declared `float` but hold integers in the data
/// this loader accepts.
#[derive(Clone, Copy, PartialEq, Eq, Structural, Debug)]
pub enum Type {
    Pos(i32),
    Uchar(u8),
    AlbedoIndex(usize),
}

/// One declared property: which variable it is and its type.
#[derive(Clone, Copy, PartialEq, Eq, Structural, Debug)]
pub struct Variable {
    pub id: Identifier,
    pub _type: Type,
}

/// The parsed header: the declared vertex count and the property list in
/// declaration order.
#[derive(Debug)]
pub struct Header {
    pub vertex: usize,
    pub properties: Vec<Variable>,
}

/// A color as its three channels.
#[derive(Clone, Copy, PartialEq, Eq, Structural, Debug)]
pub struct Rgb {
    pub r: u8,
    pub g: u8,
    pub b: u8,
}

/// One loaded point: its integer position and the pairing key of its
/// color, which indexes the albedo table.
#[derive(Clone, Copy, PartialEq, Eq, Structural, Debug)]
pub struct PlyVoxel {
    pub pos: Vec3i,
    pub albedo_key: u32,
}

/// Everything a loaded file holds, stored the way octree seeding wants
/// it: the points, the distinct colors keyed by pairing key, and the
/// componentwise minimum of all positions.
#[derive(Debug)]
pub struct PlyFileContent {
    pub header: Header,
    pub voxels: Vec<PlyVoxel>,
    pub albedos: HashMap<u32, Rgb>,
    pub min_point: Vec3i,
}

/// Compare expected text against raw bytes, byte for byte, over the
/// shorter of the two: `None` when they agree, otherwise the first
/// position where they differ.
pub fn expect(expected: &str, bytes: &[u8]) -> (r: Option<usize>)
    ensures
        ({
            let e = expected.spec_bytes();
            let n = if e.len() <= bytes@.len() { e.len() as int } else { bytes@.len() as int };
            match r {
                None => forall|i: int| 0 <= i < n ==> e[i] == bytes@[i],
                Some(j) => {
                    &&& 0 <= j < n
                    &&& e[j as int] != bytes@[j as int]
                    &&& forall|i: int| 0 <= i < j ==> e[i] == bytes@[i]
                },
            }
        }),
{
    let e = expected.as_bytes();
    let n = if e.len() <= bytes.len() {
        e.len()
    } else {
        bytes.len()
    };
    let mut i: usize = 0;
    while i < n
        invariant
            i <= n <= e@.len() && n <= bytes@.len(),
            e@ == expected.spec_bytes(),
            n as int == if e@.len() <= bytes@.len() {
                e@.len() as int
            } else {
                bytes@.len() as int
            },
            forall|j: int| 0 <= j < i ==> e@[j] == bytes@[j],
        decreases n - i,
    {
        if e[i] != bytes[i] {
            return Some(i);
        }
        i = i + 1;
    }
    None
}

/// First position of a line terminator (carriage return or line feed), or
/// `None` when the bytes hold no line end.
pub fn seek_end_of_line(bytes: &[u8]) -> (r: Option<usize>)
    ensures
        match r {
            None => forall|i: int| 0 <= i < bytes@.len() ==> bytes@[i] != CR && bytes@[i] != NL,
            Some(j) => {
                &&& 0 <= j < bytes@.len()
                &&& (bytes@[j as int] == CR || bytes@[j as int] == NL)
                &&& forall|i: int| 0 <= i < j ==> bytes@[i] != CR && bytes@[i] != NL
            },
        },
{
    let mut i: usize = 0;
    while i < bytes.len()
        invariant
            i <= bytes@.len(),
            forall|j: int| 0 <= j < i ==> bytes@[j] != CR && bytes@[j] != NL,
        decreases bytes@.len() - i,
    {
        if bytes[i] == CR || bytes[i] == NL {
            return Some(i);
        }
        i = i + 1;
    }
    None
}

/// First position of a word terminator (space, carriage return or line
/// feed), or `None` when the bytes hold no word end.
pub fn seek_end_word(bytes: &[u8]) -> (r: Option<usize>)
    ensures
        match r {
            None => forall|i: int|
                0 <= i < bytes@.len() ==> bytes@[i] != SPACE && bytes@[i] != CR && bytes@[i] != NL,
            Some(j) => {
                &&& 0 <= j < bytes@.len()
                &&& (bytes@[j as int] == SPACE || bytes@[j as int] == CR || bytes@[j as int] == NL)
                &&& forall|i: int|
                    0 <= i < j ==> bytes@[i] != SPACE && bytes@[i] != CR && bytes@[i] != NL
            },
        },
{
    let mut i: usize = 0;
    while i < bytes.len()
        invariant
            i <= bytes@.len(),
            forall|j: int| 0 <= j < i ==> bytes@[j] != SPACE && bytes@[j] != CR && bytes@[j] != NL,
        decreases bytes@.len() - i,
    {
        if bytes[i] == SPACE || bytes[i] == CR || bytes[i] == NL {
            return Some(i);
        }
        i = i + 1;
    }
    None
}

/// Whether a byte is an ASCII decimal digit.
pub open spec fn spec_is_digit(b: u8) -> bool {
    0x30 <= b <= 0x39
}

/// Whether the bytes form a nonempty run of decimal digits.
pub open spec fn spec_all_digits(s: Seq<u8>) -> bool {
    s.len() >= 1 && forall|i: int| 0 <= i < s.len() ==> spec_is_digit(#[trigger] s[i])
}

/// The number a run of decimal digits denotes.
pub open spec fn spec_digits_value(s: Seq<u8>) -> int
    decreases s.len(),
{
    if s.len() == 0 {
        0
    } else {
        spec_digits_value(s.drop_last()) * 10 + (s.last() - 0x30)
    }
}

proof fn lemma_digits_value_nonneg(s: Seq<u8>)
    requires
        forall|i: int| 0 <= i < s.len() ==> spec_is_digit(#[trigger] s[i]),
    ensures
        spec_digits_value(s) >= 0,
    decreases s.len(),
{
    if s.len() > 0 {
        lemma_digits_value_nonneg(s.drop_last());
    }
}

/// A prefix of a digit run never denotes more than the whole run.
proof fn lemma_digits_value_grows(s: Seq<u8>, i: int)
    requires
        0 <= i <= s.len(),
        forall|j: int| 0 <= j < s.len() ==> spec_is_digit(#[trigger] s[j]),
    ensures
        spec_digits_value(s.take(i)) <= spec_digits_value(s),
    decreases s.len() - i,
{
    if i == s.len() {
        assert(s.take(i) =~= s);
    } else {
        lemma_digits_value_grows(s, i + 1);
        assert(s.take(i + 1).drop_last() =~= s.take(i));
        lemma_digits_value_nonneg(s.take(i));
        assert(spec_digits_value(s.take(i + 1))
            == spec_digits_value(s.take(i)) * 10 + (s[i] - 0x30));
    }
}

/// Parse a nonempty run of decimal digits into a machine word; `None` on
/// any non-digit byte, an empty run, or a value past `u64::MAX`.
pub fn parse_u64_bytes(bytes: &[u8]) -> (r: Option<u64>)
    ensures
        r is Some <==> spec_all_digits(bytes@) && spec_digits_value(bytes@) <= u64::MAX,
        r matches Some(v) ==> v == spec_digits_value(bytes@),
{
    if bytes.len() == 0 {
        return None;
    }
    let mut acc: u64 = 0;
    let mut i: usize = 0;
    while i < bytes.len()
        invariant
            i <= bytes@.len(),
            forall|j: int| 0 <= j < i ==> spec_is_digit(#[trigger] bytes@[j]),
            acc == spec_digits_value(bytes@.take(i as int)),
        decreases bytes@.len() - i,
    {
        let c = bytes[i];
        if c < 0x30 || c > 0x39 {
            return None;
        }
        let d = (c - 0x30) as u64;
        proof {
            assert(bytes@.take(i as int + 1).drop_last() =~= bytes@.take(i as int));
            assert(bytes@.take(i as int + 1).last() == bytes@[i as int]);
        }
        if acc > (u64::MAX - d) / 10 {
            proof {
                vstd::arithmetic::div_mod::lemma_fundamental_div_mod(u64::MAX - d, 10);
                assert(acc * 10 + d > u64::MAX) by (nonlinear_arith)
                    requires
                        acc > (u64::MAX - d as int) / 10,
                        u64::MAX - d as int == 10 * ((u64::MAX - d as int) / 10)
                            + (u64::MAX - d as int) % 10,
                        0 <= (u64::MAX - d as int) % 10 < 10,
                ;
                if spec_all_digits(bytes@) {
                    lemma_digits_value_grows(bytes@, i as int + 1);
                }
            }
            return None;
        }
        proof {
            vstd::arithmetic::div_mod::lemma_fundamental_div_mod(u64::MAX - d, 10);
            assert(acc * 10 + d <= u64::MAX) by (nonlinear_arith)
                requires
                    acc <= (u64::MAX - d as int) / 10,
                    u64::MAX - d as int == 10 * ((u64::MAX - d as int) / 10)
                        + (u64::MAX - d as int) % 10,
                    0 <= (u64::MAX - d as int) % 10 < 10,
            ;
        }
        acc = acc * 10 + d;
        i = i + 1;
    }
    proof {
        assert(bytes@.take(bytes@.len() as int) =~= bytes@);
    }
    Some(acc)
}

/// Parse a digit run as a vertex count; `None` past `usize::MAX`.
pub fn parse_usize_bytes(bytes: &[u8]) -> (r: Option<usize>)
    ensures
        r is Some <==> spec_all_digits(bytes@) && spec_digits_value(bytes@) <= usize::MAX,
        r matches Some(v) ==> v == spec_digits_value(bytes@),
{
    match parse_u64_bytes(bytes) {
        Some(v) => {
            if v <= usize::MAX as u64 {
                Some(v as usize)
            } else {
                None
            }
        },
        None => None,
    }
}

/// Parse a digit run as a color channel; `None` past `u8::MAX`.
pub fn parse_u8_bytes(bytes: &[u8]) -> (r: Option<u8>)
    ensures
        r is Some <==> spec_all_digits(bytes@) && spec_digits_value(bytes@) <= u8::MAX,
        r matches Some(v) ==> v == spec_digits_value(bytes@),
{
    match parse_u64_bytes(bytes) {
        Some(v) => {
            if v <= u8::MAX as u64 {
                Some(v as u8)
            } else {
                None
            }
        },
        None => None,
    }
}

/// The signed number the bytes denote: an optional leading minus sign,
/// then decimal digits.
pub open spec fn spec_signed_value(s: Seq<u8>) -> int {
    if s.len() >= 1 && s[0] == 0x2Du8 {
        -spec_digits_value(s.skip(1))
    } else {
        spec_digits_value(s)
    }
}

/// Whether the bytes are a well-formed signed decimal: digits, optionally
/// preceded by a minus sign.
pub open spec fn spec_signed_wf(s: Seq<u8>) -> bool {
    if s.len() >= 1 && s[0] == 0x2Du8 {
        spec_all_digits(s.skip(1))
    } else {
        spec_all_digits(s)
    }
}

/// Parse an optionally signed run of decimal digits as a position
/// coordinate; `None` outside the `i32` range.
pub fn parse_i32_bytes(bytes: &[u8]) -> (r: Option<i32>)
    ensures
        r is Some <==> spec_signed_wf(bytes@) && i32::MIN <= spec_signed_value(bytes@) <= i32::MAX,
        r matches Some(v) ==> v == spec_signed_value(bytes@),
{
    if bytes.len() >= 1 && bytes[0] == 0x2D {
        let rest = &bytes[1..bytes.len()];
        proof {
            assert(rest@ =~= bytes@.skip(1));
        }
        match parse_u64_bytes(rest) {
            Some(v) => {
                if v <= 0x8000_0000u64 {
                    if v == 0x8000_0000u64 {
                        Some(i32::MIN)
                    } else {
                        Some(-(v as i32))
                    }
                } else {
                    None
                }
            },
            None => None,
        }
    } else {
        match parse_u64_bytes(bytes) {
            Some(v) => {
                if v <= i32::MAX as u64 {
                    Some(v as i32)
                } else {
                    None
                }
            },
            None => None,
        }
    }
}

/// The pairing step: a bijection from a pair of naturals to one natural.
pub open spec fn spec_pair(a: int, b: int) -> int {
    (a + b) * (a + b + 1) / 2 + b
}

/// The key a color is filed under in the albedo table: the pairing step
/// folded over the three channels, saturated to 32 bits.
pub open spec fn spec_albedo_key(c: Rgb) -> int {
    let h = spec_pair(spec_pair(c.r as int, c.g as int), c.b as int);
    if h > u32::MAX {
        u32::MAX as int
    } else {
        h
    }
}

/// Fold a color into its albedo-table key.
pub fn cantor_pair(albedo: Rgb) -> (r: u32)
    ensures
        r == spec_albedo_key(albedo),
{
    let a = albedo.r as u64;
    let b = albedo.g as u64;
    let c = albedo.b as u64;
    proof {
        assert((a + b) * (a + b + 1) <= 510 * 511) by (nonlinear_arith)
            requires
                a <= 255 && b <= 255,
        ;
    }
    let d = (a + b) * (a + b + 1) / 2 + b;
    proof {
        assert((d + c) * (d + c + 1) <= 130815 * 130816) by (nonlinear_arith)
            requires
                d <= 130560 && c <= 255,
        ;
    }
    let h = (d + c) * (d + c + 1) / 2 + c;
    if h > u32::MAX as u64 {
        u32::MAX
    } else {
        h as u32
    }
}


/// The fixed 23-byte prologue every accepted file starts with: the magic
/// line and the format line, both CRLF-terminated.
pub open spec fn spec_ply_magic(b: Seq<u8>) -> bool {
    &&& b.len() >= 23
    &&& b[0] == 0x70u8 && b[1] == 0x6Cu8 && b[2] == 0x79u8 && b[3] == 0x0Du8 && b[4] == 0x0Au8
    &&& b[5] == 0x66u8 && b[6] == 0x6Fu8 && b[7] == 0x72u8 && b[8] == 0x6Du8 && b[9] == 0x61u8
    &&& b[10] == 0x74u8 && b[11] == 0x20u8 && b[12] == 0x61u8 && b[13] == 0x73u8
    &&& b[14] == 0x63u8 && b[15] == 0x69u8 && b[16] == 0x69u8 && b[17] == 0x20u8
    &&& b[18] == 0x31u8 && b[19] == 0x2Eu8 && b[20] == 0x30u8 && b[21] == 0x0Du8
    &&& b[22] == 0x0Au8
}

/// `offset` moved `k` bytes forward, stopping at the end of the input.
fn advance(offset: usize, k: usize, len: usize) -> (r: usize)
    requires
        offset <= len,
    ensures
        r as int == if offset + k <= len {
            offset + k as int
        } else {
            len as int
        },
        offset <= r <= len,
        k > 0 && offset < len ==> r > offset,
{
    if len - offset < k {
        len
    } else {
        offset + k
    }
}

/// Parse the header: the fixed prologue, then `comment`, `element vertex`
/// and `property` lines in any order up to `end_header`. Returns the
/// header and the offset of the first record line.
fn parse_header(buffer: &[u8]) -> (r: Result<(Header, usize), ParseError>)
    ensures
        r matches Ok(p) ==> spec_ply_magic(buffer@) && p.1 <= buffer@.len(),
{
    if buffer.len() < 23 {
        return Err(ParseError::Unexpected(
            "character".to_owned(),
            ReadState::ReadHeader(HeaderSubstate::Ply),
            buffer.len(),
        ));
    }
    if let Some(j) = expect("ply\r\n", &buffer[0..5]) {
        return Err(ParseError::Unexpected(
            "character".to_owned(),
            ReadState::ReadHeader(HeaderSubstate::Ply),
            j,
        ));
    }
    if let Some(j) = expect("format ascii 1.0\r\n", &buffer[5..23]) {
        return Err(ParseError::Unexpected(
            "format".to_owned(),
            ReadState::ReadHeader(HeaderSubstate::Format),
            j,
        ));
    }
    proof {
        reveal_strlit("ply\r\n");
        reveal_strlit("format ascii 1.0\r\n");
        broadcast use vstd::string::is_ascii_spec_bytes;
        assert(vstd::string::is_ascii("ply\r\n"));
        assert(vstd::string::is_ascii("format ascii 1.0\r\n"));
        assert("ply\r\n".spec_bytes() =~= Seq::new(
            "ply\r\n"@.len(),
            |i: int| "ply\r\n"@.index(i) as u8,
        ));
        assert("format ascii 1.0\r\n".spec_bytes() =~= Seq::new(
            "format ascii 1.0\r\n"@.len(),
            |i: int| "format ascii 1.0\r\n"@.index(i) as u8,
        ));
        assert forall|i: int| #![trigger buffer@[i]] 0 <= i < 5
            implies buffer@[i] == "ply\r\n".spec_bytes()[i] by {
            assert(buffer@.subrange(0, 5)[i] == buffer@[i]);
        }
        assert forall|i: int| #![trigger buffer@[i]] 5 <= i < 23
            implies buffer@[i] == "format ascii 1.0\r\n".spec_bytes()[i - 5] by {
            assert(buffer@.subrange(5, 23)[i - 5] == buffer@[i]);
        }
        assert(spec_ply_magic(buffer@));
    }
    let len = buffer.len();
    let mut offset: usize = 23;
    let mut vertex: usize = 0;
    let mut properties: Vec<Variable> = Vec::new();
    loop
        invariant
            offset <= len,
            len == buffer@.len(),
            spec_ply_magic(buffer@),
        decreases len - offset,
    {
        if offset >= len {
            return Err(ParseError::InvalidState(
                ReadState::ReadHeader(HeaderSubstate::InferLine),
                offset,
            ));
        }
        let end = match seek_end_word(&buffer[offset..len]) {
            None => {
                return Err(ParseError::Unexpected(
                    "word end".to_owned(),
                    ReadState::ReadHeader(HeaderSubstate::InferLine),
                    offset,
                ));
            },
            Some(e) => e,
        };
        let word = &buffer[offset..offset + end];
        if expect("property", word).is_none() {
            // a property line: its type, then the one-byte variable name
            offset = advance(offset, 9, len);
            let _type = if expect("float", &buffer[offset..len]).is_none() {
                offset = advance(offset, 6, len);
                Type::Pos(0)
            } else if expect("uchar", &buffer[offset..len]).is_none() {
                offset = advance(offset, 6, len);
                Type::Uchar(0)
            } else {
                return Err(ParseError::Unexpected(
                    "type".to_owned(),
                    ReadState::ReadHeader(HeaderSubstate::Propery),
                    offset,
                ));
            };
            if offset >= len {
                return Err(ParseError::Unexpected(
                    "variable".to_owned(),
                    ReadState::ReadHeader(HeaderSubstate::Propery),
                    offset,
                ));
            }
            let id = match buffer[offset] {
                0x78 => Identifier::X,
                0x79 => Identifier::Y,
                0x7A => Identifier::Z,
                0x72 => Identifier::R,
                0x67 => Identifier::G,
                0x62 => Identifier::B,
                _ => {
                    return Err(ParseError::Unexpected(
                        "variable".to_owned(),
                        ReadState::ReadHeader(HeaderSubstate::Propery),
                        offset,
                    ));
                },
            };
            properties.push(Variable { id, _type });
            let eol = match seek_end_of_line(&buffer[offset..len]) {
                None => {
                    return Err(ParseError::Unexpected(
                        "line end".to_owned(),
                        ReadState::ReadHeader(HeaderSubstate::Propery),
                        offset,
                    ));
                },
                Some(e) => e,
            };
            offset = advance(offset, eol + 2, len);
        } else if expect("comment", word).is_none() {
            // a comment line: skipped whole
            offset = advance(offset, 8, len);
            let eol = match seek_end_of_line(&buffer[offset..len]) {
                None => {
                    return Err(ParseError::Unexpected(
                        "line end".to_owned(),
                        ReadState::ReadHeader(HeaderSubstate::Comment),
                        offset,
                    ));
                },
                Some(e) => e,
            };
            offset = advance(offset, eol + 2, len);
        } else if expect("element", word).is_none() {
            // the vertex-count line
            offset = advance(offset, 8, len);
            if let Some(j) = expect("vertex", &buffer[offset..len]) {
                return Err(ParseError::Unexpected(
                    "character".to_owned(),
                    ReadState::ReadHeader(HeaderSubstate::Element),
                    j,
                ));
            }
            offset = advance(offset, 7, len);
            let eol = match seek_end_of_line(&buffer[offset..len]) {
                None => {
                    return Err(ParseError::Unexpected(
                        "line end".to_owned(),
                        ReadState::ReadHeader(HeaderSubstate::Element),
                        offset,
                    ));
                },
                Some(e) => e,
            };
            vertex = match parse_usize_bytes(&buffer[offset..offset + eol]) {
                None => {
                    return Err(ParseError::Unexpected(
                        "vertex count".to_owned(),
                        ReadState::ReadHeader(HeaderSubstate::Element),
                        offset,
                    ));
                },
                Some(v) => v,
            };
            offset = advance(offset, eol + 2, len);
        } else if expect("end_header", word).is_none() {
            offset = advance(offset, 12, len);
            return Ok((Header { vertex, properties }, offset));
        } else {
            return Err(ParseError::Unexpected(
                "keyword".to_owned(),
                ReadState::ReadHeader(HeaderSubstate::InferLine),
                offset,
            ));
        }
    }
}

/// Parse the record lines: one point per line, one word per declared
/// property, until the input runs out of line ends.
fn parse_points(buffer: &[u8], start: usize, header: Header) -> (r: Result<
    PlyFileContent,
    ParseError,
>)
    requires
        start <= buffer@.len(),
    ensures
        r matches Ok(c) ==> c.header.properties@.len() > 0 ==> forall|i: int|
            0 <= i < c.voxels@.len()
                ==> c.albedos@.contains_key((#[trigger] c.voxels@[i]).albedo_key),
{
    let len = buffer.len();
    let mut voxels: Vec<PlyVoxel> = Vec::new();
    let mut albedos: HashMap<u32, Rgb> = HashMap::new();
    let mut min_point = Vec3i { x: i32::MAX, y: i32::MAX, z: i32::MAX };
    let mut offset = start;
    let nprops = header.properties.len();
    loop
        invariant
            offset <= len,
            len == buffer@.len(),
            nprops == header.properties@.len(),
            vstd::std_specs::hash::obeys_key_model::<u32>(),
            forall|i: int|
                0 <= i < voxels@.len() && nprops > 0
                    ==> albedos@.contains_key((#[trigger] voxels@[i]).albedo_key),
        decreases len - offset,
    {
        match seek_end_of_line(&buffer[offset..len]) {
            None => {
                break ;
            },
            Some(_) => {},
        }
        let ghost rec_start = offset;
        let mut pos = Vec3i { x: 0, y: 0, z: 0 };
        let mut albedo = Rgb { r: 0, g: 0, b: 0 };
        let mut albedo_key: u32 = 0;
        let mut v: usize = 0;
        while v < nprops
            invariant
                v <= nprops,
                nprops == header.properties@.len(),
                rec_start <= offset <= len,
                rec_start < len,
                len == buffer@.len(),
                vstd::std_specs::hash::obeys_key_model::<u32>(),
                v > 0 ==> albedos@.contains_key(albedo_key),
                forall|i: int|
                    0 <= i < voxels@.len() && nprops > 0
                        ==> albedos@.contains_key((#[trigger] voxels@[i]).albedo_key),
            decreases nprops - v,
        {
            let w_end = match seek_end_word(&buffer[offset..len]) {
                None => {
                    return Err(ParseError::Unexpected(
                        "word end".to_owned(),
                        ReadState::ReadPoint,
                        offset,
                    ));
                },
                Some(w) => w,
            };
            let word = &buffer[offset..offset + w_end];
            let var = header.properties[v];
            match var._type {
                Type::Pos(_) => {
                    let val = match parse_i32_bytes(word) {
                        None => {
                            return Err(ParseError::Unexpected(
                                "FloatParseError".to_owned(),
                                ReadState::ReadPoint,
                                offset,
                            ));
                        },
                        Some(x) => x,
                    };
                    match var.id {
                        Identifier::X => {
                            if val < min_point.x {
                                min_point.x = val;
                            }
                            pos.x = val;
                        },
                        Identifier::Y => {
                            if val < min_point.y {
                                min_point.y = val;
                            }
                            pos.y = val;
                        },
                        Identifier::Z => {
                            if val < min_point.z {
                                min_point.z = val;
                            }
                            pos.z = val;
                        },
                        _ => {},
                    }
                },
                Type::Uchar(_) => {
                    let val = match parse_u8_bytes(word) {
                        None => {
                            return Err(ParseError::Unexpected(
                                "FloatParseError".to_owned(),
                                ReadState::ReadPoint,
                                offset,
                            ));
                        },
                        Some(x) => x,
                    };
                    match var.id {
                        Identifier::R => {
                            albedo.r = val;
                        },
                        Identifier::G => {
                            albedo.g = val;
                        },
                        Identifier::B => {
                            albedo.b = val;
                        },
                        _ => {},
                    }
                },
                Type::AlbedoIndex(_) => {
                    return Err(ParseError::Unexpected(
                        "Type::AlbedoIndex".to_owned(),
                        ReadState::ReadPoint,
                        offset,
                    ));
                },
            }
            albedo_key = cantor_pair(albedo);
            if !albedos.contains_key(&albedo_key) {
                albedos.insert(albedo_key, albedo);
            }
            offset = offset + w_end + 1;
            v = v + 1;
        }
        voxels.push(PlyVoxel { pos, albedo_key });
        offset = advance(offset, 1, len);
    }
    Ok(PlyFileContent { header, voxels, albedos, min_point })
}

/// Parse a loaded ply point file: the header state machine, then one
/// point record per line. Every accepted file starts with the fixed
/// prologue, and every loaded point's albedo key is filed in the albedo
/// table (whenever the header declared any property at all).
pub fn parse_ply(buffer: &[u8]) -> (r: Result<PlyFileContent, ParseError>)
    ensures
        r matches Ok(c) ==> spec_ply_magic(buffer@),
        r matches Ok(c) ==> c.header.properties@.len() > 0 ==> forall|i: int|
            0 <= i < c.voxels@.len()
                ==> c.albedos@.contains_key((#[trigger] c.voxels@[i]).albedo_key),
{
    let (header, offset) = match parse_header(buffer) {
        Err(e) => {
            return Err(e);
        },
        Ok(p) => p,
    };
    parse_points(buffer, offset, header)
}

} // verus!
