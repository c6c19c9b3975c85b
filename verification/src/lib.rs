//! Decoder for the lump directory of a BSP level file.
//!
//! A level file holds a directory of up to 64 lumps. Each lump is a byte
//! region of the file that holds records of one kind, optionally wrapped in an
//! LZMA container, or, for the first slot, the entity text.

use crate::error::LumpError;
use crate::le::{get_u32, i32_at, to_i32};
use crate::lumps::lump_parser::{directory_in_file, parse_lump_data, ParsedLumps};
use crate::lumps::lump_types::{parse_count, read_count};
use crate::lumps::{Lump, LumpReader};
use vstd::prelude::*;
use vstd::slice::slice_subrange;

pub mod entities;
pub mod error;
pub mod le;
pub mod lumps;

verus! {

/// The length of the header at the start of a level file.
pub const HEADER_LEN: usize = 8;

/// The number of entries of the lump directory.
pub const LUMP_COUNT: usize = 64;

/// The length of the lump directory, which stands behind the header.
pub const DIRECTORY_LEN: usize = 1024;

/// The header of a level file.
#[derive(Debug, Clone, Copy, PartialEq, Eq)]
pub struct BspHeader {
    /// The format identifier
    pub ident: i32,
    /// The format version
    pub version: i32,
}

/// A level file in memory.
pub struct BspParser {
    /// The bytes of the file
    pub data: Vec<u8>,
}

/// The entries of the lump directory of the file `file`.
pub open spec fn directory_of(file: Seq<u8>) -> Seq<Lump> {
    Seq::new(LUMP_COUNT as nat, |i: int| Lump::decode(file, HEADER_LEN + 16 * i))
}

impl BspParser {
    /// The header of the file. Fails with `OutOfRange` where the file is
    /// shorter than its header.
    pub fn fetch_header(&self) -> (r: Result<BspHeader, LumpError>)
        ensures
            match r {
                Ok(header) => self.data@.len() >= HEADER_LEN && header.ident == i32_at(
                    self.data@,
                    0,
                ) && header.version == i32_at(self.data@, 4),
                Err(e) => self.data@.len() < HEADER_LEN && e == LumpError::OutOfRange,
            },
    {
        if self.data.len() < HEADER_LEN {
            return Err(LumpError::OutOfRange);
        }
        Ok(
            BspHeader {
                ident: to_i32(get_u32(self.data.as_slice(), 0)),
                version: to_i32(get_u32(self.data.as_slice(), 4)),
            },
        )
    }

    /// The 64 entries of the lump directory, which stands behind the header.
    /// Fails with `OutOfRange` where the file ends before the directory does.
    pub fn read_lump_info(&self) -> (r: Result<Vec<Lump>, LumpError>)
        ensures
            match r {
                Ok(lumps) => self.data@.len() >= HEADER_LEN + DIRECTORY_LEN && lumps@
                    == directory_of(self.data@),
                Err(e) => self.data@.len() < HEADER_LEN + DIRECTORY_LEN && e
                    == LumpError::OutOfRange,
            },
    {
        if self.data.len() < HEADER_LEN + DIRECTORY_LEN {
            return Err(LumpError::OutOfRange);
        }
        let directory = slice_subrange(
            self.data.as_slice(),
            HEADER_LEN,
            HEADER_LEN + DIRECTORY_LEN,
        );
        let mut reader = LumpReader::new(directory);
        proof {
            lemma_directory(self.data@, LUMP_COUNT as nat);
        }
        let lumps = read_count::<Lump>(&mut reader, LUMP_COUNT)?;
        Ok(lumps)
    }

    /// Decodes the lumps that the directory of the file names.
    ///
    /// Fails with `OutOfRange` where the file ends before its directory
    /// does, or an entry of the directory names bytes outside the file. A
    /// lump that does not decompress or decode leaves its collection empty.
    pub fn parse(&self) -> (r: Result<ParsedLumps, LumpError>)
        ensures
            match r {
                Ok(parsed) => self.data@.len() >= HEADER_LEN + DIRECTORY_LEN
                    && directory_in_file(directory_of(self.data@), self.data@.len() as int)
                    && parsed.decoded_from(directory_of(self.data@), self.data@),
                Err(e) => e == LumpError::OutOfRange && (self.data@.len() < HEADER_LEN
                    + DIRECTORY_LEN || !directory_in_file(
                    directory_of(self.data@),
                    self.data@.len() as int,
                )),
            },
    {
        let lumps = self.read_lump_info()?;
        parse_lump_data(lumps, self.data.as_slice())
    }
}

/// The first `count` entries of a directory that holds them all, read from
/// the bytes of the directory alone, are those at their places in the file.
proof fn lemma_directory(file: Seq<u8>, count: nat)
    requires
        file.len() >= HEADER_LEN + DIRECTORY_LEN,
        count <= LUMP_COUNT,
    ensures
        parse_count::<Lump>(
            file.subrange(HEADER_LEN as int, HEADER_LEN + DIRECTORY_LEN),
            0,
            count,
        ) == Some(
            (Seq::new(count, |i: int| Lump::decode(file, HEADER_LEN + 16 * i)), 16 * count as int),
        ),
    decreases count,
{
    let directory = file.subrange(HEADER_LEN as int, HEADER_LEN + DIRECTORY_LEN);
    if count > 0 {
        let n = (count - 1) as nat;
        lemma_directory(file, n);
        let front = Seq::new(n, |i: int| Lump::decode(file, HEADER_LEN + 16 * i));
        let at = 16 * n as int;
        assert(Lump::decode(directory, at) == Lump::decode(file, HEADER_LEN + at));
        assert(front.push(Lump::decode(directory, at)) =~= Seq::new(
            count,
            |i: int| Lump::decode(file, HEADER_LEN + 16 * i),
        ));
    }
}

} // verus!
