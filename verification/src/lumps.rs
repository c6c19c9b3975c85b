//! The lump directory entry, the kinds of lump, and the byte cursor that every
//! decoder reads from.

use crate::error::LumpError;
use crate::le::{
    f32_at, get_u16, get_u32, i16_at, i32_at, i32_bytes, i8_at, lemma_byte_round_trip,
    lemma_quad_round_trip, to_i16, to_i32, to_i8, u16_at, u32_at, u32_bytes, u8_at, u8_bytes,
    FloatBits,
};
use crate::lumps::lump_types::{whole, BspParseable};
use vstd::prelude::*;
use vstd::slice::{slice_subrange, slice_to_vec};

pub mod lump_parser;
pub mod lump_types;

verus! {

/// One entry of the lump directory.
#[derive(Debug, Clone, Copy, PartialEq, Eq)]
pub struct Lump {
    /// Where the lump starts in the file; 0 where the file has no such lump.
    pub fileofs: i32,
    /// How many bytes the lump takes in the file.
    pub filelen: i32,
    /// The version of the lump's record layout.
    pub version: i32,
    /// All zero where the lump is stored as it is; anything else where it is
    /// compressed.
    pub ident: [u8; 4],
}

impl View for Lump {
    type V = Lump;

    open spec fn view(&self) -> Lump {
        *self
    }
}

impl Lump {
    /// The directory entry stored in the 16 bytes from `at` on.
    pub open spec fn decode(data: Seq<u8>, at: int) -> Lump {
        Lump {
            fileofs: i32_at(data, at),
            filelen: i32_at(data, at + 4),
            version: i32_at(data, at + 8),
            ident: [
                u8_at(data, at + 12),
                u8_at(data, at + 13),
                u8_at(data, at + 14),
                u8_at(data, at + 15),
            ],
        }
    }
}

impl BspParseable for Lump {
    open spec fn stride() -> Option<nat> {
        Some(16)
    }

    open spec fn parse(data: Seq<u8>, at: int) -> Option<(Lump, int)> {
        whole(data, at, 16, Lump::decode(data, at))
    }

    open spec fn encode(v: Lump) -> Seq<u8> {
        i32_bytes(v.fileofs)
            + i32_bytes(v.filelen)
            + i32_bytes(v.version)
            + u8_bytes(v.ident[0])
            + u8_bytes(v.ident[1])
            + u8_bytes(v.ident[2])
            + u8_bytes(v.ident[3])
    }

    proof fn lemma_parse(data: Seq<u8>, at: int) {
        if at + 16 <= data.len() {
            lemma_quad_round_trip(data, at, at);
            lemma_quad_round_trip(data, at, at + 4);
            lemma_quad_round_trip(data, at, at + 8);
            lemma_byte_round_trip(data, at, at + 12);
            lemma_byte_round_trip(data, at, at + 13);
            lemma_byte_round_trip(data, at, at + 14);
            lemma_byte_round_trip(data, at, at + 15);
        }
    }

    fn from_reader(data: &mut LumpReader) -> (r: Result<Self, LumpError>) {
        if data.remaining() < 16 {
            return Err(LumpError::OutOfRange);
        }
        let fileofs = data.read_i32()?;
        let filelen = data.read_i32()?;
        let version = data.read_i32()?;
        let ident = (data.read_u8()?, data.read_u8()?, data.read_u8()?, data.read_u8()?);
        Ok(Lump { fileofs, filelen, version, ident: [ident.0, ident.1, ident.2, ident.3] })
    }
}

/// What a slot of the directory holds, in the order of the slots.
#[derive(Debug, Clone, Copy, PartialEq, Eq, Structural)]
pub enum LumpType {
    Entities,
    Plane,
    Texdata,
    Vertexes,
    Visibility,
    Nodes,
    Texinfo,
    Faces,
    Lighting,
    Occlusion,
    Leafs,
    Faceids,
    Edges,
    Surfedges,
    Models,
    Worldlights,
    Leaffaces,
    Leafbrushes,
    Brushes,
    Brushsides,
    Areas,
    Areaportals,
    UNUSED0,
    UNUSED1,
    UNUSED2,
    UNUSED3,
    Dispinfo,
    Originalfaces,
    Physdisp,
    Physcollide,
    Vertnormals,
    Vertnormalindices,
    DispLightmapAlphas,
    DispVerts,
    DispLightmapSamplePositions,
    GameLump,
    Leafwaterdata,
    Primitives,
    Primverts,
    Primindicies,
    Pakfile,
    Clipportalverts,
    Cubemaps,
    TexdataStringData,
    TexdataStringTable,
    Overlays,
    Leafmindisttowater,
    FaceMacroTextureInfo,
    DispTris,
    Physcollidesurface,
    Wateroverlays,
    LeafAmbientIndexHDR,
    LeafAmbientIndex,
    LightingHDR,
    WorldlightsHDR,
    LeafAmbientLightingHDR,
    LeafAmbientLighting,
    Xzippakfile,
    FacesHDR,
    MapFlags,
    OverlayFades,
    OverlaySystemLevels,
    Physlevel,
    DispMultiblend,
}

impl LumpType {
    /// The slot of the directory that holds this kind of lump.
    #[verifier::opaque]
    pub open spec fn slot(self) -> int {
        match self {
            LumpType::Entities => 0,
            LumpType::Plane => 1,
            LumpType::Texdata => 2,
            LumpType::Vertexes => 3,
            LumpType::Visibility => 4,
            LumpType::Nodes => 5,
            LumpType::Texinfo => 6,
            LumpType::Faces => 7,
            LumpType::Lighting => 8,
            LumpType::Occlusion => 9,
            LumpType::Leafs => 10,
            LumpType::Faceids => 11,
            LumpType::Edges => 12,
            LumpType::Surfedges => 13,
            LumpType::Models => 14,
            LumpType::Worldlights => 15,
            LumpType::Leaffaces => 16,
            LumpType::Leafbrushes => 17,
            LumpType::Brushes => 18,
            LumpType::Brushsides => 19,
            LumpType::Areas => 20,
            LumpType::Areaportals => 21,
            LumpType::UNUSED0 => 22,
            LumpType::UNUSED1 => 23,
            LumpType::UNUSED2 => 24,
            LumpType::UNUSED3 => 25,
            LumpType::Dispinfo => 26,
            LumpType::Originalfaces => 27,
            LumpType::Physdisp => 28,
            LumpType::Physcollide => 29,
            LumpType::Vertnormals => 30,
            LumpType::Vertnormalindices => 31,
            LumpType::DispLightmapAlphas => 32,
            LumpType::DispVerts => 33,
            LumpType::DispLightmapSamplePositions => 34,
            LumpType::GameLump => 35,
            LumpType::Leafwaterdata => 36,
            LumpType::Primitives => 37,
            LumpType::Primverts => 38,
            LumpType::Primindicies => 39,
            LumpType::Pakfile => 40,
            LumpType::Clipportalverts => 41,
            LumpType::Cubemaps => 42,
            LumpType::TexdataStringData => 43,
            LumpType::TexdataStringTable => 44,
            LumpType::Overlays => 45,
            LumpType::Leafmindisttowater => 46,
            LumpType::FaceMacroTextureInfo => 47,
            LumpType::DispTris => 48,
            LumpType::Physcollidesurface => 49,
            LumpType::Wateroverlays => 50,
            LumpType::LeafAmbientIndexHDR => 51,
            LumpType::LeafAmbientIndex => 52,
            LumpType::LightingHDR => 53,
            LumpType::WorldlightsHDR => 54,
            LumpType::LeafAmbientLightingHDR => 55,
            LumpType::LeafAmbientLighting => 56,
            LumpType::Xzippakfile => 57,
            LumpType::FacesHDR => 58,
            LumpType::MapFlags => 59,
            LumpType::OverlayFades => 60,
            LumpType::OverlaySystemLevels => 61,
            LumpType::Physlevel => 62,
            LumpType::DispMultiblend => 63,
        }
    }

    /// The kind of lump in slot `index`, for the 64 slots of a directory.
    #[verifier::opaque]
    pub open spec fn of_slot(index: int) -> Option<LumpType> {
        if index == 0 {
            Some(LumpType::Entities)
        } else if index == 1 {
            Some(LumpType::Plane)
        } else if index == 2 {
            Some(LumpType::Texdata)
        } else if index == 3 {
            Some(LumpType::Vertexes)
        } else if index == 4 {
            Some(LumpType::Visibility)
        } else if index == 5 {
            Some(LumpType::Nodes)
        } else if index == 6 {
            Some(LumpType::Texinfo)
        } else if index == 7 {
            Some(LumpType::Faces)
        } else if index == 8 {
            Some(LumpType::Lighting)
        } else if index == 9 {
            Some(LumpType::Occlusion)
        } else if index == 10 {
            Some(LumpType::Leafs)
        } else if index == 11 {
            Some(LumpType::Faceids)
        } else if index == 12 {
            Some(LumpType::Edges)
        } else if index == 13 {
            Some(LumpType::Surfedges)
        } else if index == 14 {
            Some(LumpType::Models)
        } else if index == 15 {
            Some(LumpType::Worldlights)
        } else if index == 16 {
            Some(LumpType::Leaffaces)
        } else if index == 17 {
            Some(LumpType::Leafbrushes)
        } else if index == 18 {
            Some(LumpType::Brushes)
        } else if index == 19 {
            Some(LumpType::Brushsides)
        } else if index == 20 {
            Some(LumpType::Areas)
        } else if index == 21 {
            Some(LumpType::Areaportals)
        } else if index == 22 {
            Some(LumpType::UNUSED0)
        } else if index == 23 {
            Some(LumpType::UNUSED1)
        } else if index == 24 {
            Some(LumpType::UNUSED2)
        } else if index == 25 {
            Some(LumpType::UNUSED3)
        } else if index == 26 {
            Some(LumpType::Dispinfo)
        } else if index == 27 {
            Some(LumpType::Originalfaces)
        } else if index == 28 {
            Some(LumpType::Physdisp)
        } else if index == 29 {
            Some(LumpType::Physcollide)
        } else if index == 30 {
            Some(LumpType::Vertnormals)
        } else if index == 31 {
            Some(LumpType::Vertnormalindices)
        } else if index == 32 {
            Some(LumpType::DispLightmapAlphas)
        } else if index == 33 {
            Some(LumpType::DispVerts)
        } else if index == 34 {
            Some(LumpType::DispLightmapSamplePositions)
        } else if index == 35 {
            Some(LumpType::GameLump)
        } else if index == 36 {
            Some(LumpType::Leafwaterdata)
        } else if index == 37 {
            Some(LumpType::Primitives)
        } else if index == 38 {
            Some(LumpType::Primverts)
        } else if index == 39 {
            Some(LumpType::Primindicies)
        } else if index == 40 {
            Some(LumpType::Pakfile)
        } else if index == 41 {
            Some(LumpType::Clipportalverts)
        } else if index == 42 {
            Some(LumpType::Cubemaps)
        } else if index == 43 {
            Some(LumpType::TexdataStringData)
        } else if index == 44 {
            Some(LumpType::TexdataStringTable)
        } else if index == 45 {
            Some(LumpType::Overlays)
        } else if index == 46 {
            Some(LumpType::Leafmindisttowater)
        } else if index == 47 {
            Some(LumpType::FaceMacroTextureInfo)
        } else if index == 48 {
            Some(LumpType::DispTris)
        } else if index == 49 {
            Some(LumpType::Physcollidesurface)
        } else if index == 50 {
            Some(LumpType::Wateroverlays)
        } else if index == 51 {
            Some(LumpType::LeafAmbientIndexHDR)
        } else if index == 52 {
            Some(LumpType::LeafAmbientIndex)
        } else if index == 53 {
            Some(LumpType::LightingHDR)
        } else if index == 54 {
            Some(LumpType::WorldlightsHDR)
        } else if index == 55 {
            Some(LumpType::LeafAmbientLightingHDR)
        } else if index == 56 {
            Some(LumpType::LeafAmbientLighting)
        } else if index == 57 {
            Some(LumpType::Xzippakfile)
        } else if index == 58 {
            Some(LumpType::FacesHDR)
        } else if index == 59 {
            Some(LumpType::MapFlags)
        } else if index == 60 {
            Some(LumpType::OverlayFades)
        } else if index == 61 {
            Some(LumpType::OverlaySystemLevels)
        } else if index == 62 {
            Some(LumpType::Physlevel)
        } else if index == 63 {
            Some(LumpType::DispMultiblend)
        } else {
            None
        }
    }

    /// Every kind is the kind of its own slot, and the directory has no
    /// other slots than those of the kinds.
    pub proof fn lemma_slots(kind: LumpType, index: int)
        ensures
            0 <= kind.slot() < 64,
            LumpType::of_slot(kind.slot()) == Some(kind),
            LumpType::of_slot(index) matches Some(k) ==> k.slot() == index,
            LumpType::of_slot(index) is Some <==> 0 <= index < 64,
    {
        reveal(LumpType::slot);
        reveal(LumpType::of_slot);
    }

    /// The slot of the directory that holds this kind of lump.
    pub fn index(self) -> (index: usize)
        ensures
            index == self.slot(),
    {
        reveal(LumpType::slot);
        match self {
            LumpType::Entities => 0,
            LumpType::Plane => 1,
            LumpType::Texdata => 2,
            LumpType::Vertexes => 3,
            LumpType::Visibility => 4,
            LumpType::Nodes => 5,
            LumpType::Texinfo => 6,
            LumpType::Faces => 7,
            LumpType::Lighting => 8,
            LumpType::Occlusion => 9,
            LumpType::Leafs => 10,
            LumpType::Faceids => 11,
            LumpType::Edges => 12,
            LumpType::Surfedges => 13,
            LumpType::Models => 14,
            LumpType::Worldlights => 15,
            LumpType::Leaffaces => 16,
            LumpType::Leafbrushes => 17,
            LumpType::Brushes => 18,
            LumpType::Brushsides => 19,
            LumpType::Areas => 20,
            LumpType::Areaportals => 21,
            LumpType::UNUSED0 => 22,
            LumpType::UNUSED1 => 23,
            LumpType::UNUSED2 => 24,
            LumpType::UNUSED3 => 25,
            LumpType::Dispinfo => 26,
            LumpType::Originalfaces => 27,
            LumpType::Physdisp => 28,
            LumpType::Physcollide => 29,
            LumpType::Vertnormals => 30,
            LumpType::Vertnormalindices => 31,
            LumpType::DispLightmapAlphas => 32,
            LumpType::DispVerts => 33,
            LumpType::DispLightmapSamplePositions => 34,
            LumpType::GameLump => 35,
            LumpType::Leafwaterdata => 36,
            LumpType::Primitives => 37,
            LumpType::Primverts => 38,
            LumpType::Primindicies => 39,
            LumpType::Pakfile => 40,
            LumpType::Clipportalverts => 41,
            LumpType::Cubemaps => 42,
            LumpType::TexdataStringData => 43,
            LumpType::TexdataStringTable => 44,
            LumpType::Overlays => 45,
            LumpType::Leafmindisttowater => 46,
            LumpType::FaceMacroTextureInfo => 47,
            LumpType::DispTris => 48,
            LumpType::Physcollidesurface => 49,
            LumpType::Wateroverlays => 50,
            LumpType::LeafAmbientIndexHDR => 51,
            LumpType::LeafAmbientIndex => 52,
            LumpType::LightingHDR => 53,
            LumpType::WorldlightsHDR => 54,
            LumpType::LeafAmbientLightingHDR => 55,
            LumpType::LeafAmbientLighting => 56,
            LumpType::Xzippakfile => 57,
            LumpType::FacesHDR => 58,
            LumpType::MapFlags => 59,
            LumpType::OverlayFades => 60,
            LumpType::OverlaySystemLevels => 61,
            LumpType::Physlevel => 62,
            LumpType::DispMultiblend => 63,
        }
    }

    /// The kind of lump in slot `index`; `None` from 64 on.
    pub fn from_index(index: usize) -> (kind: Option<LumpType>)
        ensures
            kind == LumpType::of_slot(index as int),
    {
        reveal(LumpType::of_slot);
        match index {
            0 => Some(LumpType::Entities),
            1 => Some(LumpType::Plane),
            2 => Some(LumpType::Texdata),
            3 => Some(LumpType::Vertexes),
            4 => Some(LumpType::Visibility),
            5 => Some(LumpType::Nodes),
            6 => Some(LumpType::Texinfo),
            7 => Some(LumpType::Faces),
            8 => Some(LumpType::Lighting),
            9 => Some(LumpType::Occlusion),
            10 => Some(LumpType::Leafs),
            11 => Some(LumpType::Faceids),
            12 => Some(LumpType::Edges),
            13 => Some(LumpType::Surfedges),
            14 => Some(LumpType::Models),
            15 => Some(LumpType::Worldlights),
            16 => Some(LumpType::Leaffaces),
            17 => Some(LumpType::Leafbrushes),
            18 => Some(LumpType::Brushes),
            19 => Some(LumpType::Brushsides),
            20 => Some(LumpType::Areas),
            21 => Some(LumpType::Areaportals),
            22 => Some(LumpType::UNUSED0),
            23 => Some(LumpType::UNUSED1),
            24 => Some(LumpType::UNUSED2),
            25 => Some(LumpType::UNUSED3),
            26 => Some(LumpType::Dispinfo),
            27 => Some(LumpType::Originalfaces),
            28 => Some(LumpType::Physdisp),
            29 => Some(LumpType::Physcollide),
            30 => Some(LumpType::Vertnormals),
            31 => Some(LumpType::Vertnormalindices),
            32 => Some(LumpType::DispLightmapAlphas),
            33 => Some(LumpType::DispVerts),
            34 => Some(LumpType::DispLightmapSamplePositions),
            35 => Some(LumpType::GameLump),
            36 => Some(LumpType::Leafwaterdata),
            37 => Some(LumpType::Primitives),
            38 => Some(LumpType::Primverts),
            39 => Some(LumpType::Primindicies),
            40 => Some(LumpType::Pakfile),
            41 => Some(LumpType::Clipportalverts),
            42 => Some(LumpType::Cubemaps),
            43 => Some(LumpType::TexdataStringData),
            44 => Some(LumpType::TexdataStringTable),
            45 => Some(LumpType::Overlays),
            46 => Some(LumpType::Leafmindisttowater),
            47 => Some(LumpType::FaceMacroTextureInfo),
            48 => Some(LumpType::DispTris),
            49 => Some(LumpType::Physcollidesurface),
            50 => Some(LumpType::Wateroverlays),
            51 => Some(LumpType::LeafAmbientIndexHDR),
            52 => Some(LumpType::LeafAmbientIndex),
            53 => Some(LumpType::LightingHDR),
            54 => Some(LumpType::WorldlightsHDR),
            55 => Some(LumpType::LeafAmbientLightingHDR),
            56 => Some(LumpType::LeafAmbientLighting),
            57 => Some(LumpType::Xzippakfile),
            58 => Some(LumpType::FacesHDR),
            59 => Some(LumpType::MapFlags),
            60 => Some(LumpType::OverlayFades),
            61 => Some(LumpType::OverlaySystemLevels),
            62 => Some(LumpType::Physlevel),
            63 => Some(LumpType::DispMultiblend),
            _ => None,
        }
    }
}

/// The unsigned 32-bit integers stored one after another from `at` on.
pub open spec fn u32s_at(data: Seq<u8>, at: int, count: nat) -> Seq<u32> {
    Seq::new(count, |i: int| u32_at(data, at + 4 * i))
}

/// The bytes that store the unsigned 32-bit integers `xs` one after another.
pub open spec fn u32s_bytes(xs: Seq<u32>) -> Seq<u8>
    decreases xs.len(),
{
    if xs.len() == 0 {
        Seq::empty()
    } else {
        u32s_bytes(xs.drop_last()) + u32_bytes(xs.last())
    }
}

/// Unsigned 32-bit integers are stored as the bytes they were read from;
/// behind the bytes from `from` to `at`, those bytes give the bytes from
/// `from` to `at + 4 * count`.
pub proof fn lemma_u32s_round_trip(data: Seq<u8>, from: int, at: int, count: nat)
    requires
        0 <= from <= at,
        at + 4 * count <= data.len(),
    ensures
        data.subrange(from, at) + u32s_bytes(u32s_at(data, at, count)) == data.subrange(
            from,
            at + 4 * count,
        ),
    decreases count,
{
    if count > 0 {
        let n = (count - 1) as nat;
        lemma_u32s_round_trip(data, from, at, n);
        lemma_quad_round_trip(data, from, at + 4 * n);
        assert(u32s_at(data, at, count).drop_last() =~= u32s_at(data, at, n));
        assert(data.subrange(from, at) + (u32s_bytes(u32s_at(data, at, n)) + u32_bytes(
            u32_at(data, at + 4 * n),
        )) =~= data.subrange(from, at) + u32s_bytes(u32s_at(data, at, n)) + u32_bytes(
            u32_at(data, at + 4 * n),
        ));
    }
}

/// A sequential little-endian reader over its own copy of a byte region.
pub struct LumpReader {
    position: usize,
    data: Vec<u8>,
}

impl LumpReader {
    #[verifier::type_invariant]
    spec fn in_bounds(&self) -> bool {
        self.position <= self.data.len()
    }

    /// The bytes of the region.
    pub closed spec fn bytes(&self) -> Seq<u8> {
        self.data@
    }

    /// How many bytes of the region have been read.
    pub closed spec fn pos(&self) -> int {
        self.position as int
    }

    /// How many bytes are left to read.
    pub open spec fn left(&self) -> int {
        self.bytes().len() - self.pos()
    }

    /// `next` is this reader `n` bytes further on, over the same region.
    pub open spec fn steps_to(&self, next: &LumpReader, n: int) -> bool {
        next.bytes() == self.bytes() && next.pos() == self.pos() + n
    }

    /// A reader at the start of a copy of `data`.
    pub fn new(data: &[u8]) -> (reader: Self)
        ensures
            reader.bytes() == data@,
            reader.pos() == 0,
    {
        LumpReader { position: 0, data: slice_to_vec(data) }
    }

    /// Reads the bits of a single-precision number and moves past it. Where fewer
    /// than 4 bytes are left, the cursor stays where it was.
    pub fn read_f32(&mut self) -> (r: Result<FloatBits, LumpError>)
        ensures
            match r {
                Ok(x) => old(self).left() >= 4 && x == f32_at(old(self).bytes(), old(self).pos())
                    && old(self).steps_to(final(self), 4),
                Err(e) => e == LumpError::OutOfRange && old(self).left() < 4
                    && old(self).steps_to(final(self), 0),
            },
    {
        proof {
            use_type_invariant(&*self);
        }
        if self.data.len() - self.position < 4 {
            return Err(LumpError::OutOfRange);
        }
        let x = FloatBits { bits: get_u32(self.data.as_slice(), self.position) };
        self.position = self.position + 4;
        Ok(x)
    }

    /// Reads a signed 32-bit integer and moves past it. Where fewer than 4 bytes
    /// are left, the cursor stays where it was.
    pub fn read_i32(&mut self) -> (r: Result<i32, LumpError>)
        ensures
            match r {
                Ok(x) => old(self).left() >= 4 && x == i32_at(old(self).bytes(), old(self).pos())
                    && old(self).steps_to(final(self), 4),
                Err(e) => e == LumpError::OutOfRange && old(self).left() < 4
                    && old(self).steps_to(final(self), 0),
            },
    {
        proof {
            use_type_invariant(&*self);
        }
        if self.data.len() - self.position < 4 {
            return Err(LumpError::OutOfRange);
        }
        let x = to_i32(get_u32(self.data.as_slice(), self.position));
        self.position = self.position + 4;
        Ok(x)
    }

    /// Reads an unsigned 32-bit integer and moves past it. Where fewer than 4
    /// bytes are left, the cursor stays where it was.
    pub fn read_u32(&mut self) -> (r: Result<u32, LumpError>)
        ensures
            match r {
                Ok(x) => old(self).left() >= 4 && x == u32_at(old(self).bytes(), old(self).pos())
                    && old(self).steps_to(final(self), 4),
                Err(e) => e == LumpError::OutOfRange && old(self).left() < 4
                    && old(self).steps_to(final(self), 0),
            },
    {
        proof {
            use_type_invariant(&*self);
        }
        if self.data.len() - self.position < 4 {
            return Err(LumpError::OutOfRange);
        }
        let x = get_u32(self.data.as_slice(), self.position);
        self.position = self.position + 4;
        Ok(x)
    }

    /// Reads `count` unsigned 32-bit integers and moves past them. Where
    /// fewer than `4 * count` bytes are left, the cursor stays where it was.
    pub fn read_x_u32(&mut self, count: usize) -> (r: Result<Vec<u32>, LumpError>)
        ensures
            match r {
                Ok(out) => old(self).left() >= 4 * count && out@ == u32s_at(
                    old(self).bytes(),
                    old(self).pos(),
                    count as nat,
                ) && old(self).steps_to(final(self), 4 * count),
                Err(e) => e == LumpError::OutOfRange && old(self).left() < 4 * count
                    && old(self).steps_to(final(self), 0),
            },
    {
        if count > self.remaining() / 4 {
            return Err(LumpError::OutOfRange);
        }
        let ghost start = self.pos();
        let mut out: Vec<u32> = Vec::new();
        for i in 0..count
            invariant
                self.bytes() == old(self).bytes(),
                start == old(self).pos(),
                self.pos() == start + 4 * i,
                start + 4 * count <= self.bytes().len(),
                out@ == u32s_at(self.bytes(), start, i as nat),
        {
            let x = self.read_u32()?;
            out.push(x);
        }
        Ok(out)
    }

    /// Reads an unsigned 16-bit integer and moves past it. Where fewer than 2
    /// bytes are left, the cursor stays where it was.
    pub fn read_u16(&mut self) -> (r: Result<u16, LumpError>)
        ensures
            match r {
                Ok(x) => old(self).left() >= 2 && x == u16_at(old(self).bytes(), old(self).pos())
                    && old(self).steps_to(final(self), 2),
                Err(e) => e == LumpError::OutOfRange && old(self).left() < 2
                    && old(self).steps_to(final(self), 0),
            },
    {
        proof {
            use_type_invariant(&*self);
        }
        if self.data.len() - self.position < 2 {
            return Err(LumpError::OutOfRange);
        }
        let x = get_u16(self.data.as_slice(), self.position);
        self.position = self.position + 2;
        Ok(x)
    }

    /// Reads a signed 16-bit integer and moves past it. Where fewer than 2 bytes
    /// are left, the cursor stays where it was.
    pub fn read_i16(&mut self) -> (r: Result<i16, LumpError>)
        ensures
            match r {
                Ok(x) => old(self).left() >= 2 && x == i16_at(old(self).bytes(), old(self).pos())
                    && old(self).steps_to(final(self), 2),
                Err(e) => e == LumpError::OutOfRange && old(self).left() < 2
                    && old(self).steps_to(final(self), 0),
            },
    {
        proof {
            use_type_invariant(&*self);
        }
        if self.data.len() - self.position < 2 {
            return Err(LumpError::OutOfRange);
        }
        let x = to_i16(get_u16(self.data.as_slice(), self.position));
        self.position = self.position + 2;
        Ok(x)
    }

    /// Reads an unsigned 8-bit integer and moves past it. Where no byte is left,
    /// the cursor stays where it was.
    pub fn read_u8(&mut self) -> (r: Result<u8, LumpError>)
        ensures
            match r {
                Ok(x) => old(self).left() >= 1 && x == u8_at(old(self).bytes(), old(self).pos())
                    && old(self).steps_to(final(self), 1),
                Err(e) => e == LumpError::OutOfRange && old(self).left() < 1
                    && old(self).steps_to(final(self), 0),
            },
    {
        proof {
            use_type_invariant(&*self);
        }
        if self.data.len() - self.position < 1 {
            return Err(LumpError::OutOfRange);
        }
        let x = self.data[self.position];
        self.position = self.position + 1;
        Ok(x)
    }

    /// Reads a signed 8-bit integer and moves past it. Where no byte is left, the
    /// cursor stays where it was.
    pub fn read_i8(&mut self) -> (r: Result<i8, LumpError>)
        ensures
            match r {
                Ok(x) => old(self).left() >= 1 && x == i8_at(old(self).bytes(), old(self).pos())
                    && old(self).steps_to(final(self), 1),
                Err(e) => e == LumpError::OutOfRange && old(self).left() < 1
                    && old(self).steps_to(final(self), 0),
            },
    {
        proof {
            use_type_invariant(&*self);
        }
        if self.data.len() - self.position < 1 {
            return Err(LumpError::OutOfRange);
        }
        let x = to_i8(self.data[self.position]);
        self.position = self.position + 1;
        Ok(x)
    }

    /// Reads `count` bytes and moves past them. Where fewer are left, the
    /// cursor stays where it was.
    pub fn read_bytes(&mut self, count: usize) -> (r: Result<Vec<u8>, LumpError>)
        ensures
            match r {
                Ok(out) => old(self).left() >= count && out@ == old(self).bytes().subrange(
                    old(self).pos(),
                    old(self).pos() + count,
                ) && old(self).steps_to(final(self), count as int),
                Err(e) => e == LumpError::OutOfRange && old(self).left() < count
                    && old(self).steps_to(final(self), 0),
            },
    {
        proof {
            use_type_invariant(&*self);
        }
        if self.data.len() - self.position < count {
            return Err(LumpError::OutOfRange);
        }
        let end = self.position + count;
        let out = slice_to_vec(slice_subrange(self.data.as_slice(), self.position, end));
        self.position = end;
        Ok(out)
    }

    /// The bytes of the region, read or not.
    pub fn get_data(&self) -> (data: &[u8])
        ensures
            data@ == self.bytes(),
    {
        self.data.as_slice()
    }

    /// How many bytes of the region have been read.
    pub fn get_pos(&self) -> (pos: usize)
        ensures
            pos == self.pos(),
            pos <= self.bytes().len(),
    {
        proof {
            use_type_invariant(self);
        }
        self.position
    }

    /// Moves past `byte_count` bytes without reading them. Where fewer are
    /// left, the cursor stays where it was.
    pub fn skip_bytes(&mut self, byte_count: usize) -> (r: Result<(), LumpError>)
        ensures
            match r {
                Ok(_) => old(self).left() >= byte_count && old(self).steps_to(
                    final(self),
                    byte_count as int,
                ),
                Err(e) => e == LumpError::OutOfRange && old(self).left() < byte_count
                    && old(self).steps_to(final(self), 0),
            },
    {
        proof {
            use_type_invariant(&*self);
        }
        if self.data.len() - self.position < byte_count {
            return Err(LumpError::OutOfRange);
        }
        self.position = self.position + byte_count;
        Ok(())
    }

    /// The length of the region.
    pub fn get_len(&self) -> (len: usize)
        ensures
            len == self.bytes().len(),
    {
        self.data.len()
    }

    /// How many bytes are left to read.
    pub fn remaining(&self) -> (n: usize)
        ensures
            n == self.left(),
            0 <= self.pos() <= self.bytes().len(),
    {
        proof {
            use_type_invariant(self);
        }
        self.data.len() - self.position
    }

    /// Moves the cursor back to `position`.
    fn rewind(&mut self, position: usize)
        requires
            position <= old(self).pos(),
        ensures
            final(self).bytes() == old(self).bytes(),
            final(self).pos() == position,
    {
        proof {
            use_type_invariant(&*self);
        }
        self.position = position;
    }
}

} // verus!
