//! Decoding whole lumps: the loop over the records of a lump, the
//! compression wrapper, and the pass over the directory.

use crate::entities::{entities_in, parse_entities, Entity};
use crate::error::LumpError;
use crate::le::{lemma_u32_stored, put_u64, u32_at, u32_bytes, u64_at, u64_bytes};
use crate::lumps::lump_types::{
    encode_records, lemma_encode_records, views, Area, AreaPortal, Brush, Brushside, BspParseable,
    DisplacementInfo, Edge, Face, LightmapSample, Model, Node, Occluder, Plane, TexData, TexInfo,
    Vertex,
};
use crate::lumps::{Lump, LumpReader, LumpType};
use vstd::arithmetic::div_mod::{lemma_mod_multiples_vanish, lemma_small_mod};
use vstd::prelude::*;
use vstd::slice::slice_subrange;

verus! {

/// The records stored one after another from `at` to the end of the region,
/// or `None` where the region ends inside a record.
pub open spec fn parse_records<T: BspParseable>(data: Seq<u8>, at: int) -> Option<Seq<T::V>>
    decreases data.len() - at,
{
    if at >= data.len() {
        Some(Seq::empty())
    } else {
        match T::parse(data, at) {
            Some((v, end)) => if at < end <= data.len() {
                match parse_records::<T>(data, end) {
                    Some(rest) => Some(seq![v] + rest),
                    None => None,
                }
            } else {
                None
            },
            None => None,
        }
    }
}

/// Reads records until the region is used up. Where the region ends inside a
/// record, no record is handed out.
pub fn parse_type<T: BspParseable>(data: &mut LumpReader) -> (r: Result<Vec<T>, LumpError>)
    ensures
        final(data).bytes() == old(data).bytes(),
        match parse_records::<T>(old(data).bytes(), old(data).pos()) {
            Some(records) => r matches Ok(out) && views(out@) == records && final(data).pos()
                == final(data).bytes().len(),
            None => r == Err::<Vec<T>, LumpError>(LumpError::OutOfRange),
        },
{
    let mut out: Vec<T> = Vec::new();
    let ghost bytes = data.bytes();
    let ghost start = data.pos();
    while data.remaining() > 0
        invariant
            data.bytes() == bytes,
            bytes == old(data).bytes(),
            start == old(data).pos(),
            parse_records::<T>(bytes, start) == match parse_records::<T>(bytes, data.pos()) {
                Some(rest) => Some(views(out@) + rest),
                None => None,
            },
        decreases data.left(),
    {
        proof {
            T::lemma_parse(bytes, data.pos());
        }
        match T::from_reader(data) {
            Ok(x) => {
                out.push(x);
            },
            Err(e) => {
                return Err(e);
            },
        }
    }
    Ok(out)
}

/// From a position that `k` records of one length separate from the end of
/// the region, `k` records are decoded, and they are stored as the bytes
/// from there on.
pub proof fn lemma_whole_records<T: BspParseable>(data: Seq<u8>, at: int, k: nat)
    requires
        0 <= at,
        T::stride() matches Some(n) && at + k * n == data.len(),
    ensures
        parse_records::<T>(data, at) matches Some(records) && records.len() == k
            && encode_records::<T>(records) == data.subrange(at, data.len() as int),
    decreases k,
{
    let n = T::stride().unwrap();
    T::lemma_parse(data, at);
    if k == 0 {
        assert(k * n == 0) by (nonlinear_arith)
            requires
                k == 0,
        ;
    } else {
        assert(k * n == (k - 1) * n + n) by (nonlinear_arith);
        assert((k - 1) * n >= 0) by (nonlinear_arith)
            requires
                k >= 1,
                n >= 0,
        ;
        let (v, end) = T::parse(data, at).unwrap();
        lemma_whole_records::<T>(data, end, (k - 1) as nat);
        let rest = parse_records::<T>(data, end).unwrap();
        lemma_encode_records::<T>(rest, v);
        assert(data.subrange(at, end) + data.subrange(end, data.len() as int) =~= data.subrange(
            at,
            data.len() as int,
        ));
    }
}

/// Round trip: a region of exactly `k` records of one length decodes to `k`
/// records, and the bytes that store these records are the region.
pub proof fn lemma_round_trip<T: BspParseable>(region: Seq<u8>, k: nat)
    requires
        T::stride() matches Some(n) && region.len() == k * n,
    ensures
        parse_records::<T>(region, 0) matches Some(records) && records.len() == k
            && encode_records::<T>(records) == region,
{
    lemma_whole_records::<T>(region, 0, k);
}

/// From a position that no whole number of records of one length separates
/// from the end of the region, nothing is decoded.
pub proof fn lemma_broken_records<T: BspParseable>(data: Seq<u8>, at: int)
    requires
        0 <= at <= data.len(),
        T::stride() matches Some(n) && (data.len() - at) % (n as int) != 0,
    ensures
        parse_records::<T>(data, at) is None,
    decreases data.len() - at,
{
    let n = T::stride().unwrap() as int;
    T::lemma_parse(data, at);
    lemma_small_mod(0, n as nat);
    if let Some((v, end)) = T::parse(data, at) {
        lemma_mod_multiples_vanish(-1, data.len() - at, n);
        lemma_broken_records::<T>(data, end);
    }
}

/// A region whose length is no multiple of the length of its records does
/// not decode: its last bytes are never left out.
pub proof fn lemma_partial_record<T: BspParseable>(region: Seq<u8>)
    requires
        T::stride() matches Some(n) && region.len() % n != 0,
    ensures
        parse_records::<T>(region, 0) is None,
{
    lemma_broken_records::<T>(region, 0);
}

/// The error type of the LZMA decoder.
#[verifier::external_type_specification]
#[verifier::external_body]
pub struct ExLzmaError(lzma_rs::error::Error);

/// The bytes that `lzma_rs::lzma_decompress` writes for the input `stream`,
/// or `None` where it reports an error.
pub uninterp spec fn lzma_decoded(stream: Seq<u8>) -> Option<Seq<u8>>;

/// Runs `lzma_rs::lzma_decompress` on `stream`, with an empty vector to write
/// to. Nothing is proved of the decoder: the result is whatever it writes, and
/// its error where it reports one. Of its checks, three are stated: it reads a
/// header of 13 bytes and 5 bytes more before it decodes; it accepts no
/// properties byte from 225 on; and where the size in the header is not all
/// ones, it reports an error unless it has written exactly as many bytes.
#[verifier::external_body]
fn lzma_decode(stream: &[u8]) -> (r: Result<Vec<u8>, lzma_rs::error::Error>)
    ensures
        match r {
            Ok(out) => lzma_decoded(stream@) == Some(out@),
            Err(_) => lzma_decoded(stream@) is None,
        },
        r is Ok ==> stream@.len() >= 18 && stream@[0] < 225,
        r matches Ok(out) ==> u64_at(stream@, 5) == u64::MAX || out@.len() == u64_at(stream@, 5),
{
    let mut out = Vec::new();
    lzma_rs::lzma_decompress(&mut std::io::Cursor::new(stream), &mut out)?;
    Ok(out)
}

/// The length of the header in front of a compressed lump body: a magic
/// number, the decompressed size, the compressed size, each of 4 bytes, and 5
/// bytes of LZMA properties.
pub const WRAPPER_LEN: usize = 17;

/// The LZMA stream in standard form that a wrapped lump body stands for: the
/// properties, the decompressed size as 8 bytes, and the payload behind the
/// header.
pub open spec fn lzma_stream(region: Seq<u8>) -> Seq<u8> {
    region.subrange(12, 17) + u64_bytes(u32_at(region, 4) as u64) + region.subrange(
        17,
        region.len() as int,
    )
}

/// What a compressed lump body decompresses to.
pub open spec fn decompressed(region: Seq<u8>) -> Result<Seq<u8>, LumpError> {
    if region.len() < WRAPPER_LEN {
        Err(LumpError::OutOfRange)
    } else {
        match lzma_decoded(lzma_stream(region)) {
            Some(out) => Ok(out),
            None => Err(LumpError::DecompressionFailure),
        }
    }
}

/// The body of a compressed lump with the header fields `magic`, `size` and
/// `stored`, the LZMA properties `props` and the payload `payload`.
pub open spec fn wrapped(
    magic: Seq<u8>,
    size: u32,
    stored: u32,
    props: Seq<u8>,
    payload: Seq<u8>,
) -> Seq<u8> {
    magic + u32_bytes(size) + u32_bytes(stored) + props + payload
}

/// The wrapper loses nothing: a lump body decompresses to what the decoder
/// makes of its properties, its decompressed size as 8 bytes, and its
/// payload, whatever its magic number and its stored compressed size are.
pub proof fn lemma_wrapped_stream(
    magic: Seq<u8>,
    size: u32,
    stored: u32,
    props: Seq<u8>,
    payload: Seq<u8>,
)
    requires
        magic.len() == 4,
        props.len() == 5,
    ensures
        lzma_stream(wrapped(magic, size, stored, props, payload)) == props + u64_bytes(size as u64)
            + payload,
        decompressed(wrapped(magic, size, stored, props, payload)) == match lzma_decoded(
            props + u64_bytes(size as u64) + payload,
        ) {
            Some(out) => Ok::<Seq<u8>, LumpError>(out),
            None => Err(LumpError::DecompressionFailure),
        },
{
    let body = wrapped(magic, size, stored, props, payload);
    lemma_u32_stored(size);
    assert(body.subrange(12, 17) =~= props);
    assert(body.subrange(17, body.len() as int) =~= payload);
}

/// Decompresses the wrapped lump body that `data` has still to read, and
/// hands out a reader at the start of the decompressed bytes.
///
/// Fails with `OutOfRange` where the body is shorter than its header, and
/// with `DecompressionFailure` where the decoder rejects the stream.
pub fn decompress_lumps(data: LumpReader) -> (r: Result<LumpReader, LumpError>)
    ensures
        match decompressed(data.bytes().skip(data.pos())) {
            Ok(out) => r matches Ok(reader) && reader.bytes() == out && reader.pos() == 0,
            Err(e) => r matches Err(x) && x == e,
        },
        r matches Ok(reader) ==> data.left() >= WRAPPER_LEN + 5 && data.bytes()[data.pos() + 12]
            < 225 && reader.bytes().len() == u32_at(data.bytes(), data.pos() + 4),
{
    let mut data = data;
    let ghost region = data.bytes().skip(data.pos());
    if data.remaining() < WRAPPER_LEN {
        return Err(LumpError::OutOfRange);
    }
    let _ = data.read_u32()?;
    let actual_size = data.read_u32()?;
    // The stored compressed size is not used: the payload is all that follows.
    let _ = data.read_u32()?;
    let mut stream = data.read_bytes(5)?;
    put_u64(&mut stream, actual_size as u64);
    let mut payload = data.read_bytes(data.remaining())?;
    stream.append(&mut payload);
    proof {
        assert(stream@ =~= lzma_stream(region));
        lemma_u32_stored(actual_size);
    }
    match lzma_decode(stream.as_slice()) {
        Ok(out) => Ok(LumpReader::new(out.as_slice())),
        Err(_) => Err(LumpError::DecompressionFailure),
    }
}

/// What became of one entry of the directory.
#[derive(Debug, Clone, Copy, PartialEq, Eq, Structural)]
pub enum LumpOutcome {
    /// The file has no such lump.
    Absent,
    /// The lump was decoded into its collection.
    Decoded,
    /// No decoder reads this kind of lump.
    Skipped,
    /// The lump could not be decoded, and its collection is empty.
    Failed(LumpError),
}

/// The collections decoded from the lumps of a file: one for each kind of
/// lump that has a decoder, each in the order of the records in the file, and
/// empty where the lump is absent or could not be decoded.
#[derive(Debug)]
pub struct ParsedLumps {
    /// The entities
    pub entities: Vec<Entity>,
    /// The planes
    pub planes: Vec<Plane>,
    /// The texture data
    pub texdata: Vec<TexData>,
    /// The vertices
    pub vertex_list: Vec<Vertex>,
    /// The nodes of the BSP tree
    pub nodes: Vec<Node>,
    /// The texture infos
    pub texinfo: Vec<TexInfo>,
    /// The faces
    pub faces: Vec<Face>,
    /// The samples of the lightmap
    pub lightmap_samples: Vec<LightmapSample>,
    /// The occlusion groups
    pub occluders: Vec<Occluder>,
    /// The edges
    pub edges: Vec<Edge>,
    /// The signed edge indices of the faces
    pub surfedges: Vec<i32>,
    /// The models
    pub models: Vec<Model>,
    /// The face indices of the leaves
    pub leaf_faces: Vec<u16>,
    /// The brush indices of the leaves
    pub leaf_brushes: Vec<u16>,
    /// The brushes
    pub brushes: Vec<Brush>,
    /// The sides of the brushes
    pub brushsides: Vec<Brushside>,
    /// The areas
    pub areas: Vec<Area>,
    /// The portals between the areas
    pub area_portals: Vec<AreaPortal>,
    /// The displacement infos
    pub displacement_info: Vec<DisplacementInfo>,
    /// The faces before they were split
    pub original_faces: Vec<Face>,
    /// What became of each entry of the directory, in the order of the entries
    pub outcomes: Vec<LumpOutcome>,
}

impl Lump {
    /// Whether the file has the lump.
    pub open spec fn present(&self) -> bool {
        self.fileofs != 0
    }

    /// Whether the lump is stored compressed.
    pub open spec fn compressed(&self) -> bool {
        self.ident[0] != 0 || self.ident[1] != 0 || self.ident[2] != 0 || self.ident[3] != 0
    }

    /// Whether the lump lies inside a file of `file_len` bytes.
    pub open spec fn in_file(&self, file_len: int) -> bool {
        self.fileofs > 0 && self.filelen >= 0 && self.fileofs + self.filelen <= file_len
    }

    /// The bytes of the lump in the file.
    pub open spec fn region(&self, file: Seq<u8>) -> Seq<u8> {
        file.subrange(self.fileofs as int, self.fileofs + self.filelen)
    }

    /// The bytes that hold the records of the lump: its bytes in the file,
    /// decompressed where it is stored compressed.
    #[verifier::opaque]
    pub open spec fn payload(&self, file: Seq<u8>) -> Result<Seq<u8>, LumpError> {
        if self.compressed() {
            decompressed(self.region(file))
        } else {
            Ok(self.region(file))
        }
    }
}

/// Whether every lump that the directory names lies inside a file of
/// `file_len` bytes.
pub open spec fn directory_in_file(lumps: Seq<Lump>, file_len: int) -> bool {
    forall|i: int|
        0 <= i < lumps.len() && (#[trigger] lumps[i]).present() ==> lumps[i].in_file(file_len)
}

/// The bytes that hold the records of the lump in slot `slot`, where the
/// file has that lump and it decompresses.
pub open spec fn slot_payload(lumps: Seq<Lump>, file: Seq<u8>, slot: int) -> Option<Seq<u8>> {
    if 0 <= slot < lumps.len() && lumps[slot].present() {
        match lumps[slot].payload(file) {
            Ok(bytes) => Some(bytes),
            Err(_) => None,
        }
    } else {
        None
    }
}

/// The records that a lump with the payload `bytes` decodes to, or `None`
/// where the payload ends inside a record.
#[verifier::opaque]
pub open spec fn lump_records<T: BspParseable>(bytes: Seq<u8>) -> Option<Seq<T::V>> {
    parse_records::<T>(bytes, 0)
}

/// The records of the lump in slot `slot`; none where the file has no such
/// lump or it cannot be decoded.
pub open spec fn slot_records<T: BspParseable>(lumps: Seq<Lump>, file: Seq<u8>, slot: int) -> Seq<
    T::V,
> {
    match slot_payload(lumps, file, slot) {
        Some(bytes) => match lump_records::<T>(bytes) {
            Some(records) => records,
            None => Seq::empty(),
        },
        None => Seq::empty(),
    }
}

/// The entities of the text in the first slot; none where the file has no
/// such lump or it cannot be decoded.
pub open spec fn slot_entities(lumps: Seq<Lump>, file: Seq<u8>) -> Seq<Map<Seq<char>, Seq<char>>> {
    match slot_payload(lumps, file, 0) {
        Some(bytes) => match entities_in(bytes) {
            Some(entities) => entities,
            None => Seq::empty(),
        },
        None => Seq::empty(),
    }
}

/// What becomes of bytes that are decoded as records of one kind.
pub open spec fn records_outcome<T: BspParseable>(bytes: Seq<u8>) -> LumpOutcome {
    if lump_records::<T>(bytes) is Some {
        LumpOutcome::Decoded
    } else {
        LumpOutcome::Failed(LumpError::OutOfRange)
    }
}

/// What becomes of bytes that are decoded as a lump of kind `kind`.
pub open spec fn kind_outcome(kind: LumpType, bytes: Seq<u8>) -> LumpOutcome {
    match kind {
        LumpType::Entities => if entities_in(bytes) is Some {
            LumpOutcome::Decoded
        } else {
            LumpOutcome::Failed(LumpError::PatternRejected)
        },
        LumpType::Plane => records_outcome::<Plane>(bytes),
        LumpType::Texdata => records_outcome::<TexData>(bytes),
        LumpType::Vertexes => records_outcome::<Vertex>(bytes),
        LumpType::Nodes => records_outcome::<Node>(bytes),
        LumpType::Texinfo => records_outcome::<TexInfo>(bytes),
        LumpType::Faces => records_outcome::<Face>(bytes),
        LumpType::Lighting => records_outcome::<LightmapSample>(bytes),
        LumpType::Occlusion => records_outcome::<Occluder>(bytes),
        LumpType::Edges => records_outcome::<Edge>(bytes),
        LumpType::Surfedges => records_outcome::<i32>(bytes),
        LumpType::Models => records_outcome::<Model>(bytes),
        LumpType::Leaffaces => records_outcome::<u16>(bytes),
        LumpType::Leafbrushes => records_outcome::<u16>(bytes),
        LumpType::Brushes => records_outcome::<Brush>(bytes),
        LumpType::Brushsides => records_outcome::<Brushside>(bytes),
        LumpType::Areas => records_outcome::<Area>(bytes),
        LumpType::Areaportals => records_outcome::<AreaPortal>(bytes),
        LumpType::Dispinfo => records_outcome::<DisplacementInfo>(bytes),
        LumpType::Originalfaces => records_outcome::<Face>(bytes),
        _ => LumpOutcome::Skipped,
    }
}

/// What becomes of the entry in slot `slot` of the directory.
pub open spec fn slot_outcome(lumps: Seq<Lump>, file: Seq<u8>, slot: int) -> LumpOutcome {
    if !lumps[slot].present() {
        LumpOutcome::Absent
    } else {
        match lumps[slot].payload(file) {
            Ok(bytes) => match LumpType::of_slot(slot) {
                Some(kind) => kind_outcome(kind, bytes),
                None => LumpOutcome::Skipped,
            },
            Err(e) => LumpOutcome::Failed(e),
        }
    }
}

/// The records of a collection after a lump of kind `kind` was decoded from
/// `bytes`: those of the lump where that is the kind of the collection and
/// the bytes decode, and those it had before otherwise.
spec fn kept_or_decoded<T: BspParseable>(
    before: Seq<T::V>,
    kind: Option<LumpType>,
    own: LumpType,
    bytes: Seq<u8>,
) -> Seq<T::V> {
    if kind == Some(own) {
        match lump_records::<T>(bytes) {
            Some(records) => records,
            None => before,
        }
    } else {
        before
    }
}

impl ParsedLumps {
    /// Whether these are the collections that the lumps of the directory
    /// `lumps` in the file `file` decode to.
    #[verifier::opaque]
    pub open spec fn decoded_from(&self, lumps: Seq<Lump>, file: Seq<u8>) -> bool {
        &&& views(self.entities@) == slot_entities(lumps, file)
        &&& views(self.planes@) == slot_records::<Plane>(lumps, file, LumpType::Plane.slot())
        &&& views(self.texdata@) == slot_records::<TexData>(lumps, file, LumpType::Texdata.slot())
        &&& views(self.vertex_list@) == slot_records::<Vertex>(
            lumps,
            file,
            LumpType::Vertexes.slot(),
        )
        &&& views(self.nodes@) == slot_records::<Node>(lumps, file, LumpType::Nodes.slot())
        &&& views(self.texinfo@) == slot_records::<TexInfo>(lumps, file, LumpType::Texinfo.slot())
        &&& views(self.faces@) == slot_records::<Face>(lumps, file, LumpType::Faces.slot())
        &&& views(self.lightmap_samples@) == slot_records::<LightmapSample>(
            lumps,
            file,
            LumpType::Lighting.slot(),
        )
        &&& views(self.occluders@) == slot_records::<Occluder>(
            lumps,
            file,
            LumpType::Occlusion.slot(),
        )
        &&& views(self.edges@) == slot_records::<Edge>(lumps, file, LumpType::Edges.slot())
        &&& views(self.surfedges@) == slot_records::<i32>(lumps, file, LumpType::Surfedges.slot())
        &&& views(self.models@) == slot_records::<Model>(lumps, file, LumpType::Models.slot())
        &&& views(self.leaf_faces@) == slot_records::<u16>(lumps, file, LumpType::Leaffaces.slot())
        &&& views(self.leaf_brushes@) == slot_records::<u16>(
            lumps,
            file,
            LumpType::Leafbrushes.slot(),
        )
        &&& views(self.brushes@) == slot_records::<Brush>(lumps, file, LumpType::Brushes.slot())
        &&& views(self.brushsides@) == slot_records::<Brushside>(
            lumps,
            file,
            LumpType::Brushsides.slot(),
        )
        &&& views(self.areas@) == slot_records::<Area>(lumps, file, LumpType::Areas.slot())
        &&& views(self.area_portals@) == slot_records::<AreaPortal>(
            lumps,
            file,
            LumpType::Areaportals.slot(),
        )
        &&& views(self.displacement_info@) == slot_records::<DisplacementInfo>(
            lumps,
            file,
            LumpType::Dispinfo.slot(),
        )
        &&& views(self.original_faces@) == slot_records::<Face>(
            lumps,
            file,
            LumpType::Originalfaces.slot(),
        )
        &&& self.outcomes@ == Seq::new(lumps.len(), |i: int| slot_outcome(lumps, file, i))
    }

    /// Whether these are the collections `before` after a lump of kind `kind`
    /// was decoded from `bytes`.
    spec fn stores(&self, before: ParsedLumps, kind: Option<LumpType>, bytes: Seq<u8>) -> bool {
        &&& views(self.entities@) == if kind == Some(LumpType::Entities) && entities_in(
            bytes,
        ) is Some {
            entities_in(bytes).unwrap()
        } else {
            views(before.entities@)
        }
        &&& views(self.planes@) == kept_or_decoded::<Plane>(
            views(before.planes@),
            kind,
            LumpType::Plane,
            bytes,
        )
        &&& views(self.texdata@) == kept_or_decoded::<TexData>(
            views(before.texdata@),
            kind,
            LumpType::Texdata,
            bytes,
        )
        &&& views(self.vertex_list@) == kept_or_decoded::<Vertex>(
            views(before.vertex_list@),
            kind,
            LumpType::Vertexes,
            bytes,
        )
        &&& views(self.nodes@) == kept_or_decoded::<Node>(
            views(before.nodes@),
            kind,
            LumpType::Nodes,
            bytes,
        )
        &&& views(self.texinfo@) == kept_or_decoded::<TexInfo>(
            views(before.texinfo@),
            kind,
            LumpType::Texinfo,
            bytes,
        )
        &&& views(self.faces@) == kept_or_decoded::<Face>(
            views(before.faces@),
            kind,
            LumpType::Faces,
            bytes,
        )
        &&& views(self.lightmap_samples@) == kept_or_decoded::<LightmapSample>(
            views(before.lightmap_samples@),
            kind,
            LumpType::Lighting,
            bytes,
        )
        &&& views(self.occluders@) == kept_or_decoded::<Occluder>(
            views(before.occluders@),
            kind,
            LumpType::Occlusion,
            bytes,
        )
        &&& views(self.edges@) == kept_or_decoded::<Edge>(
            views(before.edges@),
            kind,
            LumpType::Edges,
            bytes,
        )
        &&& views(self.surfedges@) == kept_or_decoded::<i32>(
            views(before.surfedges@),
            kind,
            LumpType::Surfedges,
            bytes,
        )
        &&& views(self.models@) == kept_or_decoded::<Model>(
            views(before.models@),
            kind,
            LumpType::Models,
            bytes,
        )
        &&& views(self.leaf_faces@) == kept_or_decoded::<u16>(
            views(before.leaf_faces@),
            kind,
            LumpType::Leaffaces,
            bytes,
        )
        &&& views(self.leaf_brushes@) == kept_or_decoded::<u16>(
            views(before.leaf_brushes@),
            kind,
            LumpType::Leafbrushes,
            bytes,
        )
        &&& views(self.brushes@) == kept_or_decoded::<Brush>(
            views(before.brushes@),
            kind,
            LumpType::Brushes,
            bytes,
        )
        &&& views(self.brushsides@) == kept_or_decoded::<Brushside>(
            views(before.brushsides@),
            kind,
            LumpType::Brushsides,
            bytes,
        )
        &&& views(self.areas@) == kept_or_decoded::<Area>(
            views(before.areas@),
            kind,
            LumpType::Areas,
            bytes,
        )
        &&& views(self.area_portals@) == kept_or_decoded::<AreaPortal>(
            views(before.area_portals@),
            kind,
            LumpType::Areaportals,
            bytes,
        )
        &&& views(self.displacement_info@) == kept_or_decoded::<DisplacementInfo>(
            views(before.displacement_info@),
            kind,
            LumpType::Dispinfo,
            bytes,
        )
        &&& views(self.original_faces@) == kept_or_decoded::<Face>(
            views(before.original_faces@),
            kind,
            LumpType::Originalfaces,
            bytes,
        )
    }
}

impl Default for ParsedLumps {
    /// Collections without records, for a directory without entries.
    fn default() -> (parsed: Self)
        ensures
            forall|file: Seq<u8>| parsed.decoded_from(Seq::empty(), file),
    {
        let parsed = ParsedLumps {
            entities: Vec::new(),
            planes: Vec::new(),
            texdata: Vec::new(),
            vertex_list: Vec::new(),
            nodes: Vec::new(),
            texinfo: Vec::new(),
            faces: Vec::new(),
            lightmap_samples: Vec::new(),
            occluders: Vec::new(),
            edges: Vec::new(),
            surfedges: Vec::new(),
            models: Vec::new(),
            leaf_faces: Vec::new(),
            leaf_brushes: Vec::new(),
            brushes: Vec::new(),
            brushsides: Vec::new(),
            areas: Vec::new(),
            area_portals: Vec::new(),
            displacement_info: Vec::new(),
            original_faces: Vec::new(),
            outcomes: Vec::new(),
        };
        proof {
            lemma_nothing_decoded(parsed);
        }
        parsed
    }
}

/// Collections without records and without outcomes are those of a
/// directory without entries, whatever the file holds.
proof fn lemma_nothing_decoded(parsed: ParsedLumps)
    requires
        parsed.entities@.len() == 0,
        parsed.planes@.len() == 0,
        parsed.texdata@.len() == 0,
        parsed.vertex_list@.len() == 0,
        parsed.nodes@.len() == 0,
        parsed.texinfo@.len() == 0,
        parsed.faces@.len() == 0,
        parsed.lightmap_samples@.len() == 0,
        parsed.occluders@.len() == 0,
        parsed.edges@.len() == 0,
        parsed.surfedges@.len() == 0,
        parsed.models@.len() == 0,
        parsed.leaf_faces@.len() == 0,
        parsed.leaf_brushes@.len() == 0,
        parsed.brushes@.len() == 0,
        parsed.brushsides@.len() == 0,
        parsed.areas@.len() == 0,
        parsed.area_portals@.len() == 0,
        parsed.displacement_info@.len() == 0,
        parsed.original_faces@.len() == 0,
        parsed.outcomes@.len() == 0,
    ensures
        forall|file: Seq<u8>| parsed.decoded_from(Seq::empty(), file),
{
    reveal(ParsedLumps::decoded_from);
    assert forall|file: Seq<u8>| parsed.decoded_from(Seq::empty(), file) by {
        let none = Seq::<Lump>::empty();
        assert(views(parsed.entities@) =~= slot_entities(none, file));
        assert(views(parsed.planes@) =~= slot_records::<Plane>(none, file, LumpType::Plane.slot()));
        assert(views(parsed.texdata@) =~= slot_records::<TexData>(
            none,
            file,
            LumpType::Texdata.slot(),
        ));
        assert(views(parsed.vertex_list@) =~= slot_records::<Vertex>(
            none,
            file,
            LumpType::Vertexes.slot(),
        ));
        assert(views(parsed.nodes@) =~= slot_records::<Node>(none, file, LumpType::Nodes.slot()));
        assert(views(parsed.texinfo@) =~= slot_records::<TexInfo>(
            none,
            file,
            LumpType::Texinfo.slot(),
        ));
        assert(views(parsed.faces@) =~= slot_records::<Face>(none, file, LumpType::Faces.slot()));
        assert(views(parsed.lightmap_samples@) =~= slot_records::<LightmapSample>(
            none,
            file,
            LumpType::Lighting.slot(),
        ));
        assert(views(parsed.occluders@) =~= slot_records::<Occluder>(
            none,
            file,
            LumpType::Occlusion.slot(),
        ));
        assert(views(parsed.edges@) =~= slot_records::<Edge>(none, file, LumpType::Edges.slot()));
        assert(views(parsed.surfedges@) =~= slot_records::<i32>(
            none,
            file,
            LumpType::Surfedges.slot(),
        ));
        assert(views(parsed.models@) =~= slot_records::<Model>(
            none,
            file,
            LumpType::Models.slot(),
        ));
        assert(views(parsed.leaf_faces@) =~= slot_records::<u16>(
            none,
            file,
            LumpType::Leaffaces.slot(),
        ));
        assert(views(parsed.leaf_brushes@) =~= slot_records::<u16>(
            none,
            file,
            LumpType::Leafbrushes.slot(),
        ));
        assert(views(parsed.brushes@) =~= slot_records::<Brush>(
            none,
            file,
            LumpType::Brushes.slot(),
        ));
        assert(views(parsed.brushsides@) =~= slot_records::<Brushside>(
            none,
            file,
            LumpType::Brushsides.slot(),
        ));
        assert(views(parsed.areas@) =~= slot_records::<Area>(none, file, LumpType::Areas.slot()));
        assert(views(parsed.area_portals@) =~= slot_records::<AreaPortal>(
            none,
            file,
            LumpType::Areaportals.slot(),
        ));
        assert(views(parsed.displacement_info@) =~= slot_records::<DisplacementInfo>(
            none,
            file,
            LumpType::Dispinfo.slot(),
        ));
        assert(views(parsed.original_faces@) =~= slot_records::<Face>(
            none,
            file,
            LumpType::Originalfaces.slot(),
        ));
        assert(parsed.outcomes@ =~= Seq::new(none.len(), |i: int| slot_outcome(none, file, i)));
    }
}

/// An entry with offset 0 is passed over, whatever its length, its version
/// and its ident are: nothing is decoded for its slot, its outcome is
/// `Absent`, and the directory lies in the file where its other entries do.
pub proof fn lemma_absent_lump<T: BspParseable>(lumps: Seq<Lump>, file: Seq<u8>, slot: int)
    requires
        0 <= slot < lumps.len(),
        lumps[slot].fileofs == 0,
    ensures
        slot_payload(lumps, file, slot) is None,
        slot_records::<T>(lumps, file, slot) == Seq::<T::V>::empty(),
        slot == 0 ==> slot_entities(lumps, file) == Seq::<Map<Seq<char>, Seq<char>>>::empty(),
        slot_outcome(lumps, file, slot) == LumpOutcome::Absent,
        directory_in_file(lumps, file.len() as int) <==> directory_in_file(
            lumps.remove(slot),
            file.len() as int,
        ),
{
    let len = file.len() as int;
    let others = lumps.remove(slot);
    if directory_in_file(others, len) {
        assert forall|i: int|
            0 <= i < lumps.len() && (#[trigger] lumps[i]).present() implies lumps[i].in_file(
            len,
        ) by {
            if i < slot {
                assert(others[i].present());
            } else {
                assert(others[i - 1].present());
            }
        }
    }
}

/// The first slot is that of the entity text: whatever the directory holds,
/// the entities of a decode are those of the text in the payload of its first
/// entry, and the outcome of that entry is that of the text.
pub proof fn lemma_first_slot_is_text(parsed: ParsedLumps, lumps: Seq<Lump>, file: Seq<u8>)
    requires
        parsed.decoded_from(lumps, file),
    ensures
        LumpType::of_slot(0) == Some(LumpType::Entities),
        views(parsed.entities@) == match slot_payload(lumps, file, 0) {
            Some(text) => match entities_in(text) {
                Some(entities) => entities,
                None => Seq::empty(),
            },
            None => Seq::empty(),
        },
        slot_payload(lumps, file, 0) matches Some(text) ==> parsed.outcomes@[0] == if entities_in(
            text,
        ) is Some {
            LumpOutcome::Decoded
        } else {
            LumpOutcome::Failed(LumpError::PatternRejected)
        },
{
    reveal(ParsedLumps::decoded_from);
    reveal(LumpType::of_slot);
}

/// Decoding entry `index` leaves a collection as the lumps of the entries up
/// to `index` decode: it changes the collection of the kind of that entry
/// only, and the entries before it stay as they are.
proof fn lemma_collection_step<T: BspParseable>(
    before: Seq<T::V>,
    lumps: Seq<Lump>,
    file: Seq<u8>,
    index: int,
    kind: Option<LumpType>,
    own: LumpType,
    bytes: Seq<u8>,
)
    requires
        0 <= index < lumps.len(),
        before == slot_records::<T>(lumps.take(index), file, own.slot()),
        match slot_payload(lumps.take(index + 1), file, index) {
            Some(payload) => payload == bytes && kind == LumpType::of_slot(index),
            None => kind is None,
        },
    ensures
        kept_or_decoded::<T>(before, kind, own, bytes) == slot_records::<T>(
            lumps.take(index + 1),
            file,
            own.slot(),
        ),
{
    LumpType::lemma_slots(own, index);
}

/// Decoding entry `index` of the directory after the entries before it gives
/// the collections that the entries up to `index` decode to.
proof fn lemma_decoded_step(
    before: ParsedLumps,
    after: ParsedLumps,
    lumps: Seq<Lump>,
    file: Seq<u8>,
    index: int,
    kind: Option<LumpType>,
    bytes: Seq<u8>,
)
    requires
        0 <= index < lumps.len(),
        before.decoded_from(lumps.take(index), file),
        after.stores(before, kind, bytes),
        match slot_payload(lumps.take(index + 1), file, index) {
            Some(payload) => payload == bytes && kind == LumpType::of_slot(index),
            None => kind is None,
        },
        after.outcomes@ == before.outcomes@.push(
            slot_outcome(lumps.take(index + 1), file, index),
        ),
    ensures
        after.decoded_from(lumps.take(index + 1), file),
{
    reveal(ParsedLumps::decoded_from);
    let upto = lumps.take(index + 1);
    assert(views(after.entities@) == slot_entities(upto, file)) by {
        reveal(LumpType::slot);
        LumpType::lemma_slots(LumpType::Entities, index);
    }
    assert(views(after.planes@) == slot_records::<Plane>(upto, file, LumpType::Plane.slot())) by {
        lemma_collection_step::<Plane>(
            views(before.planes@),
            lumps,
            file,
            index,
            kind,
            LumpType::Plane,
            bytes,
        );
    }
    assert(views(after.texdata@) == slot_records::<TexData>(
        upto,
        file,
        LumpType::Texdata.slot(),
    )) by {
        lemma_collection_step::<TexData>(
            views(before.texdata@),
            lumps,
            file,
            index,
            kind,
            LumpType::Texdata,
            bytes,
        );
    }
    assert(views(after.vertex_list@) == slot_records::<Vertex>(
        upto,
        file,
        LumpType::Vertexes.slot(),
    )) by {
        lemma_collection_step::<Vertex>(
            views(before.vertex_list@),
            lumps,
            file,
            index,
            kind,
            LumpType::Vertexes,
            bytes,
        );
    }
    assert(views(after.nodes@) == slot_records::<Node>(upto, file, LumpType::Nodes.slot())) by {
        lemma_collection_step::<Node>(
            views(before.nodes@),
            lumps,
            file,
            index,
            kind,
            LumpType::Nodes,
            bytes,
        );
    }
    assert(views(after.texinfo@) == slot_records::<TexInfo>(
        upto,
        file,
        LumpType::Texinfo.slot(),
    )) by {
        lemma_collection_step::<TexInfo>(
            views(before.texinfo@),
            lumps,
            file,
            index,
            kind,
            LumpType::Texinfo,
            bytes,
        );
    }
    assert(views(after.faces@) == slot_records::<Face>(upto, file, LumpType::Faces.slot())) by {
        lemma_collection_step::<Face>(
            views(before.faces@),
            lumps,
            file,
            index,
            kind,
            LumpType::Faces,
            bytes,
        );
    }
    assert(views(after.lightmap_samples@) == slot_records::<LightmapSample>(
        upto,
        file,
        LumpType::Lighting.slot(),
    )) by {
        lemma_collection_step::<LightmapSample>(
            views(before.lightmap_samples@),
            lumps,
            file,
            index,
            kind,
            LumpType::Lighting,
            bytes,
        );
    }
    assert(views(after.occluders@) == slot_records::<Occluder>(
        upto,
        file,
        LumpType::Occlusion.slot(),
    )) by {
        lemma_collection_step::<Occluder>(
            views(before.occluders@),
            lumps,
            file,
            index,
            kind,
            LumpType::Occlusion,
            bytes,
        );
    }
    assert(views(after.edges@) == slot_records::<Edge>(upto, file, LumpType::Edges.slot())) by {
        lemma_collection_step::<Edge>(
            views(before.edges@),
            lumps,
            file,
            index,
            kind,
            LumpType::Edges,
            bytes,
        );
    }
    assert(views(after.surfedges@) == slot_records::<i32>(
        upto,
        file,
        LumpType::Surfedges.slot(),
    )) by {
        lemma_collection_step::<i32>(
            views(before.surfedges@),
            lumps,
            file,
            index,
            kind,
            LumpType::Surfedges,
            bytes,
        );
    }
    assert(views(after.models@) == slot_records::<Model>(upto, file, LumpType::Models.slot())) by {
        lemma_collection_step::<Model>(
            views(before.models@),
            lumps,
            file,
            index,
            kind,
            LumpType::Models,
            bytes,
        );
    }
    assert(views(after.leaf_faces@) == slot_records::<u16>(
        upto,
        file,
        LumpType::Leaffaces.slot(),
    )) by {
        lemma_collection_step::<u16>(
            views(before.leaf_faces@),
            lumps,
            file,
            index,
            kind,
            LumpType::Leaffaces,
            bytes,
        );
    }
    assert(views(after.leaf_brushes@) == slot_records::<u16>(
        upto,
        file,
        LumpType::Leafbrushes.slot(),
    )) by {
        lemma_collection_step::<u16>(
            views(before.leaf_brushes@),
            lumps,
            file,
            index,
            kind,
            LumpType::Leafbrushes,
            bytes,
        );
    }
    assert(views(after.brushes@) == slot_records::<Brush>(
        upto,
        file,
        LumpType::Brushes.slot(),
    )) by {
        lemma_collection_step::<Brush>(
            views(before.brushes@),
            lumps,
            file,
            index,
            kind,
            LumpType::Brushes,
            bytes,
        );
    }
    assert(views(after.brushsides@) == slot_records::<Brushside>(
        upto,
        file,
        LumpType::Brushsides.slot(),
    )) by {
        lemma_collection_step::<Brushside>(
            views(before.brushsides@),
            lumps,
            file,
            index,
            kind,
            LumpType::Brushsides,
            bytes,
        );
    }
    assert(views(after.areas@) == slot_records::<Area>(upto, file, LumpType::Areas.slot())) by {
        lemma_collection_step::<Area>(
            views(before.areas@),
            lumps,
            file,
            index,
            kind,
            LumpType::Areas,
            bytes,
        );
    }
    assert(views(after.area_portals@) == slot_records::<AreaPortal>(
        upto,
        file,
        LumpType::Areaportals.slot(),
    )) by {
        lemma_collection_step::<AreaPortal>(
            views(before.area_portals@),
            lumps,
            file,
            index,
            kind,
            LumpType::Areaportals,
            bytes,
        );
    }
    assert(views(after.displacement_info@) == slot_records::<DisplacementInfo>(
        upto,
        file,
        LumpType::Dispinfo.slot(),
    )) by {
        lemma_collection_step::<DisplacementInfo>(
            views(before.displacement_info@),
            lumps,
            file,
            index,
            kind,
            LumpType::Dispinfo,
            bytes,
        );
    }
    assert(views(after.original_faces@) == slot_records::<Face>(
        upto,
        file,
        LumpType::Originalfaces.slot(),
    )) by {
        lemma_collection_step::<Face>(
            views(before.original_faces@),
            lumps,
            file,
            index,
            kind,
            LumpType::Originalfaces,
            bytes,
        );
    }
    assert(after.outcomes@ =~= Seq::new(upto.len(), |i: int| slot_outcome(upto, file, i)));
}

/// Reads the records of a lump into their collection.
fn decode_into<T: BspParseable>(data: &mut LumpReader, target: &mut Vec<T>) -> (outcome:
    LumpOutcome)
    requires
        old(data).pos() == 0,
    ensures
        outcome == records_outcome::<T>(old(data).bytes()),
        match lump_records::<T>(old(data).bytes()) {
            Some(records) => views(final(target)@) == records,
            None => final(target)@ == old(target)@,
        },
{
    reveal(lump_records);
    match parse_type::<T>(data) {
        Ok(records) => {
            *target = records;
            LumpOutcome::Decoded
        },
        Err(e) => LumpOutcome::Failed(e),
    }
}

/// Decodes the bytes of a lump with the decoder of its kind, into the
/// collection of that kind.
fn decode_kind(parsed: &mut ParsedLumps, kind: Option<LumpType>, data: &mut LumpReader) -> (outcome:
    LumpOutcome)
    requires
        old(data).pos() == 0,
    ensures
        final(parsed).stores(*old(parsed), kind, old(data).bytes()),
        final(parsed).outcomes == old(parsed).outcomes,
        outcome == match kind {
            Some(kind) => kind_outcome(kind, old(data).bytes()),
            None => LumpOutcome::Skipped,
        },
{
    match kind {
        Some(LumpType::Entities) => match parse_entities(data.get_data()) {
            Ok(entities) => {
                parsed.entities = entities;
                LumpOutcome::Decoded
            },
            Err(e) => LumpOutcome::Failed(e),
        },
        Some(LumpType::Plane) => decode_into(data, &mut parsed.planes),
        Some(LumpType::Texdata) => decode_into(data, &mut parsed.texdata),
        Some(LumpType::Vertexes) => decode_into(data, &mut parsed.vertex_list),
        Some(LumpType::Nodes) => decode_into(data, &mut parsed.nodes),
        Some(LumpType::Texinfo) => decode_into(data, &mut parsed.texinfo),
        Some(LumpType::Faces) => decode_into(data, &mut parsed.faces),
        Some(LumpType::Lighting) => decode_into(data, &mut parsed.lightmap_samples),
        Some(LumpType::Occlusion) => decode_into(data, &mut parsed.occluders),
        Some(LumpType::Edges) => decode_into(data, &mut parsed.edges),
        Some(LumpType::Surfedges) => decode_into(data, &mut parsed.surfedges),
        Some(LumpType::Models) => decode_into(data, &mut parsed.models),
        Some(LumpType::Leaffaces) => decode_into(data, &mut parsed.leaf_faces),
        Some(LumpType::Leafbrushes) => decode_into(data, &mut parsed.leaf_brushes),
        Some(LumpType::Brushes) => decode_into(data, &mut parsed.brushes),
        Some(LumpType::Brushsides) => decode_into(data, &mut parsed.brushsides),
        Some(LumpType::Areas) => decode_into(data, &mut parsed.areas),
        Some(LumpType::Areaportals) => decode_into(data, &mut parsed.area_portals),
        Some(LumpType::Dispinfo) => decode_into(data, &mut parsed.displacement_info),
        Some(LumpType::Originalfaces) => decode_into(data, &mut parsed.original_faces),
        _ => LumpOutcome::Skipped,
    }
}

/// Decodes the lump of entry `index` of the directory into its collection
/// and notes what became of it.
fn decode_lump(parsed: &mut ParsedLumps, lumps: &Vec<Lump>, index: usize, file: &[u8]) -> (r:
    Result<(), LumpError>)
    requires
        index < lumps.len(),
        old(parsed).decoded_from(lumps@.take(index as int), file@),
    ensures
        r is Ok <==> (lumps[index as int].present() ==> lumps[index as int].in_file(
            file@.len() as int,
        )),
        r is Ok ==> final(parsed).decoded_from(lumps@.take(index + 1), file@),
        r matches Err(e) ==> e == LumpError::OutOfRange,
{
    let lump = &lumps[index];
    proof {
        reveal(Lump::payload);
    }
    if lump.fileofs == 0 {
        parsed.outcomes.push(LumpOutcome::Absent);
        proof {
            lemma_decoded_step(*old(parsed), *parsed, lumps@, file@, index as int, None, file@);
        }
        return Ok(());
    }
    if lump.fileofs < 0 || lump.filelen < 0 {
        return Err(LumpError::OutOfRange);
    }
    let start = lump.fileofs as usize;
    let len = lump.filelen as usize;
    if start > file.len() || len > file.len() - start {
        return Err(LumpError::OutOfRange);
    }
    let mut data = LumpReader::new(slice_subrange(file, start, start + len));
    assert(data.bytes().skip(0) =~= data.bytes());
    if lump.ident[0] != 0 || lump.ident[1] != 0 || lump.ident[2] != 0 || lump.ident[3] != 0 {
        // The lump is compressed: read its header and decompress the rest.
        match decompress_lumps(data) {
            Ok(plain) => {
                data = plain;
            },
            Err(e) => {
                parsed.outcomes.push(LumpOutcome::Failed(e));
                proof {
                    lemma_decoded_step(
                        *old(parsed),
                        *parsed,
                        lumps@,
                        file@,
                        index as int,
                        None,
                        file@,
                    );
                }
                return Ok(());
            },
        }
    }
    let kind = LumpType::from_index(index);
    let ghost bytes = data.bytes();
    let outcome = decode_kind(parsed, kind, &mut data);
    parsed.outcomes.push(outcome);
    proof {
        lemma_decoded_step(*old(parsed), *parsed, lumps@, file@, index as int, kind, bytes);
    }
    Ok(())
}

/// Decodes the lumps that the directory `lumps` names in the file
/// `full_data`, entry by entry: an entry with offset 0 is passed over; the
/// bytes of any other are sliced from the file, decompressed where its ident
/// is not all zero, and decoded by the decoder of its slot, the first slot
/// being the entity text.
///
/// Fails with `OutOfRange`, for the whole directory, where an entry names
/// bytes outside the file. A lump that does not decompress or decode leaves
/// its collection empty, and its outcome says why.
pub fn parse_lump_data(lumps: Vec<Lump>, full_data: &[u8]) -> (r: Result<ParsedLumps, LumpError>)
    ensures
        match r {
            Ok(parsed) => directory_in_file(lumps@, full_data@.len() as int)
                && parsed.decoded_from(lumps@, full_data@),
            Err(e) => e == LumpError::OutOfRange && !directory_in_file(
                lumps@,
                full_data@.len() as int,
            ),
        },
{
    // Every collection starts empty, ready to be filled.
    let mut parsed: ParsedLumps = Default::default();
    assert(lumps@.take(0) =~= Seq::empty());
    for i in 0..lumps.len()
        invariant
            parsed.decoded_from(lumps@.take(i as int), full_data@),
            directory_in_file(lumps@.take(i as int), full_data@.len() as int),
    {
        decode_lump(&mut parsed, &lumps, i, full_data)?;
    }
    assert(lumps@.take(lumps.len() as int) =~= lumps@);
    Ok(parsed)
}

} // verus!
