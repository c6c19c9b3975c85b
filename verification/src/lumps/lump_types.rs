//! The record kinds of the lumps and their byte layouts.

use crate::error::LumpError;
use crate::le::{
    f32_at, f32_bytes, i16_at, i16_bytes, i32_at, i32_bytes, i8_at, i8_bytes,
    lemma_byte_round_trip, lemma_pair_round_trip, lemma_quad_round_trip, u16_at, u16_bytes,
    u32_at, u32_bytes, u8_at, u8_bytes, FloatBits,
};
use crate::lumps::{lemma_u32s_round_trip, u32s_at, u32s_bytes, LumpReader};
use vstd::prelude::*;

verus! {

/// A record kind that is decoded from a byte cursor.
pub trait BspParseable: View + Sized {
    /// The length in bytes of every record, for a kind with one length.
    spec fn stride() -> Option<nat>;

    /// The record stored at `at` and the position behind it, or `None` where
    /// the region ends before the record does.
    spec fn parse(data: Seq<u8>, at: int) -> Option<(Self::V, int)>;

    /// The bytes that store the record `v`.
    spec fn encode(v: Self::V) -> Seq<u8>;

    /// A record takes at least one byte, lies inside the region, and is
    /// stored as the bytes it was read from. A kind with a stride is read
    /// wherever that many bytes are left, and takes exactly that many.
    proof fn lemma_parse(data: Seq<u8>, at: int)
        requires
            0 <= at <= data.len(),
        ensures
            Self::parse(data, at) matches Some((v, end)) ==> at < end <= data.len()
                && Self::encode(v) == data.subrange(at, end),
            Self::stride() matches Some(n) ==> n > 0 && (Self::parse(data, at) is Some <==> at + n
                <= data.len()) && (Self::parse(data, at) matches Some((v, end)) ==> end == at + n),
    ;

    /// Reads one record and moves past it. Where the region ends before the
    /// record does, the cursor stays where it was.
    fn from_reader(data: &mut LumpReader) -> (r: Result<Self, LumpError>)
        ensures
            final(data).bytes() == old(data).bytes(),
            match Self::parse(old(data).bytes(), old(data).pos()) {
                Some((v, end)) => r matches Ok(x) && x@ == v && final(data).pos() == end,
                None => r == Err::<Self, LumpError>(LumpError::OutOfRange) && final(data).pos()
                    == old(data).pos(),
            },
    ;
}

/// The views of the records in `records`.
pub open spec fn views<T: View>(records: Seq<T>) -> Seq<T::V> {
    records.map_values(|x: T| x@)
}

/// The record `v` and the position `n` bytes behind `at`, where the region
/// holds that many bytes from `at` on.
pub open spec fn whole<V>(data: Seq<u8>, at: int, n: int, v: V) -> Option<(V, int)> {
    if 0 <= at && at + n <= data.len() {
        Some((v, at + n))
    } else {
        None
    }
}

/// The bytes that store `records` one after another.
pub open spec fn encode_records<T: BspParseable>(records: Seq<T::V>) -> Seq<u8> {
    records.map_values(|v: T::V| T::encode(v)).flatten()
}

/// The bytes of records end in the bytes of the last, and start with the
/// bytes of the first.
pub proof fn lemma_encode_records<T: BspParseable>(records: Seq<T::V>, v: T::V)
    ensures
        encode_records::<T>(records.push(v)) == encode_records::<T>(records) + T::encode(v),
        encode_records::<T>(seq![v] + records) == T::encode(v) + encode_records::<T>(records),
{
    let f = |v: T::V| T::encode(v);
    assert(records.push(v).map_values(f) =~= records.map_values(f).push(f(v)));
    records.map_values(f).lemma_flatten_push(f(v));
    let joined = (seq![v] + records).map_values(f);
    assert(joined.drop_first() =~= records.map_values(f));
}

/// The first `count` records stored one after another from `at` on, and the
/// position behind them, or `None` where the region ends before they do.
pub open spec fn parse_count<T: BspParseable>(data: Seq<u8>, at: int, count: nat) -> Option<
    (Seq<T::V>, int),
>
    decreases count,
{
    if count == 0 {
        Some((Seq::empty(), at))
    } else {
        match parse_count::<T>(data, at, (count - 1) as nat) {
            Some((front, mid)) => match T::parse(data, mid) {
                Some((v, end)) => Some((front.push(v), end)),
                None => None,
            },
            None => None,
        }
    }
}

/// Records that are read one after another lie inside the region and are
/// stored as the bytes they were read from; and where the region ends
/// before some of them, it ends before any greater number of them.
pub proof fn lemma_parse_count<T: BspParseable>(data: Seq<u8>, at: int, count: nat, more: nat)
    requires
        0 <= at <= data.len(),
        count <= more,
    ensures
        parse_count::<T>(data, at, count) matches Some((records, end)) ==> at <= end <= data.len()
            && records.len() == count && encode_records::<T>(records) == data.subrange(at, end),
        parse_count::<T>(data, at, count) is None ==> parse_count::<T>(data, at, more) is None,
    decreases more,
{
    if count > 0 {
        lemma_parse_count::<T>(data, at, (count - 1) as nat, (count - 1) as nat);
        if let Some((front, mid)) = parse_count::<T>(data, at, (count - 1) as nat) {
            T::lemma_parse(data, mid);
            if let Some((v, end)) = T::parse(data, mid) {
                lemma_encode_records::<T>(front, v);
            }
        }
    }
    if count < more {
        lemma_parse_count::<T>(data, at, count, (more - 1) as nat);
    }
}

/// Reads `count` records and moves past them. Where the region ends before
/// they do, the cursor stays where it was.
pub fn read_count<T: BspParseable>(data: &mut LumpReader, count: usize) -> (r: Result<
    Vec<T>,
    LumpError,
>)
    ensures
        final(data).bytes() == old(data).bytes(),
        match parse_count::<T>(old(data).bytes(), old(data).pos(), count as nat) {
            Some((records, end)) => r matches Ok(out) && views(out@) == records && final(data).pos()
                == end,
            None => r == Err::<Vec<T>, LumpError>(LumpError::OutOfRange) && final(data).pos()
                == old(data).pos(),
        },
{
    let start = data.get_pos();
    let ghost bytes = data.bytes();
    let mut out: Vec<T> = Vec::new();
    for i in 0..count
        invariant
            data.bytes() == bytes,
            bytes == old(data).bytes(),
            start == old(data).pos(),
            start <= data.pos() <= bytes.len(),
            parse_count::<T>(bytes, start as int, i as nat) == Some((views(out@), data.pos())),
    {
        match T::from_reader(data) {
            Ok(x) => {
                out.push(x);
                proof {
                    T::lemma_parse(bytes, old(data).pos());
                    lemma_parse_count::<T>(bytes, start as int, (i + 1) as nat, (i + 1) as nat);
                }
            },
            Err(e) => {
                data.rewind(start);
                proof {
                    lemma_parse_count::<T>(bytes, start as int, (i + 1) as nat, count as nat);
                }
                return Err(e);
            },
        }
    }
    Ok(out)
}

/// A count and, behind it, as many records as it says: none where it is
/// not positive. `None` where the region ends before they do.
pub open spec fn parse_counted<T: BspParseable>(data: Seq<u8>, at: int) -> Option<
    (i32, Seq<T::V>, int),
> {
    if 0 <= at && at + 4 <= data.len() {
        let count = i32_at(data, at);
        match parse_count::<T>(data, at + 4, if count > 0 { count as nat } else { 0 }) {
            Some((records, end)) => Some((count, records, end)),
            None => None,
        }
    } else {
        None
    }
}

/// A count and its records lie inside the region, and are stored as the
/// bytes they were read from.
pub proof fn lemma_parse_counted<T: BspParseable>(data: Seq<u8>, from: int, at: int)
    requires
        0 <= from <= at <= data.len(),
    ensures
        parse_counted::<T>(data, at) matches Some((count, records, end)) ==> at + 4 <= end
            <= data.len() && data.subrange(from, at) + i32_bytes(count) + encode_records::<T>(
            records,
        ) == data.subrange(from, end),
{
    if let Some((count, records, end)) = parse_counted::<T>(data, at) {
        let n: nat = if count > 0 { count as nat } else { 0 };
        lemma_quad_round_trip(data, from, at);
        lemma_parse_count::<T>(data, at + 4, n, n);
        assert(data.subrange(from, at + 4) + data.subrange(at + 4, end) =~= data.subrange(
            from,
            end,
        ));
    }
}

/// Reads a count and as many records as it says. Where the region ends
/// before they do, the cursor stays where it was.
pub fn read_counted<T: BspParseable>(data: &mut LumpReader) -> (r: Result<(i32, Vec<T>), LumpError>)
    ensures
        final(data).bytes() == old(data).bytes(),
        match parse_counted::<T>(old(data).bytes(), old(data).pos()) {
            Some((count, records, end)) => r matches Ok(out) && out.0 == count && views(out.1@)
                == records && final(data).pos() == end,
            None => r == Err::<(i32, Vec<T>), LumpError>(LumpError::OutOfRange) && final(data).pos()
                == old(data).pos(),
        },
{
    let start = data.get_pos();
    let count = data.read_i32()?;
    let n: usize = if count > 0 { count as usize } else { 0 };
    match read_count::<T>(data, n) {
        Ok(records) => Ok((count, records)),
        Err(e) => {
            data.rewind(start);
            Err(e)
        },
    }
}

impl View for FloatBits {
    type V = FloatBits;

    open spec fn view(&self) -> FloatBits {
        *self
    }
}

/// Three single-precision numbers: a point, a direction or a colour.
pub type Vector = (FloatBits, FloatBits, FloatBits);

impl BspParseable for Vector {
    open spec fn stride() -> Option<nat> {
        Some(12)
    }

    open spec fn parse(data: Seq<u8>, at: int) -> Option<(Vector, int)> {
        whole(data, at, 12, (f32_at(data, at), f32_at(data, at + 4), f32_at(data, at + 8)))
    }

    open spec fn encode(v: Vector) -> Seq<u8> {
        f32_bytes(v.0) + f32_bytes(v.1) + f32_bytes(v.2)
    }

    proof fn lemma_parse(data: Seq<u8>, at: int) {
        if at + 12 <= data.len() {
            lemma_quad_round_trip(data, at, at);
            lemma_quad_round_trip(data, at, at + 4);
            lemma_quad_round_trip(data, at, at + 8);
        }
    }

    fn from_reader(data: &mut LumpReader) -> (r: Result<Self, LumpError>) {
        if data.remaining() < 12 {
            return Err(LumpError::OutOfRange);
        }
        let x = data.read_f32()?;
        let y = data.read_f32()?;
        let z = data.read_f32()?;
        let v = (x, y, z);
        assert(Self::parse(old(data).bytes(), old(data).pos()) == Some((v, data.pos())));
        assert(v@ == v);
        Ok(v)
    }
}

impl BspParseable for i32 {
    open spec fn stride() -> Option<nat> {
        Some(4)
    }

    open spec fn parse(data: Seq<u8>, at: int) -> Option<(i32, int)> {
        whole(data, at, 4, i32_at(data, at))
    }

    open spec fn encode(v: i32) -> Seq<u8> {
        i32_bytes(v)
    }

    proof fn lemma_parse(data: Seq<u8>, at: int) {
        if at + 4 <= data.len() {
            lemma_quad_round_trip(data, at, at);
        }
    }

    fn from_reader(data: &mut LumpReader) -> (r: Result<Self, LumpError>) {
        data.read_i32()
    }
}

impl BspParseable for u16 {
    open spec fn stride() -> Option<nat> {
        Some(2)
    }

    open spec fn parse(data: Seq<u8>, at: int) -> Option<(u16, int)> {
        whole(data, at, 2, u16_at(data, at))
    }

    open spec fn encode(v: u16) -> Seq<u8> {
        u16_bytes(v)
    }

    proof fn lemma_parse(data: Seq<u8>, at: int) {
        if at + 2 <= data.len() {
            lemma_pair_round_trip(data, at, at);
        }
    }

    fn from_reader(data: &mut LumpReader) -> (r: Result<Self, LumpError>) {
        data.read_u16()
    }
}

/// A plane that splits the level.
#[derive(Debug, Clone, Copy, PartialEq, Eq)]
pub struct Plane {
    /// Normal vector
    pub normal: Vector,
    /// Distance from the origin (0,0,0)
    pub dist_from_origin: FloatBits,
    /// Plane axis identifier
    pub axis_type: i32,
}

impl View for Plane {
    type V = Plane;

    open spec fn view(&self) -> Plane {
        *self
    }
}

impl Plane {
    /// The plane stored in the 20 bytes from `at` on.
    pub open spec fn decode(data: Seq<u8>, at: int) -> Plane {
        Plane {
            normal: (f32_at(data, at), f32_at(data, at + 4), f32_at(data, at + 8)),
            dist_from_origin: f32_at(data, at + 12),
            axis_type: i32_at(data, at + 16),
        }
    }
}

impl BspParseable for Plane {
    open spec fn stride() -> Option<nat> {
        Some(20)
    }

    open spec fn parse(data: Seq<u8>, at: int) -> Option<(Plane, int)> {
        whole(data, at, 20, Plane::decode(data, at))
    }

    open spec fn encode(v: Plane) -> Seq<u8> {
        f32_bytes(v.normal.0)
            + f32_bytes(v.normal.1)
            + f32_bytes(v.normal.2)
            + f32_bytes(v.dist_from_origin)
            + i32_bytes(v.axis_type)
    }

    proof fn lemma_parse(data: Seq<u8>, at: int) {
        if at + 20 <= data.len() {
            lemma_quad_round_trip(data, at, at);
            lemma_quad_round_trip(data, at, at + 4);
            lemma_quad_round_trip(data, at, at + 8);
            lemma_quad_round_trip(data, at, at + 12);
            lemma_quad_round_trip(data, at, at + 16);
        }
    }

    fn from_reader(data: &mut LumpReader) -> (r: Result<Self, LumpError>) {
        if data.remaining() < 20 {
            return Err(LumpError::OutOfRange);
        }
        let normal = Vector::from_reader(data)?;
        let dist_from_origin = data.read_f32()?;
        let axis_type = data.read_i32()?;
        Ok(Plane { normal, dist_from_origin, axis_type })
    }
}

/// The reflectivity and size of a texture.
#[derive(Debug, Clone, Copy, PartialEq, Eq)]
pub struct TexData {
    /// RGB reflectivity
    pub reflectivity: Vector,
    /// Index into the texture name table
    pub texdata_string_table_index: i32,
    /// Source image width
    pub width: i32,
    /// Source image height
    pub height: i32,
    /// Displayed image width
    pub view_width: i32,
    /// Displayed image height
    pub view_height: i32,
}

impl View for TexData {
    type V = TexData;

    open spec fn view(&self) -> TexData {
        *self
    }
}

impl TexData {
    /// The texture data stored in the 32 bytes from `at` on.
    pub open spec fn decode(data: Seq<u8>, at: int) -> TexData {
        TexData {
            reflectivity: (f32_at(data, at), f32_at(data, at + 4), f32_at(data, at + 8)),
            texdata_string_table_index: i32_at(data, at + 12),
            width: i32_at(data, at + 16),
            height: i32_at(data, at + 20),
            view_width: i32_at(data, at + 24),
            view_height: i32_at(data, at + 28),
        }
    }
}

impl BspParseable for TexData {
    open spec fn stride() -> Option<nat> {
        Some(32)
    }

    open spec fn parse(data: Seq<u8>, at: int) -> Option<(TexData, int)> {
        whole(data, at, 32, TexData::decode(data, at))
    }

    open spec fn encode(v: TexData) -> Seq<u8> {
        f32_bytes(v.reflectivity.0)
            + f32_bytes(v.reflectivity.1)
            + f32_bytes(v.reflectivity.2)
            + i32_bytes(v.texdata_string_table_index)
            + i32_bytes(v.width)
            + i32_bytes(v.height)
            + i32_bytes(v.view_width)
            + i32_bytes(v.view_height)
    }

    proof fn lemma_parse(data: Seq<u8>, at: int) {
        if at + 32 <= data.len() {
            lemma_quad_round_trip(data, at, at);
            lemma_quad_round_trip(data, at, at + 4);
            lemma_quad_round_trip(data, at, at + 8);
            lemma_quad_round_trip(data, at, at + 12);
            lemma_quad_round_trip(data, at, at + 16);
            lemma_quad_round_trip(data, at, at + 20);
            lemma_quad_round_trip(data, at, at + 24);
            lemma_quad_round_trip(data, at, at + 28);
        }
    }

    fn from_reader(data: &mut LumpReader) -> (r: Result<Self, LumpError>) {
        if data.remaining() < 32 {
            return Err(LumpError::OutOfRange);
        }
        let reflectivity = (data.read_f32()?, data.read_f32()?, data.read_f32()?);
        let texdata_string_table_index = data.read_i32()?;
        let width = data.read_i32()?;
        let height = data.read_i32()?;
        let view_width = data.read_i32()?;
        let view_height = data.read_i32()?;
        Ok(
            TexData {
                reflectivity,
                texdata_string_table_index,
                width,
                height,
                view_width,
                view_height,
            },
        )
    }
}

/// A corner point of the level geometry.
#[derive(Debug, Clone, Copy, PartialEq, Eq)]
pub struct Vertex {
    /// X coordinate
    pub x: FloatBits,
    /// Y coordinate
    pub y: FloatBits,
    /// Z coordinate
    pub z: FloatBits,
}

impl View for Vertex {
    type V = Vertex;

    open spec fn view(&self) -> Vertex {
        *self
    }
}

impl Vertex {
    /// The vertex stored in the 12 bytes from `at` on.
    pub open spec fn decode(data: Seq<u8>, at: int) -> Vertex {
        Vertex {
            x: f32_at(data, at),
            y: f32_at(data, at + 4),
            z: f32_at(data, at + 8),
        }
    }
}

impl BspParseable for Vertex {
    open spec fn stride() -> Option<nat> {
        Some(12)
    }

    open spec fn parse(data: Seq<u8>, at: int) -> Option<(Vertex, int)> {
        whole(data, at, 12, Vertex::decode(data, at))
    }

    open spec fn encode(v: Vertex) -> Seq<u8> {
        f32_bytes(v.x) + f32_bytes(v.y) + f32_bytes(v.z)
    }

    proof fn lemma_parse(data: Seq<u8>, at: int) {
        if at + 12 <= data.len() {
            lemma_quad_round_trip(data, at, at);
            lemma_quad_round_trip(data, at, at + 4);
            lemma_quad_round_trip(data, at, at + 8);
        }
    }

    fn from_reader(data: &mut LumpReader) -> (r: Result<Self, LumpError>) {
        if data.remaining() < 12 {
            return Err(LumpError::OutOfRange);
        }
        let x = data.read_f32()?;
        let y = data.read_f32()?;
        let z = data.read_f32()?;
        Ok(Vertex { x, y, z })
    }
}

/// A node of the BSP tree.
#[derive(Debug, Clone, Copy, PartialEq, Eq)]
pub struct Node {
    /// Index into the plane array
    pub plane_num: i32,
    /// A node index, or `-(leaf + 1)` where negative
    pub children: [i32; 2],
    /// For frustum culling
    pub mins: [i16; 3],
    /// For frustum culling
    pub maxs: [i16; 3],
    /// Index into the face array
    pub first_face: u16,
    /// Number of faces (counting both sides)
    pub num_faces: u16,
    /// The area that all leaves below this node are in, or -1 where they differ
    pub area: i16,
    /// Pads the record to 32 bytes
    pub padding: i16,
}

impl View for Node {
    type V = Node;

    open spec fn view(&self) -> Node {
        *self
    }
}

impl Node {
    /// The node stored in the 32 bytes from `at` on.
    pub open spec fn decode(data: Seq<u8>, at: int) -> Node {
        Node {
            plane_num: i32_at(data, at),
            children: [i32_at(data, at + 4), i32_at(data, at + 8)],
            mins: [i16_at(data, at + 12), i16_at(data, at + 14), i16_at(data, at + 16)],
            maxs: [i16_at(data, at + 18), i16_at(data, at + 20), i16_at(data, at + 22)],
            first_face: u16_at(data, at + 24),
            num_faces: u16_at(data, at + 26),
            area: i16_at(data, at + 28),
            padding: i16_at(data, at + 30),
        }
    }
}

impl BspParseable for Node {
    open spec fn stride() -> Option<nat> {
        Some(32)
    }

    open spec fn parse(data: Seq<u8>, at: int) -> Option<(Node, int)> {
        whole(data, at, 32, Node::decode(data, at))
    }

    open spec fn encode(v: Node) -> Seq<u8> {
        i32_bytes(v.plane_num)
            + i32_bytes(v.children[0])
            + i32_bytes(v.children[1])
            + i16_bytes(v.mins[0])
            + i16_bytes(v.mins[1])
            + i16_bytes(v.mins[2])
            + i16_bytes(v.maxs[0])
            + i16_bytes(v.maxs[1])
            + i16_bytes(v.maxs[2])
            + u16_bytes(v.first_face)
            + u16_bytes(v.num_faces)
            + i16_bytes(v.area)
            + i16_bytes(v.padding)
    }

    proof fn lemma_parse(data: Seq<u8>, at: int) {
        if at + 32 <= data.len() {
            lemma_quad_round_trip(data, at, at);
            lemma_quad_round_trip(data, at, at + 4);
            lemma_quad_round_trip(data, at, at + 8);
            lemma_pair_round_trip(data, at, at + 12);
            lemma_pair_round_trip(data, at, at + 14);
            lemma_pair_round_trip(data, at, at + 16);
            lemma_pair_round_trip(data, at, at + 18);
            lemma_pair_round_trip(data, at, at + 20);
            lemma_pair_round_trip(data, at, at + 22);
            lemma_pair_round_trip(data, at, at + 24);
            lemma_pair_round_trip(data, at, at + 26);
            lemma_pair_round_trip(data, at, at + 28);
            lemma_pair_round_trip(data, at, at + 30);
        }
    }

    fn from_reader(data: &mut LumpReader) -> (r: Result<Self, LumpError>) {
        if data.remaining() < 32 {
            return Err(LumpError::OutOfRange);
        }
        let plane_num = data.read_i32()?;
        let children = (data.read_i32()?, data.read_i32()?);
        let mins = (data.read_i16()?, data.read_i16()?, data.read_i16()?);
        let maxs = (data.read_i16()?, data.read_i16()?, data.read_i16()?);
        let first_face = data.read_u16()?;
        let num_faces = data.read_u16()?;
        let area = data.read_i16()?;
        let padding = data.read_i16()?;
        Ok(
            Node {
                plane_num,
                children: [children.0, children.1],
                mins: [mins.0, mins.1, mins.2],
                maxs: [maxs.0, maxs.1, maxs.2],
                first_face,
                num_faces,
                area,
                padding,
            },
        )
    }
}

impl Node {
    /// The leaf that the child index `child` of a node stands for: a negative
    /// child `-(leaf + 1)` names the leaf `leaf`, so that -1 names leaf 0. A
    /// child that is not negative names a node, and no leaf.
    pub fn leaf_of(child: i32) -> (leaf: Option<i32>)
        ensures
            child < 0 ==> leaf == Some((-child - 1) as i32),
            child >= 0 ==> leaf is None,
    {
        if child < 0 {
            Some(-(child + 1))
        } else {
            None
        }
    }
}

/// How a texture is laid on a face.
#[derive(Debug, Clone, Copy, PartialEq, Eq)]
pub struct TexInfo {
    /// [s/t][xyz offset]
    pub texture_vecs: [[FloatBits; 4]; 2],
    /// [s/t][xyz offset]
    pub lightmap_vecs: [[FloatBits; 4]; 2],
    /// Miptex flag overrides
    pub flags: i32,
    /// Index of the texture's name, size and so on
    pub tex_data: i32,
}

impl View for TexInfo {
    type V = TexInfo;

    open spec fn view(&self) -> TexInfo {
        *self
    }
}

impl TexInfo {
    /// The texture info stored in the 72 bytes from `at` on.
    pub open spec fn decode(data: Seq<u8>, at: int) -> TexInfo {
        TexInfo {
            texture_vecs: [
                [
                    f32_at(data, at),
                    f32_at(data, at + 4),
                    f32_at(data, at + 8),
                    f32_at(data, at + 12),
                ],
                [
                    f32_at(data, at + 16),
                    f32_at(data, at + 20),
                    f32_at(data, at + 24),
                    f32_at(data, at + 28),
                ],
            ],
            lightmap_vecs: [
                [
                    f32_at(data, at + 32),
                    f32_at(data, at + 36),
                    f32_at(data, at + 40),
                    f32_at(data, at + 44),
                ],
                [
                    f32_at(data, at + 48),
                    f32_at(data, at + 52),
                    f32_at(data, at + 56),
                    f32_at(data, at + 60),
                ],
            ],
            flags: i32_at(data, at + 64),
            tex_data: i32_at(data, at + 68),
        }
    }
}

impl BspParseable for TexInfo {
    open spec fn stride() -> Option<nat> {
        Some(72)
    }

    open spec fn parse(data: Seq<u8>, at: int) -> Option<(TexInfo, int)> {
        whole(data, at, 72, TexInfo::decode(data, at))
    }

    open spec fn encode(v: TexInfo) -> Seq<u8> {
        f32_bytes(v.texture_vecs[0][0])
            + f32_bytes(v.texture_vecs[0][1])
            + f32_bytes(v.texture_vecs[0][2])
            + f32_bytes(v.texture_vecs[0][3])
            + f32_bytes(v.texture_vecs[1][0])
            + f32_bytes(v.texture_vecs[1][1])
            + f32_bytes(v.texture_vecs[1][2])
            + f32_bytes(v.texture_vecs[1][3])
            + f32_bytes(v.lightmap_vecs[0][0])
            + f32_bytes(v.lightmap_vecs[0][1])
            + f32_bytes(v.lightmap_vecs[0][2])
            + f32_bytes(v.lightmap_vecs[0][3])
            + f32_bytes(v.lightmap_vecs[1][0])
            + f32_bytes(v.lightmap_vecs[1][1])
            + f32_bytes(v.lightmap_vecs[1][2])
            + f32_bytes(v.lightmap_vecs[1][3])
            + i32_bytes(v.flags)
            + i32_bytes(v.tex_data)
    }

    proof fn lemma_parse(data: Seq<u8>, at: int) {
        if at + 72 <= data.len() {
            lemma_quad_round_trip(data, at, at);
            lemma_quad_round_trip(data, at, at + 4);
            lemma_quad_round_trip(data, at, at + 8);
            lemma_quad_round_trip(data, at, at + 12);
            lemma_quad_round_trip(data, at, at + 16);
            lemma_quad_round_trip(data, at, at + 20);
            lemma_quad_round_trip(data, at, at + 24);
            lemma_quad_round_trip(data, at, at + 28);
            lemma_quad_round_trip(data, at, at + 32);
            lemma_quad_round_trip(data, at, at + 36);
            lemma_quad_round_trip(data, at, at + 40);
            lemma_quad_round_trip(data, at, at + 44);
            lemma_quad_round_trip(data, at, at + 48);
            lemma_quad_round_trip(data, at, at + 52);
            lemma_quad_round_trip(data, at, at + 56);
            lemma_quad_round_trip(data, at, at + 60);
            lemma_quad_round_trip(data, at, at + 64);
            lemma_quad_round_trip(data, at, at + 68);
        }
    }

    fn from_reader(data: &mut LumpReader) -> (r: Result<Self, LumpError>) {
        if data.remaining() < 72 {
            return Err(LumpError::OutOfRange);
        }
        let texture_vecs_s = (
            data.read_f32()?,
            data.read_f32()?,
            data.read_f32()?,
            data.read_f32()?,
        );
        let texture_vecs_t = (
            data.read_f32()?,
            data.read_f32()?,
            data.read_f32()?,
            data.read_f32()?,
        );
        let lightmap_vecs_s = (
            data.read_f32()?,
            data.read_f32()?,
            data.read_f32()?,
            data.read_f32()?,
        );
        let lightmap_vecs_t = (
            data.read_f32()?,
            data.read_f32()?,
            data.read_f32()?,
            data.read_f32()?,
        );
        let flags = data.read_i32()?;
        let tex_data = data.read_i32()?;
        Ok(
            TexInfo {
                texture_vecs: [
                    [texture_vecs_s.0, texture_vecs_s.1, texture_vecs_s.2, texture_vecs_s.3],
                    [texture_vecs_t.0, texture_vecs_t.1, texture_vecs_t.2, texture_vecs_t.3],
                ],
                lightmap_vecs: [
                    [lightmap_vecs_s.0, lightmap_vecs_s.1, lightmap_vecs_s.2, lightmap_vecs_s.3],
                    [lightmap_vecs_t.0, lightmap_vecs_t.1, lightmap_vecs_t.2, lightmap_vecs_t.3],
                ],
                flags,
                tex_data,
            },
        )
    }
}

/// A face of the level geometry.
#[derive(Debug, Clone, Copy, PartialEq, Eq)]
pub struct Face {
    /// The plane number
    pub plane_num: u16,
    /// Faces opposite to the node's plane direction
    pub side: u8,
    /// 1 if on a node, 0 if in a leaf
    pub on_node: u8,
    /// Index into surfedges
    pub first_edge: i32,
    /// Number of surfedges
    pub num_edges: i16,
    /// Texture info
    pub texinfo: i16,
    /// Displacement info
    pub displacement_info: i16,
    /// The fog volume of the surface
    pub surface_fog_volume_id: i16,
    /// Switchable lighting info
    pub styles: [u8; 4],
    /// Offset into the lightmap lump
    pub light_offset: i32,
    /// Face area in units^2
    pub area: FloatBits,
    /// Texture lighting info
    pub lightmap_texture_mins_in_luxels: [i32; 2],
    /// Texture lighting info
    pub lightmap_texture_size_in_luxels: [i32; 2],
    /// Original face this was split from
    pub original_face: i32,
    /// Number of primitives
    pub num_primitives: u16,
    /// Index of the first primitive
    pub first_primitave_id: u16,
    /// Lightmap smoothing group
    pub smoothing_groups: u32,
}

impl View for Face {
    type V = Face;

    open spec fn view(&self) -> Face {
        *self
    }
}

impl Face {
    /// The face stored in the 56 bytes from `at` on.
    pub open spec fn decode(data: Seq<u8>, at: int) -> Face {
        Face {
            plane_num: u16_at(data, at),
            side: u8_at(data, at + 2),
            on_node: u8_at(data, at + 3),
            first_edge: i32_at(data, at + 4),
            num_edges: i16_at(data, at + 8),
            texinfo: i16_at(data, at + 10),
            displacement_info: i16_at(data, at + 12),
            surface_fog_volume_id: i16_at(data, at + 14),
            styles: [
                u8_at(data, at + 16),
                u8_at(data, at + 17),
                u8_at(data, at + 18),
                u8_at(data, at + 19),
            ],
            light_offset: i32_at(data, at + 20),
            area: f32_at(data, at + 24),
            lightmap_texture_mins_in_luxels: [i32_at(data, at + 28), i32_at(data, at + 32)],
            lightmap_texture_size_in_luxels: [i32_at(data, at + 36), i32_at(data, at + 40)],
            original_face: i32_at(data, at + 44),
            num_primitives: u16_at(data, at + 48),
            first_primitave_id: u16_at(data, at + 50),
            smoothing_groups: u32_at(data, at + 52),
        }
    }
}

impl BspParseable for Face {
    open spec fn stride() -> Option<nat> {
        Some(56)
    }

    open spec fn parse(data: Seq<u8>, at: int) -> Option<(Face, int)> {
        whole(data, at, 56, Face::decode(data, at))
    }

    open spec fn encode(v: Face) -> Seq<u8> {
        u16_bytes(v.plane_num)
            + u8_bytes(v.side)
            + u8_bytes(v.on_node)
            + i32_bytes(v.first_edge)
            + i16_bytes(v.num_edges)
            + i16_bytes(v.texinfo)
            + i16_bytes(v.displacement_info)
            + i16_bytes(v.surface_fog_volume_id)
            + u8_bytes(v.styles[0])
            + u8_bytes(v.styles[1])
            + u8_bytes(v.styles[2])
            + u8_bytes(v.styles[3])
            + i32_bytes(v.light_offset)
            + f32_bytes(v.area)
            + i32_bytes(v.lightmap_texture_mins_in_luxels[0])
            + i32_bytes(v.lightmap_texture_mins_in_luxels[1])
            + i32_bytes(v.lightmap_texture_size_in_luxels[0])
            + i32_bytes(v.lightmap_texture_size_in_luxels[1])
            + i32_bytes(v.original_face)
            + u16_bytes(v.num_primitives)
            + u16_bytes(v.first_primitave_id)
            + u32_bytes(v.smoothing_groups)
    }

    proof fn lemma_parse(data: Seq<u8>, at: int) {
        if at + 56 <= data.len() {
            lemma_pair_round_trip(data, at, at);
            lemma_byte_round_trip(data, at, at + 2);
            lemma_byte_round_trip(data, at, at + 3);
            lemma_quad_round_trip(data, at, at + 4);
            lemma_pair_round_trip(data, at, at + 8);
            lemma_pair_round_trip(data, at, at + 10);
            lemma_pair_round_trip(data, at, at + 12);
            lemma_pair_round_trip(data, at, at + 14);
            lemma_byte_round_trip(data, at, at + 16);
            lemma_byte_round_trip(data, at, at + 17);
            lemma_byte_round_trip(data, at, at + 18);
            lemma_byte_round_trip(data, at, at + 19);
            lemma_quad_round_trip(data, at, at + 20);
            lemma_quad_round_trip(data, at, at + 24);
            lemma_quad_round_trip(data, at, at + 28);
            lemma_quad_round_trip(data, at, at + 32);
            lemma_quad_round_trip(data, at, at + 36);
            lemma_quad_round_trip(data, at, at + 40);
            lemma_quad_round_trip(data, at, at + 44);
            lemma_pair_round_trip(data, at, at + 48);
            lemma_pair_round_trip(data, at, at + 50);
            lemma_quad_round_trip(data, at, at + 52);
        }
    }

    fn from_reader(data: &mut LumpReader) -> (r: Result<Self, LumpError>) {
        if data.remaining() < 56 {
            return Err(LumpError::OutOfRange);
        }
        let plane_num = data.read_u16()?;
        let side = data.read_u8()?;
        let on_node = data.read_u8()?;
        let first_edge = data.read_i32()?;
        let num_edges = data.read_i16()?;
        let texinfo = data.read_i16()?;
        let displacement_info = data.read_i16()?;
        let surface_fog_volume_id = data.read_i16()?;
        let styles = (data.read_u8()?, data.read_u8()?, data.read_u8()?, data.read_u8()?);
        let light_offset = data.read_i32()?;
        let area = data.read_f32()?;
        let lightmap_texture_mins_in_luxels = (data.read_i32()?, data.read_i32()?);
        let lightmap_texture_size_in_luxels = (data.read_i32()?, data.read_i32()?);
        let original_face = data.read_i32()?;
        let num_primitives = data.read_u16()?;
        let first_primitave_id = data.read_u16()?;
        let smoothing_groups = data.read_u32()?;
        Ok(
            Face {
                plane_num,
                side,
                on_node,
                first_edge,
                num_edges,
                texinfo,
                displacement_info,
                surface_fog_volume_id,
                styles: [styles.0, styles.1, styles.2, styles.3],
                light_offset,
                area,
                lightmap_texture_mins_in_luxels: [
                    lightmap_texture_mins_in_luxels.0,
                    lightmap_texture_mins_in_luxels.1,
                ],
                lightmap_texture_size_in_luxels: [
                    lightmap_texture_size_in_luxels.0,
                    lightmap_texture_size_in_luxels.1,
                ],
                original_face,
                num_primitives,
                first_primitave_id,
                smoothing_groups,
            },
        )
    }
}

/// A colour of the lightmap. Each channel stands for its value times two to
/// the power of the exponent.
#[derive(Debug, Clone, Copy, PartialEq, Eq)]
pub struct LightmapSample {
    /// Red value
    pub r: u8,
    /// Green value
    pub g: u8,
    /// Blue value
    pub b: u8,
    /// Exponent of the power of two
    pub exponent: i8,
}

impl View for LightmapSample {
    type V = LightmapSample;

    open spec fn view(&self) -> LightmapSample {
        *self
    }
}

impl LightmapSample {
    /// The lightmap sample stored in the 4 bytes from `at` on.
    pub open spec fn decode(data: Seq<u8>, at: int) -> LightmapSample {
        LightmapSample {
            r: u8_at(data, at),
            g: u8_at(data, at + 1),
            b: u8_at(data, at + 2),
            exponent: i8_at(data, at + 3),
        }
    }
}

impl BspParseable for LightmapSample {
    open spec fn stride() -> Option<nat> {
        Some(4)
    }

    open spec fn parse(data: Seq<u8>, at: int) -> Option<(LightmapSample, int)> {
        whole(data, at, 4, LightmapSample::decode(data, at))
    }

    open spec fn encode(v: LightmapSample) -> Seq<u8> {
        u8_bytes(v.r) + u8_bytes(v.g) + u8_bytes(v.b) + i8_bytes(v.exponent)
    }

    proof fn lemma_parse(data: Seq<u8>, at: int) {
        if at + 4 <= data.len() {
            lemma_byte_round_trip(data, at, at);
            lemma_byte_round_trip(data, at, at + 1);
            lemma_byte_round_trip(data, at, at + 2);
            lemma_byte_round_trip(data, at, at + 3);
        }
    }

    fn from_reader(data: &mut LumpReader) -> (r: Result<Self, LumpError>) {
        if data.remaining() < 4 {
            return Err(LumpError::OutOfRange);
        }
        let r = data.read_u8()?;
        let g = data.read_u8()?;
        let b = data.read_u8()?;
        let exponent = data.read_i8()?;
        Ok(LightmapSample { r, g, b, exponent })
    }
}

/// One occluder of an occlusion group.
#[derive(Debug, Clone, Copy, PartialEq, Eq)]
pub struct OccluderData {
    /// Flags of the occluder
    pub flags: i32,
    /// Index into the polygons of the group
    pub first_poly: i32,
    /// Amount of polygons
    pub poly_count: i32,
    /// Minima of all vertices
    pub mins: [FloatBits; 3],
    /// Maxima of all vertices
    pub maxs: [FloatBits; 3],
    /// The area the occluder is in
    pub area: i32,
}

impl View for OccluderData {
    type V = OccluderData;

    open spec fn view(&self) -> OccluderData {
        *self
    }
}

impl OccluderData {
    /// The occluder data stored in the 40 bytes from `at` on.
    pub open spec fn decode(data: Seq<u8>, at: int) -> OccluderData {
        OccluderData {
            flags: i32_at(data, at),
            first_poly: i32_at(data, at + 4),
            poly_count: i32_at(data, at + 8),
            mins: [f32_at(data, at + 12), f32_at(data, at + 16), f32_at(data, at + 20)],
            maxs: [f32_at(data, at + 24), f32_at(data, at + 28), f32_at(data, at + 32)],
            area: i32_at(data, at + 36),
        }
    }
}

impl BspParseable for OccluderData {
    open spec fn stride() -> Option<nat> {
        Some(40)
    }

    open spec fn parse(data: Seq<u8>, at: int) -> Option<(OccluderData, int)> {
        whole(data, at, 40, OccluderData::decode(data, at))
    }

    open spec fn encode(v: OccluderData) -> Seq<u8> {
        i32_bytes(v.flags)
            + i32_bytes(v.first_poly)
            + i32_bytes(v.poly_count)
            + f32_bytes(v.mins[0])
            + f32_bytes(v.mins[1])
            + f32_bytes(v.mins[2])
            + f32_bytes(v.maxs[0])
            + f32_bytes(v.maxs[1])
            + f32_bytes(v.maxs[2])
            + i32_bytes(v.area)
    }

    proof fn lemma_parse(data: Seq<u8>, at: int) {
        if at + 40 <= data.len() {
            lemma_quad_round_trip(data, at, at);
            lemma_quad_round_trip(data, at, at + 4);
            lemma_quad_round_trip(data, at, at + 8);
            lemma_quad_round_trip(data, at, at + 12);
            lemma_quad_round_trip(data, at, at + 16);
            lemma_quad_round_trip(data, at, at + 20);
            lemma_quad_round_trip(data, at, at + 24);
            lemma_quad_round_trip(data, at, at + 28);
            lemma_quad_round_trip(data, at, at + 32);
            lemma_quad_round_trip(data, at, at + 36);
        }
    }

    fn from_reader(data: &mut LumpReader) -> (r: Result<Self, LumpError>) {
        if data.remaining() < 40 {
            return Err(LumpError::OutOfRange);
        }
        let flags = data.read_i32()?;
        let first_poly = data.read_i32()?;
        let poly_count = data.read_i32()?;
        let mins = (data.read_f32()?, data.read_f32()?, data.read_f32()?);
        let maxs = (data.read_f32()?, data.read_f32()?, data.read_f32()?);
        let area = data.read_i32()?;
        Ok(
            OccluderData {
                flags,
                first_poly,
                poly_count,
                mins: [mins.0, mins.1, mins.2],
                maxs: [maxs.0, maxs.1, maxs.2],
                area,
            },
        )
    }
}

/// One polygon of an occlusion group.
#[derive(Debug, Clone, Copy, PartialEq, Eq)]
pub struct OccluderPolyData {
    /// Index into the vertex indices of the group
    pub first_vertex_index: i32,
    /// Amount of vertex indices
    pub vertex_count: i32,
    /// The plane number
    pub plane_num: i32,
}

impl View for OccluderPolyData {
    type V = OccluderPolyData;

    open spec fn view(&self) -> OccluderPolyData {
        *self
    }
}

impl OccluderPolyData {
    /// The occluder polygon stored in the 12 bytes from `at` on.
    pub open spec fn decode(data: Seq<u8>, at: int) -> OccluderPolyData {
        OccluderPolyData {
            first_vertex_index: i32_at(data, at),
            vertex_count: i32_at(data, at + 4),
            plane_num: i32_at(data, at + 8),
        }
    }
}

impl BspParseable for OccluderPolyData {
    open spec fn stride() -> Option<nat> {
        Some(12)
    }

    open spec fn parse(data: Seq<u8>, at: int) -> Option<(OccluderPolyData, int)> {
        whole(data, at, 12, OccluderPolyData::decode(data, at))
    }

    open spec fn encode(v: OccluderPolyData) -> Seq<u8> {
        i32_bytes(v.first_vertex_index) + i32_bytes(v.vertex_count) + i32_bytes(v.plane_num)
    }

    proof fn lemma_parse(data: Seq<u8>, at: int) {
        if at + 12 <= data.len() {
            lemma_quad_round_trip(data, at, at);
            lemma_quad_round_trip(data, at, at + 4);
            lemma_quad_round_trip(data, at, at + 8);
        }
    }

    fn from_reader(data: &mut LumpReader) -> (r: Result<Self, LumpError>) {
        if data.remaining() < 12 {
            return Err(LumpError::OutOfRange);
        }
        let first_vertex_index = data.read_i32()?;
        let vertex_count = data.read_i32()?;
        let plane_num = data.read_i32()?;
        Ok(OccluderPolyData { first_vertex_index, vertex_count, plane_num })
    }
}

/// A group of occluders with the polygons and vertex indices they refer to.
/// Each of the three lists is stored behind its count.
#[derive(Debug, PartialEq, Eq)]
pub struct Occluder {
    /// The stored number of occluders
    pub count: i32,
    /// The occluders
    pub occluder_data: Vec<OccluderData>,
    /// The stored number of polygons
    pub poly_data_count: i32,
    /// The polygons
    pub poly_data: Vec<OccluderPolyData>,
    /// The stored number of vertex indices
    pub vertex_index_count: i32,
    /// The vertex indices
    pub vertex_indicies: Vec<i32>,
}

/// What an [`Occluder`] holds.
pub struct OccluderView {
    pub count: i32,
    pub occluder_data: Seq<OccluderData>,
    pub poly_data_count: i32,
    pub poly_data: Seq<OccluderPolyData>,
    pub vertex_index_count: i32,
    pub vertex_indicies: Seq<i32>,
}

impl View for Occluder {
    type V = OccluderView;

    open spec fn view(&self) -> OccluderView {
        OccluderView {
            count: self.count,
            occluder_data: views(self.occluder_data@),
            poly_data_count: self.poly_data_count,
            poly_data: views(self.poly_data@),
            vertex_index_count: self.vertex_index_count,
            vertex_indicies: views(self.vertex_indicies@),
        }
    }
}

impl Occluder {
    /// Reads the three counted lists; where the region ends before they do,
    /// the cursor is left inside the group.
    fn read_lists(data: &mut LumpReader) -> (r: Result<Self, LumpError>)
        requires
            0 <= old(data).pos() <= old(data).bytes().len(),
        ensures
            final(data).bytes() == old(data).bytes(),
            old(data).pos() <= final(data).pos(),
            match Self::parse(old(data).bytes(), old(data).pos()) {
                Some((v, end)) => r matches Ok(x) && x@ == v && final(data).pos() == end,
                None => r == Err::<Self, LumpError>(LumpError::OutOfRange),
            },
    {
        let ghost bytes = data.bytes();
        let ghost at = data.pos();
        proof {
            lemma_parse_counted::<OccluderData>(bytes, at, at);
        }
        let (count, occluder_data) = read_counted::<OccluderData>(data)?;
        proof {
            lemma_parse_counted::<OccluderPolyData>(bytes, at, data.pos());
        }
        let (poly_data_count, poly_data) = read_counted::<OccluderPolyData>(data)?;
        proof {
            lemma_parse_counted::<i32>(bytes, at, data.pos());
        }
        let (vertex_index_count, vertex_indicies) = read_counted::<i32>(data)?;
        Ok(
            Occluder {
                count,
                occluder_data,
                poly_data_count,
                poly_data,
                vertex_index_count,
                vertex_indicies,
            },
        )
    }
}

impl BspParseable for Occluder {
    open spec fn stride() -> Option<nat> {
        None
    }

    open spec fn parse(data: Seq<u8>, at: int) -> Option<(OccluderView, int)> {
        match parse_counted::<OccluderData>(data, at) {
            Some((count, occluder_data, polys_at)) => match parse_counted::<OccluderPolyData>(
                data,
                polys_at,
            ) {
                Some((poly_data_count, poly_data, indices_at)) => match parse_counted::<i32>(
                    data,
                    indices_at,
                ) {
                    Some((vertex_index_count, vertex_indicies, end)) => Some(
                        (
                            OccluderView {
                                count,
                                occluder_data,
                                poly_data_count,
                                poly_data,
                                vertex_index_count,
                                vertex_indicies,
                            },
                            end,
                        ),
                    ),
                    None => None,
                },
                None => None,
            },
            None => None,
        }
    }

    open spec fn encode(v: OccluderView) -> Seq<u8> {
        i32_bytes(v.count) + encode_records::<OccluderData>(v.occluder_data) + i32_bytes(
            v.poly_data_count,
        ) + encode_records::<OccluderPolyData>(v.poly_data) + i32_bytes(v.vertex_index_count)
            + encode_records::<i32>(v.vertex_indicies)
    }

    proof fn lemma_parse(data: Seq<u8>, at: int) {
        lemma_parse_counted::<OccluderData>(data, at, at);
        if let Some((count, occluder_data, polys_at)) = parse_counted::<OccluderData>(data, at) {
            lemma_parse_counted::<OccluderPolyData>(data, at, polys_at);
            if let Some((poly_data_count, poly_data, indices_at)) = parse_counted::<
                OccluderPolyData,
            >(data, polys_at) {
                lemma_parse_counted::<i32>(data, at, indices_at);
            }
        }
    }

    fn from_reader(data: &mut LumpReader) -> (r: Result<Self, LumpError>) {
        let start = data.get_pos();
        match Occluder::read_lists(data) {
            Ok(x) => Ok(x),
            Err(e) => {
                data.rewind(start);
                Err(e)
            },
        }
    }
}

/// An edge between two vertices.
#[derive(Debug, Clone, Copy, PartialEq, Eq)]
pub struct Edge {
    /// Vertex indices
    pub vertex_indicies: [u16; 2],
}

impl View for Edge {
    type V = Edge;

    open spec fn view(&self) -> Edge {
        *self
    }
}

impl Edge {
    /// The edge stored in the 4 bytes from `at` on.
    pub open spec fn decode(data: Seq<u8>, at: int) -> Edge {
        Edge {
            vertex_indicies: [u16_at(data, at), u16_at(data, at + 2)],
        }
    }
}

impl BspParseable for Edge {
    open spec fn stride() -> Option<nat> {
        Some(4)
    }

    open spec fn parse(data: Seq<u8>, at: int) -> Option<(Edge, int)> {
        whole(data, at, 4, Edge::decode(data, at))
    }

    open spec fn encode(v: Edge) -> Seq<u8> {
        u16_bytes(v.vertex_indicies[0]) + u16_bytes(v.vertex_indicies[1])
    }

    proof fn lemma_parse(data: Seq<u8>, at: int) {
        if at + 4 <= data.len() {
            lemma_pair_round_trip(data, at, at);
            lemma_pair_round_trip(data, at, at + 2);
        }
    }

    fn from_reader(data: &mut LumpReader) -> (r: Result<Self, LumpError>) {
        if data.remaining() < 4 {
            return Err(LumpError::OutOfRange);
        }
        let vertex_indicies = (data.read_u16()?, data.read_u16()?);
        Ok(Edge { vertex_indicies: [vertex_indicies.0, vertex_indicies.1] })
    }
}

/// A model made of brushes.
#[derive(Debug, Clone, Copy, PartialEq, Eq)]
pub struct Model {
    /// Bounding box
    pub mins: Vector,
    /// Bounding box
    pub maxs: Vector,
    /// For sounds and lights
    pub origin: Vector,
    /// Index into the node array
    pub head_node: i32,
    /// Index into the face array
    pub first_face: i32,
    /// Number of faces
    pub num_faces: i32,
}

impl View for Model {
    type V = Model;

    open spec fn view(&self) -> Model {
        *self
    }
}

impl Model {
    /// The model stored in the 48 bytes from `at` on.
    pub open spec fn decode(data: Seq<u8>, at: int) -> Model {
        Model {
            mins: (f32_at(data, at), f32_at(data, at + 4), f32_at(data, at + 8)),
            maxs: (f32_at(data, at + 12), f32_at(data, at + 16), f32_at(data, at + 20)),
            origin: (f32_at(data, at + 24), f32_at(data, at + 28), f32_at(data, at + 32)),
            head_node: i32_at(data, at + 36),
            first_face: i32_at(data, at + 40),
            num_faces: i32_at(data, at + 44),
        }
    }
}

impl BspParseable for Model {
    open spec fn stride() -> Option<nat> {
        Some(48)
    }

    open spec fn parse(data: Seq<u8>, at: int) -> Option<(Model, int)> {
        whole(data, at, 48, Model::decode(data, at))
    }

    open spec fn encode(v: Model) -> Seq<u8> {
        f32_bytes(v.mins.0)
            + f32_bytes(v.mins.1)
            + f32_bytes(v.mins.2)
            + f32_bytes(v.maxs.0)
            + f32_bytes(v.maxs.1)
            + f32_bytes(v.maxs.2)
            + f32_bytes(v.origin.0)
            + f32_bytes(v.origin.1)
            + f32_bytes(v.origin.2)
            + i32_bytes(v.head_node)
            + i32_bytes(v.first_face)
            + i32_bytes(v.num_faces)
    }

    proof fn lemma_parse(data: Seq<u8>, at: int) {
        if at + 48 <= data.len() {
            lemma_quad_round_trip(data, at, at);
            lemma_quad_round_trip(data, at, at + 4);
            lemma_quad_round_trip(data, at, at + 8);
            lemma_quad_round_trip(data, at, at + 12);
            lemma_quad_round_trip(data, at, at + 16);
            lemma_quad_round_trip(data, at, at + 20);
            lemma_quad_round_trip(data, at, at + 24);
            lemma_quad_round_trip(data, at, at + 28);
            lemma_quad_round_trip(data, at, at + 32);
            lemma_quad_round_trip(data, at, at + 36);
            lemma_quad_round_trip(data, at, at + 40);
            lemma_quad_round_trip(data, at, at + 44);
        }
    }

    fn from_reader(data: &mut LumpReader) -> (r: Result<Self, LumpError>) {
        if data.remaining() < 48 {
            return Err(LumpError::OutOfRange);
        }
        let mins = (data.read_f32()?, data.read_f32()?, data.read_f32()?);
        let maxs = (data.read_f32()?, data.read_f32()?, data.read_f32()?);
        let origin = (data.read_f32()?, data.read_f32()?, data.read_f32()?);
        let head_node = data.read_i32()?;
        let first_face = data.read_i32()?;
        let num_faces = data.read_i32()?;
        Ok(Model { mins, maxs, origin, head_node, first_face, num_faces })
    }
}

/// A convex solid.
#[derive(Debug, Clone, Copy, PartialEq, Eq)]
pub struct Brush {
    /// First brushside
    pub first_side: i32,
    /// Number of brushsides
    pub num_sides: i32,
    /// Contents flags
    pub contents: i32,
}

impl View for Brush {
    type V = Brush;

    open spec fn view(&self) -> Brush {
        *self
    }
}

impl Brush {
    /// The brush stored in the 12 bytes from `at` on.
    pub open spec fn decode(data: Seq<u8>, at: int) -> Brush {
        Brush {
            first_side: i32_at(data, at),
            num_sides: i32_at(data, at + 4),
            contents: i32_at(data, at + 8),
        }
    }
}

impl BspParseable for Brush {
    open spec fn stride() -> Option<nat> {
        Some(12)
    }

    open spec fn parse(data: Seq<u8>, at: int) -> Option<(Brush, int)> {
        whole(data, at, 12, Brush::decode(data, at))
    }

    open spec fn encode(v: Brush) -> Seq<u8> {
        i32_bytes(v.first_side) + i32_bytes(v.num_sides) + i32_bytes(v.contents)
    }

    proof fn lemma_parse(data: Seq<u8>, at: int) {
        if at + 12 <= data.len() {
            lemma_quad_round_trip(data, at, at);
            lemma_quad_round_trip(data, at, at + 4);
            lemma_quad_round_trip(data, at, at + 8);
        }
    }

    fn from_reader(data: &mut LumpReader) -> (r: Result<Self, LumpError>) {
        if data.remaining() < 12 {
            return Err(LumpError::OutOfRange);
        }
        let first_side = data.read_i32()?;
        let num_sides = data.read_i32()?;
        let contents = data.read_i32()?;
        Ok(Brush { first_side, num_sides, contents })
    }
}

/// One side of a brush.
#[derive(Debug, Clone, Copy, PartialEq, Eq)]
pub struct Brushside {
    /// Facing out of the leaf
    pub plane_num: u16,
    /// Texture info
    pub texinfo: i16,
    /// Displacement info
    pub dispinfo: i16,
    /// Is the side a bevel plane?
    pub bevel: i16,
}

impl View for Brushside {
    type V = Brushside;

    open spec fn view(&self) -> Brushside {
        *self
    }
}

impl Brushside {
    /// The brushside stored in the 8 bytes from `at` on.
    pub open spec fn decode(data: Seq<u8>, at: int) -> Brushside {
        Brushside {
            plane_num: u16_at(data, at),
            texinfo: i16_at(data, at + 2),
            dispinfo: i16_at(data, at + 4),
            bevel: i16_at(data, at + 6),
        }
    }
}

impl BspParseable for Brushside {
    open spec fn stride() -> Option<nat> {
        Some(8)
    }

    open spec fn parse(data: Seq<u8>, at: int) -> Option<(Brushside, int)> {
        whole(data, at, 8, Brushside::decode(data, at))
    }

    open spec fn encode(v: Brushside) -> Seq<u8> {
        u16_bytes(v.plane_num) + i16_bytes(v.texinfo) + i16_bytes(v.dispinfo) + i16_bytes(v.bevel)
    }

    proof fn lemma_parse(data: Seq<u8>, at: int) {
        if at + 8 <= data.len() {
            lemma_pair_round_trip(data, at, at);
            lemma_pair_round_trip(data, at, at + 2);
            lemma_pair_round_trip(data, at, at + 4);
            lemma_pair_round_trip(data, at, at + 6);
        }
    }

    fn from_reader(data: &mut LumpReader) -> (r: Result<Self, LumpError>) {
        if data.remaining() < 8 {
            return Err(LumpError::OutOfRange);
        }
        let plane_num = data.read_u16()?;
        let texinfo = data.read_i16()?;
        let dispinfo = data.read_i16()?;
        let bevel = data.read_i16()?;
        Ok(Brushside { plane_num, texinfo, dispinfo, bevel })
    }
}

/// An area of the level.
#[derive(Debug, Clone, Copy, PartialEq, Eq)]
pub struct Area {
    /// Number of portals of the area
    pub num_area_portals: i32,
    /// Index of the area's first portal
    pub first_area_portal: i32,
}

impl View for Area {
    type V = Area;

    open spec fn view(&self) -> Area {
        *self
    }
}

impl Area {
    /// The area stored in the 8 bytes from `at` on.
    pub open spec fn decode(data: Seq<u8>, at: int) -> Area {
        Area {
            num_area_portals: i32_at(data, at),
            first_area_portal: i32_at(data, at + 4),
        }
    }
}

impl BspParseable for Area {
    open spec fn stride() -> Option<nat> {
        Some(8)
    }

    open spec fn parse(data: Seq<u8>, at: int) -> Option<(Area, int)> {
        whole(data, at, 8, Area::decode(data, at))
    }

    open spec fn encode(v: Area) -> Seq<u8> {
        i32_bytes(v.num_area_portals) + i32_bytes(v.first_area_portal)
    }

    proof fn lemma_parse(data: Seq<u8>, at: int) {
        if at + 8 <= data.len() {
            lemma_quad_round_trip(data, at, at);
            lemma_quad_round_trip(data, at, at + 4);
        }
    }

    fn from_reader(data: &mut LumpReader) -> (r: Result<Self, LumpError>) {
        if data.remaining() < 8 {
            return Err(LumpError::OutOfRange);
        }
        let num_area_portals = data.read_i32()?;
        let first_area_portal = data.read_i32()?;
        Ok(Area { num_area_portals, first_area_portal })
    }
}

/// A portal between two areas.
#[derive(Debug, Clone, Copy, PartialEq, Eq)]
pub struct AreaPortal {
    /// The key that entities open and close the portal by
    pub portal_key: u16,
    /// The area on the other side
    pub other_area: u16,
    /// Index of the portal's first clip vertex
    pub first_clip_portal_vert: u16,
    /// Number of clip vertices
    pub num_clip_portal_verts: u16,
    /// The plane number
    pub plane_num: i32,
}

impl View for AreaPortal {
    type V = AreaPortal;

    open spec fn view(&self) -> AreaPortal {
        *self
    }
}

impl AreaPortal {
    /// The area portal stored in the 12 bytes from `at` on.
    pub open spec fn decode(data: Seq<u8>, at: int) -> AreaPortal {
        AreaPortal {
            portal_key: u16_at(data, at),
            other_area: u16_at(data, at + 2),
            first_clip_portal_vert: u16_at(data, at + 4),
            num_clip_portal_verts: u16_at(data, at + 6),
            plane_num: i32_at(data, at + 8),
        }
    }
}

impl BspParseable for AreaPortal {
    open spec fn stride() -> Option<nat> {
        Some(12)
    }

    open spec fn parse(data: Seq<u8>, at: int) -> Option<(AreaPortal, int)> {
        whole(data, at, 12, AreaPortal::decode(data, at))
    }

    open spec fn encode(v: AreaPortal) -> Seq<u8> {
        u16_bytes(v.portal_key)
            + u16_bytes(v.other_area)
            + u16_bytes(v.first_clip_portal_vert)
            + u16_bytes(v.num_clip_portal_verts)
            + i32_bytes(v.plane_num)
    }

    proof fn lemma_parse(data: Seq<u8>, at: int) {
        if at + 12 <= data.len() {
            lemma_pair_round_trip(data, at, at);
            lemma_pair_round_trip(data, at, at + 2);
            lemma_pair_round_trip(data, at, at + 4);
            lemma_pair_round_trip(data, at, at + 6);
            lemma_quad_round_trip(data, at, at + 8);
        }
    }

    fn from_reader(data: &mut LumpReader) -> (r: Result<Self, LumpError>) {
        if data.remaining() < 12 {
            return Err(LumpError::OutOfRange);
        }
        let portal_key = data.read_u16()?;
        let other_area = data.read_u16()?;
        let first_clip_portal_vert = data.read_u16()?;
        let num_clip_portal_verts = data.read_u16()?;
        let plane_num = data.read_i32()?;
        Ok(
            AreaPortal {
                portal_key,
                other_area,
                first_clip_portal_vert,
                num_clip_portal_verts,
                plane_num,
            },
        )
    }
}

/// One neighbor along an edge of a displacement. Experimental: the layout
/// of the neighbor data is not settled, and no lump is decoded with it.
#[derive(Debug, Clone, Copy, PartialEq, Eq)]
pub struct CDispSubNeighbor {
    /// Index of the neighboring displacement
    pub neighbor_index: u16,
    /// How the neighbor is turned against this displacement
    pub neighbor_orientation: u8,
    /// Where the neighbor fits onto this side
    pub span: u8,
    /// Where this side fits onto the neighbor
    pub neighbor_span: u8,
}

impl View for CDispSubNeighbor {
    type V = CDispSubNeighbor;

    open spec fn view(&self) -> CDispSubNeighbor {
        *self
    }
}

impl CDispSubNeighbor {
    /// The sub-neighbor stored in the 5 bytes from `at` on.
    pub open spec fn decode(data: Seq<u8>, at: int) -> CDispSubNeighbor {
        CDispSubNeighbor {
            neighbor_index: u16_at(data, at),
            neighbor_orientation: u8_at(data, at + 2),
            span: u8_at(data, at + 3),
            neighbor_span: u8_at(data, at + 4),
        }
    }
}

impl BspParseable for CDispSubNeighbor {
    open spec fn stride() -> Option<nat> {
        Some(5)
    }

    open spec fn parse(data: Seq<u8>, at: int) -> Option<(CDispSubNeighbor, int)> {
        whole(data, at, 5, CDispSubNeighbor::decode(data, at))
    }

    open spec fn encode(v: CDispSubNeighbor) -> Seq<u8> {
        u16_bytes(v.neighbor_index)
            + u8_bytes(v.neighbor_orientation)
            + u8_bytes(v.span)
            + u8_bytes(v.neighbor_span)
    }

    proof fn lemma_parse(data: Seq<u8>, at: int) {
        if at + 5 <= data.len() {
            lemma_pair_round_trip(data, at, at);
            lemma_byte_round_trip(data, at, at + 2);
            lemma_byte_round_trip(data, at, at + 3);
            lemma_byte_round_trip(data, at, at + 4);
        }
    }

    fn from_reader(data: &mut LumpReader) -> (r: Result<Self, LumpError>) {
        if data.remaining() < 5 {
            return Err(LumpError::OutOfRange);
        }
        let neighbor_index = data.read_u16()?;
        let neighbor_orientation = data.read_u8()?;
        let span = data.read_u8()?;
        let neighbor_span = data.read_u8()?;
        Ok(CDispSubNeighbor { neighbor_index, neighbor_orientation, span, neighbor_span })
    }
}

/// The neighbors along one edge of a displacement. Experimental: the layout
/// of the neighbor data is not settled, and no lump is decoded with it.
#[derive(Debug, PartialEq, Eq)]
pub struct CDispNeighbor {
    /// The neighbors along the edge: two of them
    pub sub_neighbors: Vec<CDispSubNeighbor>,
}

/// What a [`CDispNeighbor`] holds.
pub struct CDispNeighborView {
    pub sub_neighbors: Seq<CDispSubNeighbor>,
}

impl View for CDispNeighbor {
    type V = CDispNeighborView;

    open spec fn view(&self) -> CDispNeighborView {
        CDispNeighborView { sub_neighbors: views(self.sub_neighbors@) }
    }
}

impl BspParseable for CDispNeighbor {
    open spec fn stride() -> Option<nat> {
        Some(10)
    }

    open spec fn parse(data: Seq<u8>, at: int) -> Option<(CDispNeighborView, int)> {
        match parse_count::<CDispSubNeighbor>(data, at, 2) {
            Some((sub_neighbors, end)) => Some((CDispNeighborView { sub_neighbors }, end)),
            None => None,
        }
    }

    open spec fn encode(v: CDispNeighborView) -> Seq<u8> {
        encode_records::<CDispSubNeighbor>(v.sub_neighbors)
    }

    proof fn lemma_parse(data: Seq<u8>, at: int) {
        reveal_with_fuel(parse_count, 3);
        lemma_parse_count::<CDispSubNeighbor>(data, at, 2, 2);
    }

    fn from_reader(data: &mut LumpReader) -> (r: Result<Self, LumpError>) {
        let sub_neighbors = read_count::<CDispSubNeighbor>(data, 2)?;
        Ok(CDispNeighbor { sub_neighbors })
    }
}

/// The neighbors at a corner of a displacement. Experimental: the layout of
/// the neighbor data is not settled, and no lump is decoded with it.
#[derive(Debug, Clone, Copy, PartialEq, Eq)]
pub struct CDispCornerNeighbors {
    /// Indices of the neighboring displacements
    pub neighbors: [u16; 4],
    /// How many of the indices are in use
    pub num_neighbors: u8,
}

impl View for CDispCornerNeighbors {
    type V = CDispCornerNeighbors;

    open spec fn view(&self) -> CDispCornerNeighbors {
        *self
    }
}

impl CDispCornerNeighbors {
    /// The corner neighbors stored in the 9 bytes from `at` on.
    pub open spec fn decode(data: Seq<u8>, at: int) -> CDispCornerNeighbors {
        CDispCornerNeighbors {
            neighbors: [
                u16_at(data, at),
                u16_at(data, at + 2),
                u16_at(data, at + 4),
                u16_at(data, at + 6),
            ],
            num_neighbors: u8_at(data, at + 8),
        }
    }
}

impl BspParseable for CDispCornerNeighbors {
    open spec fn stride() -> Option<nat> {
        Some(9)
    }

    open spec fn parse(data: Seq<u8>, at: int) -> Option<(CDispCornerNeighbors, int)> {
        whole(data, at, 9, CDispCornerNeighbors::decode(data, at))
    }

    open spec fn encode(v: CDispCornerNeighbors) -> Seq<u8> {
        u16_bytes(v.neighbors[0])
            + u16_bytes(v.neighbors[1])
            + u16_bytes(v.neighbors[2])
            + u16_bytes(v.neighbors[3])
            + u8_bytes(v.num_neighbors)
    }

    proof fn lemma_parse(data: Seq<u8>, at: int) {
        if at + 9 <= data.len() {
            lemma_pair_round_trip(data, at, at);
            lemma_pair_round_trip(data, at, at + 2);
            lemma_pair_round_trip(data, at, at + 4);
            lemma_pair_round_trip(data, at, at + 6);
            lemma_byte_round_trip(data, at, at + 8);
        }
    }

    fn from_reader(data: &mut LumpReader) -> (r: Result<Self, LumpError>) {
        if data.remaining() < 9 {
            return Err(LumpError::OutOfRange);
        }
        let neighbors = (data.read_u16()?, data.read_u16()?, data.read_u16()?, data.read_u16()?);
        let num_neighbors = data.read_u8()?;
        Ok(
            CDispCornerNeighbors {
                neighbors: [neighbors.0, neighbors.1, neighbors.2, neighbors.3],
                num_neighbors,
            },
        )
    }
}

/// The placement of a displacement surface. The neighbor data between the
/// sample position and the allowed vertices is kept as the 90 bytes it is
/// stored in: its layout is not settled.
#[derive(Debug, PartialEq, Eq)]
pub struct DisplacementInfo {
    /// Where the displacement starts
    pub start_position: Vector,
    /// Index of the first displacement vertex
    pub disp_vert_start: i32,
    /// Index of the first displacement triangle
    pub disp_tri_start: i32,
    /// The surface has `2^power + 1` vertices along each side
    pub power: i32,
    /// Minimum tesselation allowed
    pub min_tesselation: i32,
    /// Lighting smoothing angle
    pub smoothing_angle: FloatBits,
    /// Surface contents
    pub contents: i32,
    /// The face that the displacement lies on
    pub map_face: u16,
    /// Index into the lightmap alphas
    pub lightmap_alpha_start: i32,
    /// Index into the lightmap sample positions
    pub lightmap_sample_position_start: i32,
    /// The neighbor data, not taken apart: 90 bytes
    pub neighbor_data: Vec<u8>,
    /// One bit for each vertex that is allowed: 10 words
    pub allowed_verts: Vec<u32>,
}

/// What a [`DisplacementInfo`] holds.
pub struct DisplacementInfoView {
    pub start_position: Vector,
    pub disp_vert_start: i32,
    pub disp_tri_start: i32,
    pub power: i32,
    pub min_tesselation: i32,
    pub smoothing_angle: FloatBits,
    pub contents: i32,
    pub map_face: u16,
    pub lightmap_alpha_start: i32,
    pub lightmap_sample_position_start: i32,
    pub neighbor_data: Seq<u8>,
    pub allowed_verts: Seq<u32>,
}

impl View for DisplacementInfo {
    type V = DisplacementInfoView;

    open spec fn view(&self) -> DisplacementInfoView {
        DisplacementInfoView {
            start_position: self.start_position,
            disp_vert_start: self.disp_vert_start,
            disp_tri_start: self.disp_tri_start,
            power: self.power,
            min_tesselation: self.min_tesselation,
            smoothing_angle: self.smoothing_angle,
            contents: self.contents,
            map_face: self.map_face,
            lightmap_alpha_start: self.lightmap_alpha_start,
            lightmap_sample_position_start: self.lightmap_sample_position_start,
            neighbor_data: self.neighbor_data@,
            allowed_verts: self.allowed_verts@,
        }
    }
}

impl DisplacementInfo {
    /// The displacement info stored in the 176 bytes from `at` on.
    pub open spec fn decode(data: Seq<u8>, at: int) -> DisplacementInfoView {
        DisplacementInfoView {
            start_position: (f32_at(data, at), f32_at(data, at + 4), f32_at(data, at + 8)),
            disp_vert_start: i32_at(data, at + 12),
            disp_tri_start: i32_at(data, at + 16),
            power: i32_at(data, at + 20),
            min_tesselation: i32_at(data, at + 24),
            smoothing_angle: f32_at(data, at + 28),
            contents: i32_at(data, at + 32),
            map_face: u16_at(data, at + 36),
            lightmap_alpha_start: i32_at(data, at + 38),
            lightmap_sample_position_start: i32_at(data, at + 42),
            neighbor_data: data.subrange(at + 46, at + 136),
            allowed_verts: u32s_at(data, at + 136, 10),
        }
    }
}

impl BspParseable for DisplacementInfo {
    open spec fn stride() -> Option<nat> {
        Some(176)
    }

    open spec fn parse(data: Seq<u8>, at: int) -> Option<(DisplacementInfoView, int)> {
        whole(data, at, 176, DisplacementInfo::decode(data, at))
    }

    open spec fn encode(v: DisplacementInfoView) -> Seq<u8> {
        f32_bytes(v.start_position.0)
            + f32_bytes(v.start_position.1)
            + f32_bytes(v.start_position.2)
            + i32_bytes(v.disp_vert_start)
            + i32_bytes(v.disp_tri_start)
            + i32_bytes(v.power)
            + i32_bytes(v.min_tesselation)
            + f32_bytes(v.smoothing_angle)
            + i32_bytes(v.contents)
            + u16_bytes(v.map_face)
            + i32_bytes(v.lightmap_alpha_start)
            + i32_bytes(v.lightmap_sample_position_start)
            + v.neighbor_data
            + u32s_bytes(v.allowed_verts)
    }

    proof fn lemma_parse(data: Seq<u8>, at: int) {
        if at + 176 <= data.len() {
            lemma_quad_round_trip(data, at, at);
            lemma_quad_round_trip(data, at, at + 4);
            lemma_quad_round_trip(data, at, at + 8);
            lemma_quad_round_trip(data, at, at + 12);
            lemma_quad_round_trip(data, at, at + 16);
            lemma_quad_round_trip(data, at, at + 20);
            lemma_quad_round_trip(data, at, at + 24);
            lemma_quad_round_trip(data, at, at + 28);
            lemma_quad_round_trip(data, at, at + 32);
            lemma_pair_round_trip(data, at, at + 36);
            lemma_quad_round_trip(data, at, at + 38);
            lemma_quad_round_trip(data, at, at + 42);
            assert(data.subrange(at, at + 46) + data.subrange(at + 46, at + 136)
                =~= data.subrange(at, at + 136));
            lemma_u32s_round_trip(data, at, at + 136, 10);
        }
    }

    fn from_reader(data: &mut LumpReader) -> (r: Result<Self, LumpError>) {
        if data.remaining() < 176 {
            return Err(LumpError::OutOfRange);
        }
        let start_position = Vector::from_reader(data)?;
        let disp_vert_start = data.read_i32()?;
        let disp_tri_start = data.read_i32()?;
        let power = data.read_i32()?;
        let min_tesselation = data.read_i32()?;
        let smoothing_angle = data.read_f32()?;
        let contents = data.read_i32()?;
        let map_face = data.read_u16()?;
        let lightmap_alpha_start = data.read_i32()?;
        let lightmap_sample_position_start = data.read_i32()?;
        let neighbor_data = data.read_bytes(90)?;
        let allowed_verts = data.read_x_u32(10)?;
        Ok(
            DisplacementInfo {
                start_position,
                disp_vert_start,
                disp_tri_start,
                power,
                min_tesselation,
                smoothing_angle,
                contents,
                map_face,
                lightmap_alpha_start,
                lightmap_sample_position_start,
                neighbor_data,
                allowed_verts,
            },
        )
    }
}

} // verus!
