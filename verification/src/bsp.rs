//! The BSP level decoder (format version 30).
//!
//! A level buffer starts with a 32-bit version, then 15 lump
//! descriptors (offset and size), then the lumps themselves. Every
//! typed lump is a run of fixed-size records; the entities, lighting
//! and visibility lumps are opaque byte ranges; the textures lump is a
//! nested directory of mip-texture records.
//!
//! Floating-point fields (plane normals, vertices, texture axes,
//! model bounds) are carried as their raw little-endian 32-bit IEEE
//! 754 bit patterns: the decoders never interpret them, and a consumer
//! can reinterpret the bits at the boundary.

use vstd::prelude::*;
use crate::entities::{spec_entities, Entities, entities_lists};
use crate::error::DecodeError;
use crate::source::{le_i16_at, le_i32_at, le_u16_at, le_u32_at, Source};
use crate::texture::{miptex, miptex_decoded, miptex_err, miptex_ok, MipTexture};

verus! {

/// The raw bit pattern of a little-endian 32-bit IEEE 754 value.
pub type F32Bits = u32;

/// 3-component vector of 32-bit float bit patterns.
pub type Vec3f = [F32Bits; 3];

/// 3-component vector of 16-bit integers.
pub type Vec3s = [i16; 3];

/// Edge represented as two vertex indices.
pub type Edge = (u16, u16);

/// Axis-aligned bounding box.
#[derive(Debug, Clone, Copy, PartialEq)]
pub struct BBox<T> {
    /// Minimum corner.
    pub min: T,
    /// Maximum corner.
    pub max: T,
}

/// Bounding box with 16-bit integer components.
pub type BBoxShort = BBox<Vec3s>;

/// Bounding box with 32-bit float-bit components.
pub type BBoxFloat = BBox<Vec3f>;

/// Plane used for spatial partitioning (20 bytes on disk).
#[derive(Debug, Clone, Copy, PartialEq)]
pub struct Plane {
    /// Normal vector (float bits).
    pub normal: Vec3f,
    /// Distance from the origin along the normal (float bits).
    pub distance: F32Bits,
    /// Plane type tag.
    pub ty: u32,
}

/// Node of the BSP tree (24 bytes on disk).
#[derive(Debug, Clone, Copy, PartialEq)]
pub struct Node {
    /// Index of the splitting plane.
    pub plane_id: u32,
    /// Child indices; a negative value denotes a leaf.
    pub children: [i16; 2],
    /// Bounding box of the node.
    pub bounds: BBoxShort,
    /// First face belonging to this node.
    pub first_face_id: u16,
    /// Number of faces in this node.
    pub faces_num: u16,
}

/// Texture mapping info for a face (40 bytes on disk).
#[derive(Debug, Clone, Copy, PartialEq)]
pub struct TextureInfo {
    /// S axis vector (float bits).
    pub s: Vec3f,
    /// S axis shift (float bits).
    pub s_shift: F32Bits,
    /// T axis vector (float bits).
    pub t: Vec3f,
    /// T axis shift (float bits).
    pub t_shift: F32Bits,
    /// Index into the textures array.
    pub texture_id: u32,
    /// Rendering flags.
    pub flags: u32,
}

/// Face of the level geometry (20 bytes on disk).
#[derive(Debug, Clone, Copy, PartialEq)]
pub struct Face {
    /// Plane this face lies on.
    pub plane_id: u16,
    /// Which side of the plane the face is on.
    pub plane_side: u16,
    /// First index into the surfedges array.
    pub first_surfedge_id: u32,
    /// Number of surfedges.
    pub surfedges_num: u16,
    /// Index into the texture infos array.
    pub texture_info_id: u16,
    /// Lighting styles.
    pub lighting_styles: [u8; 4],
    /// Offset into the lightmap data.
    pub lightmap_offset: u32,
}

/// Collision node (8 bytes on disk).
#[derive(Debug, Clone, Copy, PartialEq)]
pub struct ClipNode {
    /// Plane index used for clipping.
    pub plane_id: u32,
    /// Child indices; a negative value denotes a leaf.
    pub children: [i16; 2],
}

/// Leaf of the BSP tree (28 bytes on disk).
#[derive(Debug, Clone, Copy, PartialEq)]
pub struct Leaf {
    /// Contents tag (solid, empty, water, ...), a small negative
    /// integer enumeration.
    pub contents: i32,
    /// Offset into the visibility data.
    pub vis_offset: i32,
    /// Bounding box of the leaf.
    pub bounds: BBoxShort,
    /// Index of the first mark surface in this leaf.
    pub first_mark_surface_id: u16,
    /// Number of mark surfaces.
    pub mark_surfaces_num: u16,
    /// Ambient sound levels.
    pub ambient_levels: [u8; 4],
}

/// Model: a rigid sub-mesh of the level (64 bytes on disk).
#[derive(Debug, Clone, Copy, PartialEq)]
pub struct Model {
    /// Bounding box of the model (float bits).
    pub bounds: BBoxFloat,
    /// Origin of the model (float bits).
    pub origin: Vec3f,
    /// Reserved node indices, carried through uninterpreted.
    pub nodes: [i32; 4],
    /// Reserved leaf count, carried through uninterpreted.
    pub vis_leafs: i32,
    /// First face index.
    pub first_face_id: u32,
    /// Number of faces in the model.
    pub faces_num: u32,
}

/// The 3 float-bit fields stored at `b[pos .. pos + 12]`.
pub open spec fn vec3f_at(b: Seq<u8>, pos: int) -> Vec3f {
    [le_u32_at(b, pos), le_u32_at(b, pos + 4), le_u32_at(b, pos + 8)]
}

/// The 3 short fields stored at `b[pos .. pos + 6]`.
pub open spec fn vec3s_at(b: Seq<u8>, pos: int) -> Vec3s {
    [le_i16_at(b, pos), le_i16_at(b, pos + 2), le_i16_at(b, pos + 4)]
}

/// The short bounding box stored at `b[pos .. pos + 12]`.
pub open spec fn bboxs_at(b: Seq<u8>, pos: int) -> BBoxShort {
    BBox { min: vec3s_at(b, pos), max: vec3s_at(b, pos + 6) }
}

/// The float-bit bounding box stored at `b[pos .. pos + 24]`.
pub open spec fn bboxf_at(b: Seq<u8>, pos: int) -> BBoxFloat {
    BBox { min: vec3f_at(b, pos), max: vec3f_at(b, pos + 12) }
}

/// One fixed-size on-disk record of a typed BSP lump.
pub trait LumpRecord: Sized {
    /// Size in bytes of one on-disk record.
    spec fn rec_size() -> int;

    /// The record stored at `b[pos .. pos + rec_size]`.
    spec fn decode_at(b: Seq<u8>, pos: int) -> Self;

    /// Record sizes are positive.
    proof fn rec_size_pos()
        ensures
            Self::rec_size() > 0,
    ;

    /// The record size, as a run-time value.
    fn rec_size_exec() -> (n: usize)
        ensures
            n == Self::rec_size(),
    ;

    /// Read one record at the cursor, in the exact field order the
    /// format defines.
    fn read(src: &mut Source) -> (r: Result<Self, DecodeError>)
        requires
            old(src).wf(),
        ensures
            final(src).wf(),
            final(src).bytes() == old(src).bytes(),
            r is Ok <==> old(src).at() + Self::rec_size() <= old(src).bytes().len(),
            r matches Ok(v) ==> final(src).at() == old(src).at() + Self::rec_size() && v
                == Self::decode_at(old(src).bytes(), old(src).at()),
            r is Err ==> r == Err::<Self, DecodeError>(DecodeError::UnexpectedEnd),
    ;
}

impl LumpRecord for u8 {
    open spec fn rec_size() -> int {
        1
    }

    open spec fn decode_at(b: Seq<u8>, pos: int) -> u8 {
        b[pos]
    }

    proof fn rec_size_pos() {
    }

    fn rec_size_exec() -> usize {
        1
    }

    fn read(src: &mut Source) -> Result<u8, DecodeError> {
        src.read_u8()
    }
}

impl LumpRecord for u16 {
    open spec fn rec_size() -> int {
        2
    }

    open spec fn decode_at(b: Seq<u8>, pos: int) -> u16 {
        le_u16_at(b, pos)
    }

    proof fn rec_size_pos() {
    }

    fn rec_size_exec() -> usize {
        2
    }

    fn read(src: &mut Source) -> Result<u16, DecodeError> {
        src.read_u16()
    }
}

impl LumpRecord for i32 {
    open spec fn rec_size() -> int {
        4
    }

    open spec fn decode_at(b: Seq<u8>, pos: int) -> i32 {
        le_i32_at(b, pos)
    }

    proof fn rec_size_pos() {
    }

    fn rec_size_exec() -> usize {
        4
    }

    fn read(src: &mut Source) -> Result<i32, DecodeError> {
        src.read_i32()
    }
}

impl LumpRecord for [u32; 3] {
    open spec fn rec_size() -> int {
        12
    }

    open spec fn decode_at(b: Seq<u8>, pos: int) -> Vec3f {
        vec3f_at(b, pos)
    }

    proof fn rec_size_pos() {
    }

    fn rec_size_exec() -> usize {
        12
    }

    fn read(src: &mut Source) -> Result<Vec3f, DecodeError> {
        vec3f(src)
    }
}

impl LumpRecord for (u16, u16) {
    open spec fn rec_size() -> int {
        4
    }

    open spec fn decode_at(b: Seq<u8>, pos: int) -> Edge {
        (le_u16_at(b, pos), le_u16_at(b, pos + 2))
    }

    proof fn rec_size_pos() {
    }

    fn rec_size_exec() -> usize {
        4
    }

    fn read(src: &mut Source) -> Result<Edge, DecodeError> {
        edge(src)
    }
}

/// Read a 3-vector of float bits.
pub fn vec3f(src: &mut Source) -> (r: Result<Vec3f, DecodeError>)
    requires
        old(src).wf(),
    ensures
        final(src).wf(),
        final(src).bytes() == old(src).bytes(),
        r is Ok <==> old(src).at() + 12 <= old(src).bytes().len(),
        r matches Ok(v) ==> final(src).at() == old(src).at() + 12 && v == vec3f_at(
            old(src).bytes(),
            old(src).at(),
        ),
        r is Err ==> r == Err::<Vec3f, DecodeError>(DecodeError::UnexpectedEnd),
{
    let x = src.read_u32()?;
    let y = src.read_u32()?;
    let z = src.read_u32()?;
    Ok([x, y, z])
}

/// Read a 3-vector of 16-bit integers.
pub fn vec3s(src: &mut Source) -> (r: Result<Vec3s, DecodeError>)
    requires
        old(src).wf(),
    ensures
        final(src).wf(),
        final(src).bytes() == old(src).bytes(),
        r is Ok <==> old(src).at() + 6 <= old(src).bytes().len(),
        r matches Ok(v) ==> final(src).at() == old(src).at() + 6 && v == vec3s_at(
            old(src).bytes(),
            old(src).at(),
        ),
        r is Err ==> r == Err::<Vec3s, DecodeError>(DecodeError::UnexpectedEnd),
{
    let x = src.read_i16()?;
    let y = src.read_i16()?;
    let z = src.read_i16()?;
    Ok([x, y, z])
}

/// Read an edge: two vertex indices.
pub fn edge(src: &mut Source) -> (r: Result<Edge, DecodeError>)
    requires
        old(src).wf(),
    ensures
        final(src).wf(),
        final(src).bytes() == old(src).bytes(),
        r is Ok <==> old(src).at() + 4 <= old(src).bytes().len(),
        r matches Ok(v) ==> final(src).at() == old(src).at() + 4 && v == (
        le_u16_at(old(src).bytes(), old(src).at()),
        le_u16_at(old(src).bytes(), old(src).at() + 2),
        ),
        r is Err ==> r == Err::<Edge, DecodeError>(DecodeError::UnexpectedEnd),
{
    let a = src.read_u16()?;
    let b = src.read_u16()?;
    Ok((a, b))
}

/// Read a short bounding box.
pub fn bboxs(src: &mut Source) -> (r: Result<BBoxShort, DecodeError>)
    requires
        old(src).wf(),
    ensures
        final(src).wf(),
        final(src).bytes() == old(src).bytes(),
        r is Ok <==> old(src).at() + 12 <= old(src).bytes().len(),
        r matches Ok(v) ==> final(src).at() == old(src).at() + 12 && v == bboxs_at(
            old(src).bytes(),
            old(src).at(),
        ),
        r is Err ==> r == Err::<BBoxShort, DecodeError>(DecodeError::UnexpectedEnd),
{
    let min = vec3s(src)?;
    let max = vec3s(src)?;
    Ok(BBox { min, max })
}

/// Read a float-bit bounding box.
pub fn bboxf(src: &mut Source) -> (r: Result<BBoxFloat, DecodeError>)
    requires
        old(src).wf(),
    ensures
        final(src).wf(),
        final(src).bytes() == old(src).bytes(),
        r is Ok <==> old(src).at() + 24 <= old(src).bytes().len(),
        r matches Ok(v) ==> final(src).at() == old(src).at() + 24 && v == bboxf_at(
            old(src).bytes(),
            old(src).at(),
        ),
        r is Err ==> r == Err::<BBoxFloat, DecodeError>(DecodeError::UnexpectedEnd),
{
    let min = vec3f(src)?;
    let max = vec3f(src)?;
    Ok(BBox { min, max })
}

impl LumpRecord for Plane {
    open spec fn rec_size() -> int {
        20
    }

    open spec fn decode_at(b: Seq<u8>, pos: int) -> Plane {
        Plane {
            normal: vec3f_at(b, pos),
            distance: le_u32_at(b, pos + 12),
            ty: le_u32_at(b, pos + 16),
        }
    }

    proof fn rec_size_pos() {
    }

    fn rec_size_exec() -> usize {
        20
    }

    fn read(src: &mut Source) -> Result<Plane, DecodeError> {
        let normal = vec3f(src)?;
        let distance = src.read_u32()?;
        let ty = src.read_u32()?;
        Ok(Plane { normal, distance, ty })
    }
}

impl LumpRecord for ClipNode {
    open spec fn rec_size() -> int {
        8
    }

    open spec fn decode_at(b: Seq<u8>, pos: int) -> ClipNode {
        ClipNode {
            plane_id: le_u32_at(b, pos),
            children: [le_i16_at(b, pos + 4), le_i16_at(b, pos + 6)],
        }
    }

    proof fn rec_size_pos() {
    }

    fn rec_size_exec() -> usize {
        8
    }

    fn read(src: &mut Source) -> Result<ClipNode, DecodeError> {
        let plane_id = src.read_u32()?;
        let c0 = src.read_i16()?;
        let c1 = src.read_i16()?;
        Ok(ClipNode { plane_id, children: [c0, c1] })
    }
}

impl LumpRecord for Face {
    open spec fn rec_size() -> int {
        20
    }

    open spec fn decode_at(b: Seq<u8>, pos: int) -> Face {
        Face {
            plane_id: le_u16_at(b, pos),
            plane_side: le_u16_at(b, pos + 2),
            first_surfedge_id: le_u32_at(b, pos + 4),
            surfedges_num: le_u16_at(b, pos + 8),
            texture_info_id: le_u16_at(b, pos + 10),
            lighting_styles: [b[pos + 12], b[pos + 13], b[pos + 14], b[pos + 15]],
            lightmap_offset: le_u32_at(b, pos + 16),
        }
    }

    proof fn rec_size_pos() {
    }

    fn rec_size_exec() -> usize {
        20
    }

    fn read(src: &mut Source) -> Result<Face, DecodeError> {
        let plane_id = src.read_u16()?;
        let plane_side = src.read_u16()?;
        let first_surfedge_id = src.read_u32()?;
        let surfedges_num = src.read_u16()?;
        let texture_info_id = src.read_u16()?;
        let l0 = src.read_u8()?;
        let l1 = src.read_u8()?;
        let l2 = src.read_u8()?;
        let l3 = src.read_u8()?;
        let lightmap_offset = src.read_u32()?;
        Ok(
            Face {
                plane_id,
                plane_side,
                first_surfedge_id,
                surfedges_num,
                texture_info_id,
                lighting_styles: [l0, l1, l2, l3],
                lightmap_offset,
            },
        )
    }
}

impl LumpRecord for Leaf {
    open spec fn rec_size() -> int {
        28
    }

    open spec fn decode_at(b: Seq<u8>, pos: int) -> Leaf {
        Leaf {
            contents: le_i32_at(b, pos),
            vis_offset: le_i32_at(b, pos + 4),
            bounds: bboxs_at(b, pos + 8),
            first_mark_surface_id: le_u16_at(b, pos + 20),
            mark_surfaces_num: le_u16_at(b, pos + 22),
            ambient_levels: [b[pos + 24], b[pos + 25], b[pos + 26], b[pos + 27]],
        }
    }

    proof fn rec_size_pos() {
    }

    fn rec_size_exec() -> usize {
        28
    }

    fn read(src: &mut Source) -> Result<Leaf, DecodeError> {
        let contents = src.read_i32()?;
        let vis_offset = src.read_i32()?;
        let bounds = bboxs(src)?;
        let first_mark_surface_id = src.read_u16()?;
        let mark_surfaces_num = src.read_u16()?;
        let a0 = src.read_u8()?;
        let a1 = src.read_u8()?;
        let a2 = src.read_u8()?;
        let a3 = src.read_u8()?;
        Ok(
            Leaf {
                contents,
                vis_offset,
                bounds,
                first_mark_surface_id,
                mark_surfaces_num,
                ambient_levels: [a0, a1, a2, a3],
            },
        )
    }
}

impl LumpRecord for Model {
    open spec fn rec_size() -> int {
        64
    }

    open spec fn decode_at(b: Seq<u8>, pos: int) -> Model {
        Model {
            bounds: bboxf_at(b, pos),
            origin: vec3f_at(b, pos + 24),
            nodes: [
                le_i32_at(b, pos + 36),
                le_i32_at(b, pos + 40),
                le_i32_at(b, pos + 44),
                le_i32_at(b, pos + 48),
            ],
            vis_leafs: le_i32_at(b, pos + 52),
            first_face_id: le_u32_at(b, pos + 56),
            faces_num: le_u32_at(b, pos + 60),
        }
    }

    proof fn rec_size_pos() {
    }

    fn rec_size_exec() -> usize {
        64
    }

    fn read(src: &mut Source) -> Result<Model, DecodeError> {
        let bounds = bboxf(src)?;
        let origin = vec3f(src)?;
        let n0 = src.read_i32()?;
        let n1 = src.read_i32()?;
        let n2 = src.read_i32()?;
        let n3 = src.read_i32()?;
        let vis_leafs = src.read_i32()?;
        let first_face_id = src.read_u32()?;
        let faces_num = src.read_u32()?;
        Ok(
            Model {
                bounds,
                origin,
                nodes: [n0, n1, n2, n3],
                vis_leafs,
                first_face_id,
                faces_num,
            },
        )
    }
}

impl LumpRecord for Node {
    open spec fn rec_size() -> int {
        24
    }

    open spec fn decode_at(b: Seq<u8>, pos: int) -> Node {
        Node {
            plane_id: le_u32_at(b, pos),
            children: [le_i16_at(b, pos + 4), le_i16_at(b, pos + 6)],
            bounds: bboxs_at(b, pos + 8),
            first_face_id: le_u16_at(b, pos + 20),
            faces_num: le_u16_at(b, pos + 22),
        }
    }

    proof fn rec_size_pos() {
    }

    fn rec_size_exec() -> usize {
        24
    }

    fn read(src: &mut Source) -> Result<Node, DecodeError> {
        let plane_id = src.read_u32()?;
        let c0 = src.read_i16()?;
        let c1 = src.read_i16()?;
        let bounds = bboxs(src)?;
        let first_face_id = src.read_u16()?;
        let faces_num = src.read_u16()?;
        Ok(Node { plane_id, children: [c0, c1], bounds, first_face_id, faces_num })
    }
}

impl LumpRecord for TextureInfo {
    open spec fn rec_size() -> int {
        40
    }

    open spec fn decode_at(b: Seq<u8>, pos: int) -> TextureInfo {
        TextureInfo {
            s: vec3f_at(b, pos),
            s_shift: le_u32_at(b, pos + 12),
            t: vec3f_at(b, pos + 16),
            t_shift: le_u32_at(b, pos + 28),
            texture_id: le_u32_at(b, pos + 32),
            flags: le_u32_at(b, pos + 36),
        }
    }

    proof fn rec_size_pos() {
    }

    fn rec_size_exec() -> usize {
        40
    }

    fn read(src: &mut Source) -> Result<TextureInfo, DecodeError> {
        let s = vec3f(src)?;
        let s_shift = src.read_u32()?;
        let t = vec3f(src)?;
        let t_shift = src.read_u32()?;
        let texture_id = src.read_u32()?;
        let flags = src.read_u32()?;
        Ok(TextureInfo { s, s_shift, t, t_shift, texture_id, flags })
    }
}

/// The records of a typed lump at `b[off .. off + size]`:
/// `size / rec_size` of them, in order.
pub open spec fn lump_records_spec<T: LumpRecord>(b: Seq<u8>, off: int, size: int) -> Seq<T> {
    Seq::new((size / T::rec_size()) as nat, |i: int| T::decode_at(b, off + i * T::rec_size()))
}

/// A typed lump decodes successfully exactly when its size is a
/// multiple of the record size and its range lies inside the buffer.
pub open spec fn lump_ok<T: LumpRecord>(b: Seq<u8>, off: int, size: int) -> bool {
    size % T::rec_size() == 0 && off + size <= b.len()
}

/// The error a failing typed lump reports: a size that is no multiple
/// of the record size is malformed, anything else is truncation.
pub open spec fn lump_err<T: LumpRecord>(b: Seq<u8>, off: int, size: int) -> DecodeError {
    if size % T::rec_size() != 0 {
        DecodeError::BadLumpSize
    } else {
        DecodeError::UnexpectedEnd
    }
}

/// Decode one typed lump: seek to its offset and read
/// `size / rec_size` records in sequence. A lump whose size is not a
/// multiple of its record size is malformed and fails rather than
/// silently truncating.
pub fn lump_content<T: LumpRecord>(data: &[u8], offset: u32, size: u32) -> (r: Result<
    Vec<T>,
    DecodeError,
>)
    ensures
        r is Ok <==> lump_ok::<T>(data@, offset as int, size as int),
        r matches Ok(v) ==> v@ == lump_records_spec::<T>(data@, offset as int, size as int),
        r is Err ==> r == Err::<Vec<T>, DecodeError>(
            lump_err::<T>(data@, offset as int, size as int),
        ),
{
    let ghost b = data@;
    let rec = T::rec_size_exec();
    proof {
        T::rec_size_pos();
    }
    if (size as usize) % rec != 0 {
        return Err(DecodeError::BadLumpSize);
    }
    if (offset as u64) + (size as u64) > data.len() as u64 {
        return Err(DecodeError::UnexpectedEnd);
    }
    let mut src = Source::new(data);
    match src.seek(offset as usize) {
        Ok(_) => {},
        Err(_) => {
            return Err(DecodeError::UnexpectedEnd);
        },
    }
    let n = (size as usize) / rec;
    proof {
        vstd::arithmetic::div_mod::lemma_fundamental_div_mod(size as int, rec as int);
    }
    let mut out: Vec<T> = Vec::new();
    let mut i: usize = 0;
    while i < n
        invariant
            b == data@,
            src.wf(),
            src.bytes() == b,
            rec == T::rec_size(),
            rec > 0,
            n == (size as int) / (rec as int),
            size as int == (rec as int) * (n as int),
            offset + size <= b.len(),
            0 <= i <= n,
            src.at() == offset + i * (rec as int),
            out@.len() == i,
            out@ == lump_records_spec::<T>(b, offset as int, size as int).take(i as int),
        decreases n - i,
    {
        proof {
            vstd::arithmetic::mul::lemma_mul_inequality(i + 1 as int, n as int, rec as int);
            assert((i + 1) * (rec as int) == i * (rec as int) + rec) by (nonlinear_arith);
            vstd::arithmetic::mul::lemma_mul_is_commutative(n as int, rec as int);
        }
        let item = match T::read(&mut src) {
            Ok(v) => v,
            Err(_) => {
                proof {
                    // unreachable: the whole lump lies inside the buffer
                    assert(false);
                }
                return Err(DecodeError::UnexpectedEnd);
            },
        };
        out.push(item);
        i = i + 1;
        proof {
            assert(out@ =~= lump_records_spec::<T>(b, offset as int, size as int).take(i as int));
        }
    }
    proof {
        assert(out@ =~= lump_records_spec::<T>(b, offset as int, size as int));
    }
    Ok(out)
}

/// Number of mip-texture records the textures lump at `off` declares.
pub open spec fn tex_count(b: Seq<u8>, off: int) -> u32 {
    le_u32_at(b, off)
}

/// Sub-offset of mip-texture record `i`, relative to the lump's start.
pub open spec fn tex_sub_off(b: Seq<u8>, off: int, i: int) -> u32 {
    le_u32_at(b, off + 4 + 4 * i)
}

/// The bytes of mip-texture record `i`: from its sub-offset to the
/// end of the lump.
pub open spec fn tex_record(b: Seq<u8>, off: int, size: int, i: int) -> Seq<u8> {
    b.subrange(off + tex_sub_off(b, off, i), off + size)
}

/// How many mip-texture records the lump holds: none at all when it
/// is empty, else as many as its count field declares.
pub open spec fn tex_n(b: Seq<u8>, off: int, size: int) -> int {
    if size == 0 {
        0
    } else {
        tex_count(b, off) as int
    }
}

/// The textures lump decodes successfully exactly when the lump lies
/// inside the buffer and either is empty, or its count and sub-offset
/// table fit inside it and every mip-texture record starts inside the
/// lump and decodes.
pub open spec fn tex_lump_ok(b: Seq<u8>, off: int, size: int) -> bool {
    &&& off + size <= b.len()
    &&& (size > 0 ==> {
        &&& size >= 4
        &&& 4 + 4 * tex_count(b, off) <= size
        &&& (forall|i: int|
            0 <= i < tex_count(b, off) ==> #[trigger] tex_sub_off(b, off, i) <= size && miptex_ok(
                tex_record(b, off, size, i),
            ))
    })
}

/// The error the first failing mip-texture record at or after index
/// `i` reports.
pub open spec fn tex_err_from(b: Seq<u8>, off: int, size: int, i: int) -> DecodeError
    decreases tex_count(b, off) - i,
{
    if i < 0 || i >= tex_count(b, off) {
        DecodeError::UnexpectedEnd
    } else if tex_sub_off(b, off, i) > size {
        DecodeError::UnexpectedEnd
    } else if !miptex_ok(tex_record(b, off, size, i)) {
        miptex_err(tex_record(b, off, size, i))
    } else {
        tex_err_from(b, off, size, i + 1)
    }
}

/// The error a failing textures lump reports: truncation for a lump,
/// count table or sub-offset that sticks out, else the first failing
/// record's own error.
pub open spec fn tex_lump_err(b: Seq<u8>, off: int, size: int) -> DecodeError {
    if off + size > b.len() || size < 4 || 4 + 4 * tex_count(b, off) > size {
        DecodeError::UnexpectedEnd
    } else {
        tex_err_from(b, off, size, 0)
    }
}

/// `ts` are the decoded mip textures of the lump, in table order.
pub open spec fn textures_decoded(b: Seq<u8>, off: int, size: int, ts: Seq<MipTexture>) -> bool {
    &&& ts.len() == tex_n(b, off, size)
    &&& (forall|i: int|
        0 <= i < ts.len() ==> miptex_decoded(tex_record(b, off, size, i), #[trigger] ts[i]))
}

/// When records before `i` decode and record `i` does not, record
/// `i`'s error is the one the lump reports.
proof fn lemma_tex_err_at(b: Seq<u8>, off: int, size: int, k: int, i: int)
    requires
        0 <= k <= i < tex_count(b, off),
        forall|j: int|
            k <= j < i ==> #[trigger] tex_sub_off(b, off, j) <= size && miptex_ok(
                tex_record(b, off, size, j),
            ),
        tex_sub_off(b, off, i) > size || !miptex_ok(tex_record(b, off, size, i)),
    ensures
        tex_err_from(b, off, size, k) == (if tex_sub_off(b, off, i) > size {
            DecodeError::UnexpectedEnd
        } else {
            miptex_err(tex_record(b, off, size, i))
        }),
    decreases i - k,
{
    if k < i {
        lemma_tex_err_at(b, off, size, k + 1, i);
    }
}

/// Decode the textures lump: a 32-bit record count, that many 32-bit
/// sub-offsets relative to the lump's start, and one embedded
/// mip-texture record at each sub-offset, reaching to the end of the
/// lump.
pub fn textures(data: &[u8], offset: u32, size: u32) -> (r: Result<Vec<MipTexture>, DecodeError>)
    ensures
        r is Ok <==> tex_lump_ok(data@, offset as int, size as int),
        r matches Ok(v) ==> textures_decoded(data@, offset as int, size as int, v@),
        r is Err ==> r == Err::<Vec<MipTexture>, DecodeError>(
            tex_lump_err(data@, offset as int, size as int),
        ),
{
    let ghost b = data@;
    if (offset as u64) + (size as u64) > data.len() as u64 {
        return Err(DecodeError::UnexpectedEnd);
    }
    if size == 0 {
        return Ok(Vec::new());
    }
    if size < 4 {
        return Err(DecodeError::UnexpectedEnd);
    }
    let mut src = Source::new(data);
    match src.seek(offset as usize) {
        Ok(_) => {},
        Err(_) => {
            return Err(DecodeError::UnexpectedEnd);
        },
    }
    let num = match src.read_u32() {
        Ok(v) => v,
        Err(_) => {
            return Err(DecodeError::UnexpectedEnd);
        },
    };
    if 4 + 4 * (num as u64) > size as u64 {
        return Err(DecodeError::UnexpectedEnd);
    }
    let n = num as usize;
    let mut offs: Vec<u32> = Vec::new();
    let mut i: usize = 0;
    while i < n
        invariant
            b == data@,
            src.wf(),
            src.bytes() == b,
            n == tex_count(b, offset as int),
            offset + size <= b.len(),
            4 + 4 * n <= size,
            0 <= i <= n,
            src.at() == offset + 4 + 4 * i,
            offs@.len() == i,
            forall|j: int| 0 <= j < i ==> offs@[j] == tex_sub_off(b, offset as int, j),
        decreases n - i,
    {
        let o = match src.read_u32() {
            Ok(v) => v,
            Err(_) => {
                proof {
                    // unreachable: the whole sub-offset table lies inside the lump
                    assert(false);
                }
                return Err(DecodeError::UnexpectedEnd);
            },
        };
        offs.push(o);
        i = i + 1;
    }
    let mut miptexs: Vec<MipTexture> = Vec::new();
    let mut k: usize = 0;
    while k < n
        invariant
            b == data@,
            n == tex_count(b, offset as int),
            offset + size <= b.len(),
            b.len() <= usize::MAX,
            4 + 4 * n <= size,
            0 <= k <= n,
            offs@.len() == n,
            forall|j: int| 0 <= j < n ==> offs@[j] == tex_sub_off(b, offset as int, j),
            miptexs@.len() == k,
            forall|j: int|
                0 <= j < k ==> #[trigger] tex_sub_off(b, offset as int, j) <= size && miptex_ok(
                    tex_record(b, offset as int, size as int, j),
                ) && miptex_decoded(tex_record(b, offset as int, size as int, j), miptexs@[j]),
        decreases n - k,
    {
        let sub = offs[k];
        if sub > size {
            proof {
                lemma_tex_err_at(b, offset as int, size as int, 0, k as int);
            }
            return Err(DecodeError::UnexpectedEnd);
        }
        let lo: usize = offset as usize + sub as usize;
        let hi: usize = offset as usize + size as usize;
        let rec = vstd::slice::slice_subrange(data, lo, hi);
        let m = match miptex(rec) {
            Ok(m) => m,
            Err(e) => {
                proof {
                    lemma_tex_err_at(b, offset as int, size as int, 0, k as int);
                }
                return Err(e);
            },
        };
        miptexs.push(m);
        k = k + 1;
    }
    Ok(miptexs)
}

/// Offset field of lump descriptor `i`.
pub open spec fn lump_off(b: Seq<u8>, i: int) -> u32 {
    le_u32_at(b, 4 + 8 * i)
}

/// Size field of lump descriptor `i`.
pub open spec fn lump_size(b: Seq<u8>, i: int) -> u32 {
    le_u32_at(b, 8 + 8 * i)
}

/// The bytes of the entities lump.
pub open spec fn ent_lump(b: Seq<u8>) -> Seq<u8> {
    b.subrange(lump_off(b, 0) as int, lump_off(b, 0) + lump_size(b, 0))
}

/// Complete level data decoded from a BSP buffer.
#[derive(Debug, Clone, PartialEq)]
pub struct Level {
    /// The entities of the level, from the entity text parser.
    pub entities: Entities,
    /// Planes used for spatial partitioning.
    pub planes: Vec<Plane>,
    /// Mip textures embedded in the level.
    pub textures: Vec<MipTexture>,
    /// Vertex positions (float bits).
    pub vertices: Vec<Vec3f>,
    /// Raw visibility data, kept uninterpreted.
    pub visdata: Vec<u8>,
    /// Nodes of the BSP tree.
    pub nodes: Vec<Node>,
    /// Texture mapping info for faces.
    pub texture_infos: Vec<TextureInfo>,
    /// Faces of the level geometry.
    pub faces: Vec<Face>,
    /// Raw lighting data, kept uninterpreted.
    pub lighting: Vec<u8>,
    /// Collision nodes.
    pub clip_nodes: Vec<ClipNode>,
    /// Leaves of the BSP tree.
    pub leaves: Vec<Leaf>,
    /// Surface indices for the leaves.
    pub mark_surfaces: Vec<u16>,
    /// Edges of the mesh.
    pub edges: Vec<Edge>,
    /// Indices into the edges array, one run per face.
    pub surfedges: Vec<i32>,
    /// Models: the world and brush-entity sub-meshes.
    pub models: Vec<Model>,
}

/// The version every supported level buffer declares.
pub const BSP_VERSION: u32 = 30;

/// A level decodes successfully exactly when it declares version 30,
/// holds the full 15-descriptor lump table, and every lump decodes:
/// the entities, lighting and visibility lumps lie inside the buffer,
/// every typed lump's size divides into whole records inside the
/// buffer, and the textures lump's records all decode.
pub open spec fn level_ok(b: Seq<u8>) -> bool {
    &&& b.len() >= 124
    &&& le_u32_at(b, 0) == BSP_VERSION
    &&& lump_off(b, 0) + lump_size(b, 0) <= b.len()
    &&& lump_ok::<Plane>(b, lump_off(b, 1) as int, lump_size(b, 1) as int)
    &&& tex_lump_ok(b, lump_off(b, 2) as int, lump_size(b, 2) as int)
    &&& lump_ok::<Vec3f>(b, lump_off(b, 3) as int, lump_size(b, 3) as int)
    &&& lump_ok::<u8>(b, lump_off(b, 4) as int, lump_size(b, 4) as int)
    &&& lump_ok::<Node>(b, lump_off(b, 5) as int, lump_size(b, 5) as int)
    &&& lump_ok::<TextureInfo>(b, lump_off(b, 6) as int, lump_size(b, 6) as int)
    &&& lump_ok::<Face>(b, lump_off(b, 7) as int, lump_size(b, 7) as int)
    &&& lump_ok::<u8>(b, lump_off(b, 8) as int, lump_size(b, 8) as int)
    &&& lump_ok::<ClipNode>(b, lump_off(b, 9) as int, lump_size(b, 9) as int)
    &&& lump_ok::<Leaf>(b, lump_off(b, 10) as int, lump_size(b, 10) as int)
    &&& lump_ok::<u16>(b, lump_off(b, 11) as int, lump_size(b, 11) as int)
    &&& lump_ok::<Edge>(b, lump_off(b, 12) as int, lump_size(b, 12) as int)
    &&& lump_ok::<i32>(b, lump_off(b, 13) as int, lump_size(b, 13) as int)
    &&& lump_ok::<Model>(b, lump_off(b, 14) as int, lump_size(b, 14) as int)
}

/// The error a failing level decode reports: the version check comes
/// first, then the lump table, then the lumps in their processing
/// order.
pub open spec fn level_err(b: Seq<u8>) -> DecodeError {
    if b.len() < 4 {
        DecodeError::UnexpectedEnd
    } else if le_u32_at(b, 0) != BSP_VERSION {
        DecodeError::UnsupportedVersion
    } else if b.len() < 124 {
        DecodeError::UnexpectedEnd
    } else if lump_off(b, 0) + lump_size(b, 0) > b.len() {
        DecodeError::UnexpectedEnd
    } else if !lump_ok::<Plane>(b, lump_off(b, 1) as int, lump_size(b, 1) as int) {
        lump_err::<Plane>(b, lump_off(b, 1) as int, lump_size(b, 1) as int)
    } else if !tex_lump_ok(b, lump_off(b, 2) as int, lump_size(b, 2) as int) {
        tex_lump_err(b, lump_off(b, 2) as int, lump_size(b, 2) as int)
    } else if !lump_ok::<Vec3f>(b, lump_off(b, 3) as int, lump_size(b, 3) as int) {
        lump_err::<Vec3f>(b, lump_off(b, 3) as int, lump_size(b, 3) as int)
    } else if !lump_ok::<u8>(b, lump_off(b, 4) as int, lump_size(b, 4) as int) {
        lump_err::<u8>(b, lump_off(b, 4) as int, lump_size(b, 4) as int)
    } else if !lump_ok::<Node>(b, lump_off(b, 5) as int, lump_size(b, 5) as int) {
        lump_err::<Node>(b, lump_off(b, 5) as int, lump_size(b, 5) as int)
    } else if !lump_ok::<TextureInfo>(b, lump_off(b, 6) as int, lump_size(b, 6) as int) {
        lump_err::<TextureInfo>(b, lump_off(b, 6) as int, lump_size(b, 6) as int)
    } else if !lump_ok::<Face>(b, lump_off(b, 7) as int, lump_size(b, 7) as int) {
        lump_err::<Face>(b, lump_off(b, 7) as int, lump_size(b, 7) as int)
    } else if !lump_ok::<u8>(b, lump_off(b, 8) as int, lump_size(b, 8) as int) {
        lump_err::<u8>(b, lump_off(b, 8) as int, lump_size(b, 8) as int)
    } else if !lump_ok::<ClipNode>(b, lump_off(b, 9) as int, lump_size(b, 9) as int) {
        lump_err::<ClipNode>(b, lump_off(b, 9) as int, lump_size(b, 9) as int)
    } else if !lump_ok::<Leaf>(b, lump_off(b, 10) as int, lump_size(b, 10) as int) {
        lump_err::<Leaf>(b, lump_off(b, 10) as int, lump_size(b, 10) as int)
    } else if !lump_ok::<u16>(b, lump_off(b, 11) as int, lump_size(b, 11) as int) {
        lump_err::<u16>(b, lump_off(b, 11) as int, lump_size(b, 11) as int)
    } else if !lump_ok::<Edge>(b, lump_off(b, 12) as int, lump_size(b, 12) as int) {
        lump_err::<Edge>(b, lump_off(b, 12) as int, lump_size(b, 12) as int)
    } else if !lump_ok::<i32>(b, lump_off(b, 13) as int, lump_size(b, 13) as int) {
        lump_err::<i32>(b, lump_off(b, 13) as int, lump_size(b, 13) as int)
    } else {
        lump_err::<Model>(b, lump_off(b, 14) as int, lump_size(b, 14) as int)
    }
}

/// `lv` is the level decoded from `b`: every collection equals its
/// lump's decoded records.
pub open spec fn level_decoded(b: Seq<u8>, lv: Level) -> bool {
    &&& entities_lists(lv.entities@) == spec_entities(ent_lump(b))
    &&& lv.planes@ == lump_records_spec::<Plane>(b, lump_off(b, 1) as int, lump_size(b, 1) as int)
    &&& textures_decoded(b, lump_off(b, 2) as int, lump_size(b, 2) as int, lv.textures@)
    &&& lv.vertices@ == lump_records_spec::<Vec3f>(
        b,
        lump_off(b, 3) as int,
        lump_size(b, 3) as int,
    )
    &&& lv.visdata@ == lump_records_spec::<u8>(b, lump_off(b, 4) as int, lump_size(b, 4) as int)
    &&& lv.nodes@ == lump_records_spec::<Node>(b, lump_off(b, 5) as int, lump_size(b, 5) as int)
    &&& lv.texture_infos@ == lump_records_spec::<TextureInfo>(
        b,
        lump_off(b, 6) as int,
        lump_size(b, 6) as int,
    )
    &&& lv.faces@ == lump_records_spec::<Face>(b, lump_off(b, 7) as int, lump_size(b, 7) as int)
    &&& lv.lighting@ == lump_records_spec::<u8>(b, lump_off(b, 8) as int, lump_size(b, 8) as int)
    &&& lv.clip_nodes@ == lump_records_spec::<ClipNode>(
        b,
        lump_off(b, 9) as int,
        lump_size(b, 9) as int,
    )
    &&& lv.leaves@ == lump_records_spec::<Leaf>(b, lump_off(b, 10) as int, lump_size(b, 10) as int)
    &&& lv.mark_surfaces@ == lump_records_spec::<u16>(
        b,
        lump_off(b, 11) as int,
        lump_size(b, 11) as int,
    )
    &&& lv.edges@ == lump_records_spec::<Edge>(b, lump_off(b, 12) as int, lump_size(b, 12) as int)
    &&& lv.surfedges@ == lump_records_spec::<i32>(
        b,
        lump_off(b, 13) as int,
        lump_size(b, 13) as int,
    )
    &&& lv.models@ == lump_records_spec::<Model>(
        b,
        lump_off(b, 14) as int,
        lump_size(b, 14) as int,
    )
}

/// A buffer whose version field is not 30 is rejected as unsupported
/// before anything past the version field is looked at: the outcome
/// is fixed by the first four bytes alone.
pub proof fn lemma_bad_version_rejected(b: Seq<u8>)
    requires
        b.len() >= 4,
        le_u32_at(b, 0) != 30,
    ensures
        !level_ok(b),
        level_err(b) == DecodeError::UnsupportedVersion,
{
}

/// Decode a whole BSP level buffer: check the version, read the 15
/// lump descriptors, and decode every lump in the fixed order the
/// format defines.
pub fn level(data: &[u8]) -> (r: Result<Level, DecodeError>)
    ensures
        r is Ok <==> level_ok(data@),
        r matches Ok(lv) ==> level_decoded(data@, lv),
        r is Err ==> r == Err::<Level, DecodeError>(level_err(data@)),
{
    let ghost b = data@;
    let mut src = Source::new(data);
    let version = match src.read_u32() {
        Ok(v) => v,
        Err(e) => {
            return Err(e);
        },
    };
    if version != BSP_VERSION {
        return Err(DecodeError::UnsupportedVersion);
    }
    let mut lumps: Vec<(u32, u32)> = Vec::new();
    let mut i: usize = 0;
    while i < 15
        invariant
            b == data@,
            src.wf(),
            src.bytes() == b,
            b.len() >= 4,
            le_u32_at(b, 0) == BSP_VERSION,
            0 <= i <= 15,
            src.at() == 4 + 8 * i,
            lumps@.len() == i,
            forall|j: int|
                0 <= j < i ==> #[trigger] lumps@[j] == (lump_off(b, j), lump_size(b, j)),
        decreases 15 - i,
    {
        let off = match src.read_u32() {
            Ok(v) => v,
            Err(_) => {
                return Err(DecodeError::UnexpectedEnd);
            },
        };
        let sz = match src.read_u32() {
            Ok(v) => v,
            Err(_) => {
                return Err(DecodeError::UnexpectedEnd);
            },
        };
        lumps.push((off, sz));
        i = i + 1;
    }
    // entities lump: an opaque byte range handed to the text parser
    let (e_off, e_size) = lumps[0];
    if (e_off as u64) + (e_size as u64) > data.len() as u64 {
        return Err(DecodeError::UnexpectedEnd);
    }
    let e_lo: usize = e_off as usize;
    let e_hi: usize = e_lo + e_size as usize;
    let ent_bytes = vstd::slice::slice_subrange(data, e_lo, e_hi);
    let entities = match crate::entities::map(ent_bytes, e_size as usize) {
        Ok(es) => es,
        Err(_) => {
            proof {
                // unreachable: the parser was handed exactly the lump's bytes
                assert(false);
            }
            return Err(DecodeError::UnexpectedEnd);
        },
    };
    proof {
        assert(ent_bytes@.take(e_size as int) =~= ent_lump(b));
    }
    let planes = match lump_content::<Plane>(data, lumps[1].0, lumps[1].1) {
        Ok(v) => v,
        Err(e) => {
            return Err(e);
        },
    };
    let texs = match textures(data, lumps[2].0, lumps[2].1) {
        Ok(v) => v,
        Err(e) => {
            return Err(e);
        },
    };
    let vertices = match lump_content::<Vec3f>(data, lumps[3].0, lumps[3].1) {
        Ok(v) => v,
        Err(e) => {
            return Err(e);
        },
    };
    let visdata = match lump_content::<u8>(data, lumps[4].0, lumps[4].1) {
        Ok(v) => v,
        Err(e) => {
            return Err(e);
        },
    };
    let nodes = match lump_content::<Node>(data, lumps[5].0, lumps[5].1) {
        Ok(v) => v,
        Err(e) => {
            return Err(e);
        },
    };
    let texture_infos = match lump_content::<TextureInfo>(data, lumps[6].0, lumps[6].1) {
        Ok(v) => v,
        Err(e) => {
            return Err(e);
        },
    };
    let faces = match lump_content::<Face>(data, lumps[7].0, lumps[7].1) {
        Ok(v) => v,
        Err(e) => {
            return Err(e);
        },
    };
    let lighting = match lump_content::<u8>(data, lumps[8].0, lumps[8].1) {
        Ok(v) => v,
        Err(e) => {
            return Err(e);
        },
    };
    let clip_nodes = match lump_content::<ClipNode>(data, lumps[9].0, lumps[9].1) {
        Ok(v) => v,
        Err(e) => {
            return Err(e);
        },
    };
    let leaves = match lump_content::<Leaf>(data, lumps[10].0, lumps[10].1) {
        Ok(v) => v,
        Err(e) => {
            return Err(e);
        },
    };
    let mark_surfaces = match lump_content::<u16>(data, lumps[11].0, lumps[11].1) {
        Ok(v) => v,
        Err(e) => {
            return Err(e);
        },
    };
    let edges = match lump_content::<Edge>(data, lumps[12].0, lumps[12].1) {
        Ok(v) => v,
        Err(e) => {
            return Err(e);
        },
    };
    let surfedges = match lump_content::<i32>(data, lumps[13].0, lumps[13].1) {
        Ok(v) => v,
        Err(e) => {
            return Err(e);
        },
    };
    let models = match lump_content::<Model>(data, lumps[14].0, lumps[14].1) {
        Ok(v) => v,
        Err(e) => {
            return Err(e);
        },
    };
    Ok(
        Level {
            entities,
            planes,
            textures: texs,
            vertices,
            visdata,
            nodes,
            texture_infos,
            faces,
            lighting,
            clip_nodes,
            leaves,
            mark_surfaces,
            edges,
            surfedges,
            models,
        },
    )
}

} // verus!
