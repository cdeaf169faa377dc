//! MMD `.pmx` (Polygon Model eXtended) model import: header, vertex and face sections.
//!
//! Layout (PMX 2.0/2.1): `"PMX " + f32 version + globals[u8 count + bytes]`, then
//! 4 text fields (model name ×2, comment ×2), then `i32 vertex count` + vertices,
//! then `i32 face count` + faces (one vertex index each). Globals carry the text
//! encoding (0 = UTF-16LE, otherwise UTF-8) and the per-section index byte sizes, in
//! the order `[encoding, additional UVs, vertex, texture, material, bone, morph,
//! rigid body]`.
//! Whatever follows the face block (textures, materials, bones, morphs, physics)
//! is not read.
//!
//! Floating-point fields are kept as their IEEE-754 bit patterns (`f32::to_bits`).

use vstd::prelude::*;

verus! {

/// The bit pattern of `1.0f32`.
pub const ONE_F32_BITS: u32 = 0x3f80_0000;

/// Three `f32` components, each held as its bit pattern.
#[derive(Debug, Clone, Copy, PartialEq, Eq)]
pub struct Vec3Bits {
    pub x: u32,
    pub y: u32,
    pub z: u32,
}

/// Two `f32` components, each held as its bit pattern.
#[derive(Debug, Clone, Copy, PartialEq, Eq)]
pub struct Vec2Bits {
    pub x: u32,
    pub y: u32,
}

/// Skinning scheme of a vertex.
#[derive(Debug, Clone, Copy, PartialEq, Eq)]
pub enum Deform {
    /// One bone, full weight.
    Bdef1,
    /// Two bones; the second weight is one minus the first.
    Bdef2,
    /// Four bones with four weights.
    Bdef4,
    /// Spherical deform: two bones as in `Bdef2`, plus C/R0/R1 (not kept).
    Sdef,
    /// Dual-quaternion deform: four bones with four weights.
    Qdef,
}

/// One PMX vertex with up to 4 bone influences.
///
/// Unused bone slots hold `-1`, unused weight slots hold `0` (the bits of `0.0`).
/// For `Bdef2` and `Sdef` only `weights[0]` is stored; the weight of `bones[1]`
/// is `1.0 - weights[0]`.
#[derive(Debug, Clone, Copy, PartialEq, Eq)]
pub struct PmxVertex {
    pub pos: Vec3Bits,
    pub normal: Vec3Bits,
    pub uv: Vec2Bits,
    pub bones: [i32; 4],
    pub weights: [u32; 4],
    pub deform: Deform,
}

/// A parsed PMX mesh: vertices, a triangle index list and the model name.
#[derive(Debug, Clone, PartialEq)]
pub struct PmxModel {
    pub name: String,
    pub vertices: Vec<PmxVertex>,
    pub indices: Vec<u32>,
}

/// Mathematical value of a [`PmxModel`].
#[verifier::ext_equal]
pub struct PmxModelView {
    pub name: Seq<char>,
    pub vertices: Seq<PmxVertex>,
    pub indices: Seq<u32>,
}

impl View for PmxModel {
    type V = PmxModelView;

    open spec fn view(&self) -> PmxModelView {
        PmxModelView { name: self.name@, vertices: self.vertices@, indices: self.indices@ }
    }
}

/// The header globals the body sections depend on.
#[derive(Debug, Clone, Copy, PartialEq, Eq)]
pub struct PmxGlobals {
    /// Text fields are UTF-16LE (else UTF-8).
    pub utf16: bool,
    /// Number of additional UV vec4s per vertex.
    pub add_uv: u8,
    /// Byte size of a vertex index.
    pub vertex_index_size: u8,
    /// Byte size of a bone index.
    pub bone_index_size: u8,
}

// ---------------------------------------------------------------------------
// The format, as spec functions over the byte sequence.
// ---------------------------------------------------------------------------

/// Little-endian `u16` at `p`.
pub open spec fn u16_at(b: Seq<u8>, p: int) -> u16 {
    (b[p] + 256 * b[p + 1]) as u16
}

/// Little-endian `u32` at `p`.
pub open spec fn u32_at(b: Seq<u8>, p: int) -> u32 {
    (b[p] + 256 * b[p + 1] + 65536 * b[p + 2] + 16777216 * b[p + 3]) as u32
}

/// Two's-complement reading of a byte.
pub open spec fn i8_of(x: u8) -> i32 {
    if x < 128 { x as i32 } else { (x - 256) as i32 }
}

/// Two's-complement reading of a 16-bit value.
pub open spec fn i16_of(x: u16) -> i32 {
    if x < 32768 { x as i32 } else { (x - 65536) as i32 }
}

/// Two's-complement reading of a 32-bit value.
pub open spec fn i32_of(x: u32) -> i32 {
    if x < 0x8000_0000 { x as i32 } else { (x - 0x1_0000_0000) as i32 }
}

/// Byte width of an index of declared size `size` (1, 2, otherwise 4).
pub open spec fn index_width(size: u8) -> int {
    if size == 1 { 1 } else if size == 2 { 2 } else { 4 }
}

/// Signed bone index of declared size `size` at `p` (`-1` = none).
pub open spec fn bone_at(b: Seq<u8>, p: int, size: u8) -> i32 {
    if size == 1 {
        i8_of(b[p])
    } else if size == 2 {
        i16_of(u16_at(b, p))
    } else {
        i32_of(u32_at(b, p))
    }
}

/// Unsigned vertex index of declared size `size` at `p`.
pub open spec fn vertex_ref_at(b: Seq<u8>, p: int, size: u8) -> u32 {
    if size == 1 {
        b[p] as u32
    } else if size == 2 {
        u16_at(b, p) as u32
    } else {
        u32_at(b, p)
    }
}

/// End of the length-prefixed text field at `p` (`i32` byte length, then the bytes).
pub open spec fn text_end(b: Seq<u8>, p: int) -> Option<int> {
    if p + 4 > b.len() {
        None
    } else {
        let n = i32_of(u32_at(b, p));
        if n < 0 || p + 4 + n > b.len() {
            None
        } else {
            Some(p + 4 + n)
        }
    }
}

/// Bytes that follow the deform kind byte, edge scale included; `None` for an unknown kind.
pub open spec fn deform_tail_len(kind: u8, w: int) -> Option<int> {
    if kind == 0 {
        Some(w + 4)
    } else if kind == 1 {
        Some(2 * w + 8)
    } else if kind == 2 || kind == 4 {
        Some(4 * w + 20)
    } else if kind == 3 {
        Some(2 * w + 44)
    } else {
        None
    }
}

/// The vertex whose deform data starts at `r` (just after the kind byte), given its
/// position, normal and UV read at `p`.
pub open spec fn vertex_value(b: Seq<u8>, p: int, kind: u8, r: int, size: u8) -> PmxVertex {
    let w = index_width(size);
    let pos = Vec3Bits { x: u32_at(b, p), y: u32_at(b, p + 4), z: u32_at(b, p + 8) };
    let normal = Vec3Bits { x: u32_at(b, p + 12), y: u32_at(b, p + 16), z: u32_at(b, p + 20) };
    let uv = Vec2Bits { x: u32_at(b, p + 24), y: u32_at(b, p + 28) };
    if kind == 0 {
        PmxVertex {
            pos,
            normal,
            uv,
            bones: [bone_at(b, r, size), -1i32, -1i32, -1i32],
            weights: [ONE_F32_BITS, 0u32, 0u32, 0u32],
            deform: Deform::Bdef1,
        }
    } else if kind == 1 || kind == 3 {
        PmxVertex {
            pos,
            normal,
            uv,
            bones: [bone_at(b, r, size), bone_at(b, r + w, size), -1i32, -1i32],
            weights: [u32_at(b, r + 2 * w), 0u32, 0u32, 0u32],
            deform: if kind == 1 { Deform::Bdef2 } else { Deform::Sdef },
        }
    } else {
        PmxVertex {
            pos,
            normal,
            uv,
            bones: [
                bone_at(b, r, size),
                bone_at(b, r + w, size),
                bone_at(b, r + 2 * w, size),
                bone_at(b, r + 3 * w, size),
            ],
            weights: [
                u32_at(b, r + 4 * w),
                u32_at(b, r + 4 * w + 4),
                u32_at(b, r + 4 * w + 8),
                u32_at(b, r + 4 * w + 12),
            ],
            deform: if kind == 2 { Deform::Bdef4 } else { Deform::Qdef },
        }
    }
}

/// The vertex record at `p` and the position just past it.
///
/// A record is position (3×f32), normal (3×f32), UV (2×f32), `add_uv` extra vec4s
/// (skipped), a deform kind byte with its bone indices and weights, and an edge scale
/// (skipped).
pub open spec fn vertex_at(b: Seq<u8>, p: int, g: PmxGlobals) -> Option<(PmxVertex, int)> {
    let q = p + 32 + 16 * g.add_uv;
    if q + 1 > b.len() {
        None
    } else {
        let kind = b[q];
        match deform_tail_len(kind, index_width(g.bone_index_size)) {
            None => None,
            Some(t) => if q + 1 + t > b.len() {
                None
            } else {
                Some((vertex_value(b, p, kind, q + 1, g.bone_index_size), q + 1 + t))
            },
        }
    }
}

/// `n` consecutive vertex records starting at `p`.
pub open spec fn vertices_from(b: Seq<u8>, p: int, n: nat, g: PmxGlobals) -> Option<
    (Seq<PmxVertex>, int),
>
    decreases n,
{
    if n == 0 {
        Some((Seq::empty(), p))
    } else {
        match vertices_from(b, p, (n - 1) as nat, g) {
            None => None,
            Some((vs, q)) => match vertex_at(b, q, g) {
                None => None,
                Some((v, r)) => Some((vs.push(v), r)),
            },
        }
    }
}

/// `n` consecutive vertex indices of declared size `size` starting at `p`.
pub open spec fn indices_from(b: Seq<u8>, p: int, n: nat, size: u8) -> Option<(Seq<u32>, int)>
    decreases n,
{
    if n == 0 {
        Some((Seq::empty(), p))
    } else {
        match indices_from(b, p, (n - 1) as nat, size) {
            None => None,
            Some((is, q)) => if q + index_width(size) > b.len() {
                None
            } else {
                Some((is.push(vertex_ref_at(b, q, size)), q + index_width(size)))
            },
        }
    }
}

/// Name of the outside decoder's result on UTF-16LE text (BOM sniffing included).
pub uninterp spec fn utf16le_decoded(bytes: Seq<u8>) -> Seq<char>;

/// Name of the lossy UTF-8 decoder's result.
pub uninterp spec fn utf8_lossy_decoded(bytes: Seq<u8>) -> Seq<char>;

/// Text of the given bytes in the model's encoding: valid UTF-8 is its own text.
pub open spec fn decoded(bytes: Seq<u8>, utf16: bool) -> Seq<char> {
    if utf16 {
        utf16le_decoded(bytes)
    } else if vstd::utf8::valid_utf8(bytes) {
        vstd::utf8::decode_utf8(bytes)
    } else {
        utf8_lossy_decoded(bytes)
    }
}

/// The header globals, read from the global bytes at offset 9: encoding (globals[0]),
/// additional UVs (globals[1]), vertex index size (globals[2]) and bone index size
/// (globals[5]).
pub open spec fn globals_of(b: Seq<u8>) -> PmxGlobals {
    PmxGlobals { utf16: b[9] == 0, add_uv: b[10], vertex_index_size: b[11], bone_index_size: b[14] }
}

/// Whether the file starts with the `"PMX "` signature.
pub open spec fn has_signature(b: Seq<u8>) -> bool {
    b.len() >= 4 && b[0] == 0x50 && b[1] == 0x4d && b[2] == 0x58 && b[3] == 0x20
}

/// Whether a name field of `n` bytes can be handed to the text decoders: the UTF-16
/// decoder sizes its output buffer as `3 * n + 3` bytes (a lossy UTF-8 decoding grows
/// to at most three bytes per input byte), and an allocation beyond `isize::MAX` bytes
/// panics.
pub open spec fn name_fits_decoder(n: int) -> bool {
    3 * n + 3 <= isize::MAX
}

/// The model a PMX file describes, or `None` where the file is malformed or truncated,
/// or where its name field is too long to be decoded at all.
///
/// A negative vertex or face count is malformed: no input holds that many records.
pub open spec fn pmx_model(b: Seq<u8>) -> Option<PmxModelView> {
    if b.len() < 9 || !has_signature(b) {
        None
    } else {
        let gcount = b[8] as int;
        if gcount < 6 || 9 + gcount > b.len() {
            None
        } else {
            let g = globals_of(b);
            let t0 = 9 + gcount;
            match text_end(b, t0) {
                None => None,
                Some(t1) => if !name_fits_decoder(t1 - (t0 + 4)) {
                    None
                } else { match text_end(b, t1) {
                    None => None,
                    Some(t2) => match text_end(b, t2) {
                        None => None,
                        Some(t3) => match text_end(b, t3) {
                            None => None,
                            Some(t4) => if t4 + 4 > b.len() || i32_of(u32_at(b, t4)) < 0 {
                                None
                            } else {
                                match vertices_from(
                                    b,
                                    t4 + 4,
                                    i32_of(u32_at(b, t4)) as nat,
                                    g,
                                ) {
                                    None => None,
                                    Some((vs, q)) => if q + 4 > b.len() || i32_of(u32_at(b, q))
                                        < 0 {
                                        None
                                    } else {
                                        match indices_from(
                                            b,
                                            q + 4,
                                            i32_of(u32_at(b, q)) as nat,
                                            g.vertex_index_size,
                                        ) {
                                            None => None,
                                            Some((is, _)) => Some(
                                                PmxModelView {
                                                    name: decoded(
                                                        b.subrange(t0 + 4, t1),
                                                        g.utf16,
                                                    ),
                                                    vertices: vs,
                                                    indices: is,
                                                },
                                            ),
                                        }
                                    },
                                }
                            },
                        },
                    },
                } },
            }
        }
    }
}

// ---------------------------------------------------------------------------
// Text decoding (outside decoders).
// ---------------------------------------------------------------------------

/// Decodes UTF-16LE text with `encoding_rs::UTF_16LE.decode` (which honours a leading
/// byte-order mark). Claimed: the result is the decoder's output for these bytes, named
/// [`utf16le_decoded`]. The bound keeps the decoder's output-buffer size computation and
/// allocation (at most `3 * len + 3` bytes) within `isize::MAX`.
#[verifier::external_body]
fn decode_utf16le(bytes: &[u8]) -> (s: String)
    requires
        3 * bytes@.len() + 3 <= isize::MAX,
    ensures
        s@ == utf16le_decoded(bytes@),
{
    encoding_rs::UTF_16LE.decode(bytes).0.into_owned()
}

/// Decodes UTF-8 text with `String::from_utf8_lossy`. Claimed: the result is named
/// [`utf8_lossy_decoded`], and on valid UTF-8 it is exactly the encoded text (the
/// documented no-replacement case). The bound keeps the output (at most three bytes per
/// input byte, each invalid sequence becoming U+FFFD) within `isize::MAX`.
#[verifier::external_body]
fn decode_utf8_lossy(bytes: &[u8]) -> (s: String)
    requires
        3 * bytes@.len() + 3 <= isize::MAX,
    ensures
        s@ == utf8_lossy_decoded(bytes@),
        vstd::utf8::valid_utf8(bytes@) ==> s@ == vstd::utf8::decode_utf8(bytes@),
{
    String::from_utf8_lossy(bytes).into_owned()
}

// ---------------------------------------------------------------------------
// The reader.
// ---------------------------------------------------------------------------

fn read_u16(b: &[u8], p: usize) -> (r: u16)
    requires
        p + 2 <= b@.len(),
    ensures
        r == u16_at(b@, p as int),
{
    b[p] as u16 + 256 * (b[p + 1] as u16)
}

fn read_u32(b: &[u8], p: usize) -> (r: u32)
    requires
        p + 4 <= b@.len(),
    ensures
        r == u32_at(b@, p as int),
{
    b[p] as u32 + 256 * (b[p + 1] as u32) + 65536 * (b[p + 2] as u32) + 16777216 * (b[p
        + 3] as u32)
}

fn signed8(x: u8) -> (r: i32)
    ensures
        r == i8_of(x),
{
    if x < 128 {
        x as i32
    } else {
        x as i32 - 256
    }
}

fn signed16(x: u16) -> (r: i32)
    ensures
        r == i16_of(x),
{
    if x < 32768 {
        x as i32
    } else {
        x as i32 - 65536
    }
}

fn signed32(x: u32) -> (r: i32)
    ensures
        r == i32_of(x),
{
    if x < 0x8000_0000 {
        x as i32
    } else {
        let y: u32 = x - 0x8000_0000;
        (y as i32) - 0x7fff_ffff - 1
    }
}

fn width_of(size: u8) -> (w: usize)
    ensures
        w == index_width(size),
{
    if size == 1 {
        1
    } else if size == 2 {
        2
    } else {
        4
    }
}

fn read_bone(b: &[u8], p: usize, size: u8) -> (r: i32)
    requires
        p + index_width(size) <= b@.len(),
    ensures
        r == bone_at(b@, p as int, size),
{
    if size == 1 {
        signed8(b[p])
    } else if size == 2 {
        signed16(read_u16(b, p))
    } else {
        signed32(read_u32(b, p))
    }
}

fn read_vertex_ref(b: &[u8], p: usize, size: u8) -> (r: u32)
    requires
        p + index_width(size) <= b@.len(),
    ensures
        r == vertex_ref_at(b@, p as int, size),
{
    if size == 1 {
        b[p] as u32
    } else if size == 2 {
        read_u16(b, p) as u32
    } else {
        read_u32(b, p)
    }
}

/// The end of the text field at `p`.
fn read_text_end(b: &[u8], p: usize) -> (r: Option<usize>)
    requires
        p <= b@.len(),
    ensures
        match r {
            Some(e) => text_end(b@, p as int) == Some(e as int),
            None => text_end(b@, p as int) is None,
        },
{
    if b.len() - p < 4 {
        return None;
    }
    let n = signed32(read_u32(b, p));
    if n < 0 {
        return None;
    }
    let n = n as usize;
    if b.len() - p - 4 < n {
        return None;
    }
    Some(p + 4 + n)
}

fn deform_tail(kind: u8, w: usize) -> (r: Option<usize>)
    requires
        w <= 4,
    ensures
        match r {
            Some(t) => deform_tail_len(kind, w as int) == Some(t as int),
            None => deform_tail_len(kind, w as int) is None,
        },
{
    if kind == 0 {
        Some(w + 4)
    } else if kind == 1 {
        Some(2 * w + 8)
    } else if kind == 2 || kind == 4 {
        Some(4 * w + 20)
    } else if kind == 3 {
        Some(2 * w + 44)
    } else {
        None
    }
}

/// The vertex record at `p` and the position just past it.
fn read_vertex(b: &[u8], p: usize, g: &PmxGlobals) -> (r: Option<(PmxVertex, usize)>)
    requires
        p <= b@.len(),
    ensures
        match r {
            Some((v, e)) => vertex_at(b@, p as int, *g) == Some((v, e as int)),
            None => vertex_at(b@, p as int, *g) is None,
        },
{
    let skip: usize = 32 + 16 * (g.add_uv as usize);
    if b.len() - p < skip + 1 {
        return None;
    }
    let q = p + skip;
    let kind = b[q];
    let size = g.bone_index_size;
    let w = width_of(size);
    let t = match deform_tail(kind, w) {
        Some(t) => t,
        None => return None,
    };
    let r = q + 1;
    if b.len() - r < t {
        return None;
    }
    let pos = Vec3Bits { x: read_u32(b, p), y: read_u32(b, p + 4), z: read_u32(b, p + 8) };
    let normal = Vec3Bits {
        x: read_u32(b, p + 12),
        y: read_u32(b, p + 16),
        z: read_u32(b, p + 20),
    };
    let uv = Vec2Bits { x: read_u32(b, p + 24), y: read_u32(b, p + 28) };
    let v = if kind == 0 {
        PmxVertex {
            pos,
            normal,
            uv,
            bones: [read_bone(b, r, size), -1i32, -1i32, -1i32],
            weights: [ONE_F32_BITS, 0u32, 0u32, 0u32],
            deform: Deform::Bdef1,
        }
    } else if kind == 1 || kind == 3 {
        PmxVertex {
            pos,
            normal,
            uv,
            bones: [read_bone(b, r, size), read_bone(b, r + w, size), -1i32, -1i32],
            weights: [read_u32(b, r + 2 * w), 0u32, 0u32, 0u32],
            deform: if kind == 1 {
                Deform::Bdef2
            } else {
                Deform::Sdef
            },
        }
    } else {
        PmxVertex {
            pos,
            normal,
            uv,
            bones: [
                read_bone(b, r, size),
                read_bone(b, r + w, size),
                read_bone(b, r + 2 * w, size),
                read_bone(b, r + 3 * w, size),
            ],
            weights: [
                read_u32(b, r + 4 * w),
                read_u32(b, r + 4 * w + 4),
                read_u32(b, r + 4 * w + 8),
                read_u32(b, r + 4 * w + 12),
            ],
            deform: if kind == 2 {
                Deform::Bdef4
            } else {
                Deform::Qdef
            },
        }
    };
    Some((v, r + t))
}

proof fn lemma_vertices_fail_stays(b: Seq<u8>, p: int, k: nat, m: nat, g: PmxGlobals)
    requires
        k <= m,
        vertices_from(b, p, k, g) is None,
    ensures
        vertices_from(b, p, m, g) is None,
    decreases m,
{
    if m > k {
        lemma_vertices_fail_stays(b, p, k, (m - 1) as nat, g);
    }
}

proof fn lemma_indices_fail_stays(b: Seq<u8>, p: int, k: nat, m: nat, size: u8)
    requires
        k <= m,
        indices_from(b, p, k, size) is None,
    ensures
        indices_from(b, p, m, size) is None,
    decreases m,
{
    if m > k {
        lemma_indices_fail_stays(b, p, k, (m - 1) as nat, size);
    }
}

/// `n` vertex records from `p`, and the position just past them.
fn read_vertices(b: &[u8], p: usize, n: usize, g: &PmxGlobals) -> (r: Option<
    (Vec<PmxVertex>, usize),
>)
    requires
        p <= b@.len(),
    ensures
        match r {
            Some((vs, e)) => vertices_from(b@, p as int, n as nat, *g) == Some((vs@, e as int)),
            None => vertices_from(b@, p as int, n as nat, *g) is None,
        },
{
    let mut vs: Vec<PmxVertex> = Vec::new();
    let mut pos = p;
    let mut i: usize = 0;
    assert(vs@ =~= Seq::<PmxVertex>::empty());
    while i < n
        invariant
            p <= b@.len(),
            i <= n,
            pos <= b@.len(),
            vertices_from(b@, p as int, i as nat, *g) == Some((vs@, pos as int)),
        decreases n - i,
    {
        match read_vertex(b, pos, g) {
            Some((v, e)) => {
                vs.push(v);
                pos = e;
                i = i + 1;
            },
            None => {
                proof {
                    lemma_vertices_fail_stays(b@, p as int, (i + 1) as nat, n as nat, *g);
                }
                return None;
            },
        }
    }
    Some((vs, pos))
}

/// `n` vertex indices of declared size `size` from `p`.
fn read_indices(b: &[u8], p: usize, n: usize, size: u8) -> (r: Option<(Vec<u32>, usize)>)
    requires
        p <= b@.len(),
    ensures
        match r {
            Some((is, e)) => indices_from(b@, p as int, n as nat, size) == Some((is@, e as int)),
            None => indices_from(b@, p as int, n as nat, size) is None,
        },
{
    let w = width_of(size);
    let mut is: Vec<u32> = Vec::new();
    let mut pos = p;
    let mut i: usize = 0;
    assert(is@ =~= Seq::<u32>::empty());
    while i < n
        invariant
            p <= b@.len(),
            i <= n,
            w == index_width(size),
            pos <= b@.len(),
            indices_from(b@, p as int, i as nat, size) == Some((is@, pos as int)),
        decreases n - i,
    {
        if b.len() - pos < w {
            proof {
                lemma_indices_fail_stays(b@, p as int, (i + 1) as nat, n as nat, size);
            }
            return None;
        }
        is.push(read_vertex_ref(b, pos, size));
        pos = pos + w;
        i = i + 1;
    }
    Some((is, pos))
}

/// Reads a non-negative `i32` count at `p`.
fn read_count(b: &[u8], p: usize) -> (r: Option<usize>)
    requires
        p <= b@.len(),
    ensures
        match r {
            Some(n) => p + 4 <= b@.len() && i32_of(u32_at(b@, p as int)) >= 0 && n as int
                == i32_of(u32_at(b@, p as int)),
            None => p + 4 > b@.len() || i32_of(u32_at(b@, p as int)) < 0,
        },
{
    if b.len() - p < 4 {
        return None;
    }
    let n = signed32(read_u32(b, p));
    if n < 0 {
        None
    } else {
        Some(n as usize)
    }
}

proof fn lemma_u32_extend(b: Seq<u8>, e: Seq<u8>, p: int)
    requires
        0 <= p,
        p + 4 <= b.len(),
    ensures
        u32_at(b + e, p) == u32_at(b, p),
        u16_at(b + e, p) == u16_at(b, p),
        (b + e)[p] == b[p],
{
    assert((b + e)[p] == b[p]);
    assert((b + e)[p + 1] == b[p + 1]);
    assert((b + e)[p + 2] == b[p + 2]);
    assert((b + e)[p + 3] == b[p + 3]);
}

proof fn lemma_small_extend(b: Seq<u8>, e: Seq<u8>, p: int, size: u8)
    requires
        0 <= p,
        p + index_width(size) <= b.len(),
    ensures
        bone_at(b + e, p, size) == bone_at(b, p, size),
        vertex_ref_at(b + e, p, size) == vertex_ref_at(b, p, size),
{
    assert((b + e)[p] == b[p]);
    if size == 2 {
        assert((b + e)[p + 1] == b[p + 1]);
    } else if size != 1 {
        lemma_u32_extend(b, e, p);
    }
}

proof fn lemma_text_end_extend(b: Seq<u8>, e: Seq<u8>, p: int)
    requires
        0 <= p,
        text_end(b, p) is Some,
    ensures
        text_end(b + e, p) == text_end(b, p),
{
    lemma_u32_extend(b, e, p);
}

proof fn lemma_vertex_extend(b: Seq<u8>, e: Seq<u8>, p: int, g: PmxGlobals)
    requires
        0 <= p,
        vertex_at(b, p, g) is Some,
    ensures
        vertex_at(b + e, p, g) == vertex_at(b, p, g),
{
    let q = p + 32 + 16 * g.add_uv;
    let size = g.bone_index_size;
    let w = index_width(size);
    let kind = b[q];
    assert((b + e)[q] == b[q]);
    let r = q + 1;
    let t = deform_tail_len(kind, w).unwrap();
    assert(r + t <= b.len());
    lemma_u32_extend(b, e, p);
    lemma_u32_extend(b, e, p + 4);
    lemma_u32_extend(b, e, p + 8);
    lemma_u32_extend(b, e, p + 12);
    lemma_u32_extend(b, e, p + 16);
    lemma_u32_extend(b, e, p + 20);
    lemma_u32_extend(b, e, p + 24);
    lemma_u32_extend(b, e, p + 28);
    if kind == 0 {
        lemma_small_extend(b, e, r, size);
    } else if kind == 1 || kind == 3 {
        lemma_small_extend(b, e, r, size);
        lemma_small_extend(b, e, r + w, size);
        lemma_u32_extend(b, e, r + 2 * w);
    } else {
        lemma_small_extend(b, e, r, size);
        lemma_small_extend(b, e, r + w, size);
        lemma_small_extend(b, e, r + 2 * w, size);
        lemma_small_extend(b, e, r + 3 * w, size);
        lemma_u32_extend(b, e, r + 4 * w);
        lemma_u32_extend(b, e, r + 4 * w + 4);
        lemma_u32_extend(b, e, r + 4 * w + 8);
        lemma_u32_extend(b, e, r + 4 * w + 12);
    }
    assert(vertex_value(b + e, p, kind, r, size) == vertex_value(b, p, kind, r, size));
}

proof fn lemma_vertex_end(b: Seq<u8>, p: int, g: PmxGlobals)
    requires
        vertex_at(b, p, g) is Some,
    ensures
        p < vertex_at(b, p, g).unwrap().1 <= b.len(),
{
}

proof fn lemma_vertices_extend(b: Seq<u8>, e: Seq<u8>, p: int, n: nat, g: PmxGlobals)
    requires
        0 <= p,
        vertices_from(b, p, n, g) is Some,
    ensures
        vertices_from(b + e, p, n, g) == vertices_from(b, p, n, g),
        p <= vertices_from(b, p, n, g).unwrap().1,
    decreases n,
{
    if n > 0 {
        lemma_vertices_extend(b, e, p, (n - 1) as nat, g);
        let (vs, q) = vertices_from(b, p, (n - 1) as nat, g).unwrap();
        lemma_vertex_extend(b, e, q, g);
        lemma_vertex_end(b, q, g);
    }
}

proof fn lemma_indices_extend(b: Seq<u8>, e: Seq<u8>, p: int, n: nat, size: u8)
    requires
        0 <= p,
        indices_from(b, p, n, size) is Some,
    ensures
        indices_from(b + e, p, n, size) == indices_from(b, p, n, size),
        p <= indices_from(b, p, n, size).unwrap().1,
    decreases n,
{
    if n > 0 {
        lemma_indices_extend(b, e, p, (n - 1) as nat, size);
        let (is, q) = indices_from(b, p, (n - 1) as nat, size).unwrap();
        lemma_small_extend(b, e, q, size);
    }
}

/// Reading `n` vertex records gives exactly `n` vertices.
pub proof fn lemma_vertex_count(b: Seq<u8>, p: int, n: nat, g: PmxGlobals)
    ensures
        vertices_from(b, p, n, g) matches Some((vs, _)) ==> vs.len() == n,
    decreases n,
{
    if n > 0 {
        lemma_vertex_count(b, p, (n - 1) as nat, g);
    }
}

/// Reading `n` vertex indices gives exactly `n` indices.
pub proof fn lemma_index_count(b: Seq<u8>, p: int, n: nat, size: u8)
    ensures
        indices_from(b, p, n, size) matches Some((is, _)) ==> is.len() == n,
    decreases n,
{
    if n > 0 {
        lemma_index_count(b, p, (n - 1) as nat, size);
    }
}

/// What the header fixes: a model is read only from input that starts with `"PMX "`
/// and declares at least six globals; the text encoding is UTF-16LE exactly when
/// byte 9 (the first global) is 0; the additional-UV count, the vertex index size and
/// the bone index size are bytes 10, 11 and 14; and the model's name is the first text
/// field (an `i32` byte length, then the bytes), decoded in that encoding.
pub proof fn lemma_model_header(b: Seq<u8>)
    ensures
        globals_of(b) == (PmxGlobals {
            utf16: b[9] == 0,
            add_uv: b[10],
            vertex_index_size: b[11],
            bone_index_size: b[14],
        }),
        pmx_model(b) matches Some(m) ==> ({
            let t0 = 9 + b[8] as int;
            let n = i32_of(u32_at(b, t0)) as int;
            &&& b.len() >= 15
            &&& b[0] == 0x50 && b[1] == 0x4d && b[2] == 0x58 && b[3] == 0x20
            &&& b[8] >= 6
            &&& 0 <= n
            &&& t0 + 4 + n <= b.len()
            &&& m.name == decoded(b.subrange(t0 + 4, t0 + 4 + n), b[9] == 0)
        }),
{
}

/// The layout of one vertex record, as the PMX format fixes it: position, normal and
/// UV (eight `f32`), `add_uv` extra vec4s, the deform kind byte, then per kind
/// BDEF1: one bone index; BDEF2: two bone indices and one `f32` weight;
/// BDEF4 and QDEF: four bone indices and four `f32` weights;
/// SDEF: two bone indices, one `f32` weight and the C, R0 and R1 vectors (3 × 12 bytes);
/// and last the `f32` edge scale. A record is read exactly when the kind is one of these
/// five and the whole record lies inside the input.
pub proof fn lemma_vertex_record_layout(b: Seq<u8>, p: int, g: PmxGlobals)
    ensures
        ({
            let q = p + 32 + 16 * g.add_uv;
            let r = q + 1;
            let s = g.bone_index_size;
            let w = index_width(s);
            let kind = b[q];
            let end = if kind == 0 {
                r + w + 4
            } else if kind == 1 {
                r + 2 * w + 4 + 4
            } else if kind == 3 {
                r + 2 * w + 4 + 3 * 12 + 4
            } else {
                r + 4 * w + 4 * 4 + 4
            };
            &&& (vertex_at(b, p, g) is Some <==> (q < b.len() && kind <= 4 && end <= b.len()))
            &&& (vertex_at(b, p, g) matches Some((v, e)) ==> {
                &&& e == end
                &&& v.pos == Vec3Bits { x: u32_at(b, p), y: u32_at(b, p + 4), z: u32_at(b, p + 8) }
                &&& v.normal == Vec3Bits {
                    x: u32_at(b, p + 12),
                    y: u32_at(b, p + 16),
                    z: u32_at(b, p + 20),
                }
                &&& v.uv == Vec2Bits { x: u32_at(b, p + 24), y: u32_at(b, p + 28) }
                &&& (kind == 0 ==> v.deform == Deform::Bdef1 && v.bones == [
                    bone_at(b, r, s),
                    -1i32,
                    -1i32,
                    -1i32,
                ] && v.weights == [0x3f80_0000u32, 0u32, 0u32, 0u32])
                &&& (kind == 1 ==> v.deform == Deform::Bdef2 && v.bones == [
                    bone_at(b, r, s),
                    bone_at(b, r + w, s),
                    -1i32,
                    -1i32,
                ] && v.weights == [u32_at(b, r + 2 * w), 0u32, 0u32, 0u32])
                &&& (kind == 3 ==> v.deform == Deform::Sdef && v.bones == [
                    bone_at(b, r, s),
                    bone_at(b, r + w, s),
                    -1i32,
                    -1i32,
                ] && v.weights == [u32_at(b, r + 2 * w), 0u32, 0u32, 0u32])
                &&& ((kind == 2 || kind == 4) ==> v.deform == (if kind == 2 {
                    Deform::Bdef4
                } else {
                    Deform::Qdef
                }) && v.bones == [
                    bone_at(b, r, s),
                    bone_at(b, r + w, s),
                    bone_at(b, r + 2 * w, s),
                    bone_at(b, r + 3 * w, s),
                ] && v.weights == [
                    u32_at(b, r + 4 * w),
                    u32_at(b, r + 4 * w + 4),
                    u32_at(b, r + 4 * w + 8),
                    u32_at(b, r + 4 * w + 12),
                ])
            })
        }),
{
}

/// Indices are little-endian, and bone indices are two's complement of their width:
/// one byte `0xff` is bone `-1`, and a face index of width 1 or 2 is the unsigned value
/// of its bytes.
pub proof fn lemma_index_encoding(b: Seq<u8>, p: int)
    requires
        0 <= p,
        p + 4 <= b.len(),
    ensures
        index_width(1) == 1 && index_width(2) == 2 && index_width(4) == 4,
        bone_at(b, p, 1) == (if b[p] < 128 { b[p] as int } else { b[p] - 256 }),
        bone_at(b, p, 2) == (if b[p + 1] < 128 {
            b[p] + 256 * b[p + 1]
        } else {
            b[p] + 256 * b[p + 1] - 65536
        }),
        vertex_ref_at(b, p, 1) == b[p],
        vertex_ref_at(b, p, 2) == b[p] + 256 * b[p + 1],
        vertex_ref_at(b, p, 4) == b[p] + 256 * b[p + 1] + 65536 * b[p + 2] + 16777216 * b[p + 3],
        bone_at(b, p, 4) == (if b[p + 3] < 128 {
            b[p] + 256 * b[p + 1] + 65536 * b[p + 2] + 16777216 * b[p + 3]
        } else {
            b[p] + 256 * b[p + 1] + 65536 * b[p + 2] + 16777216 * b[p + 3] - 0x1_0000_0000
        }),
{
}

/// Bytes after the face block are never read: a well-formed file followed by
/// anything at all describes the same model.
pub proof fn lemma_trailing_bytes_ignored(b: Seq<u8>, e: Seq<u8>)
    requires
        pmx_model(b) is Some,
    ensures
        pmx_model(b + e) == pmx_model(b),
{
    let c = b + e;
    assert(c[0] == b[0] && c[1] == b[1] && c[2] == b[2] && c[3] == b[3]);
    assert(c[8] == b[8]);
    let gcount = b[8] as int;
    assert(c[9] == b[9] && c[10] == b[10] && c[11] == b[11] && c[14] == b[14]);
    let g = globals_of(b);
    assert(globals_of(c) == g);
    let t0 = 9 + gcount;
    lemma_text_end_extend(b, e, t0);
    let t1 = text_end(b, t0).unwrap();
    lemma_text_end_extend(b, e, t1);
    let t2 = text_end(b, t1).unwrap();
    lemma_text_end_extend(b, e, t2);
    let t3 = text_end(b, t2).unwrap();
    lemma_text_end_extend(b, e, t3);
    let t4 = text_end(b, t3).unwrap();
    lemma_u32_extend(b, e, t4);
    let vn = i32_of(u32_at(b, t4)) as nat;
    lemma_vertices_extend(b, e, t4 + 4, vn, g);
    let (vs, q) = vertices_from(b, t4 + 4, vn, g).unwrap();
    lemma_u32_extend(b, e, q);
    let inum = i32_of(u32_at(b, q)) as nat;
    lemma_indices_extend(b, e, q + 4, inum, g.vertex_index_size);
    assert(c.subrange(t0 + 4, t1) =~= b.subrange(t0 + 4, t1));
}

/// Parses the PMX header, vertex and face sections into a [`PmxModel`].
///
/// Returns `None` exactly where [`pmx_model`] does: a missing `"PMX "` signature,
/// fewer than six globals, an unknown deform kind, a negative count or text length,
/// a record cut short by the end of the input, or a name field too long for the
/// decoders' output buffer ([`name_fits_decoder`]).
pub fn pmx_to_model(bytes: &[u8]) -> (r: Option<PmxModel>)
    ensures
        match r {
            Some(m) => pmx_model(bytes@) == Some(m@),
            None => pmx_model(bytes@) is None,
        },
{
    let b = bytes;
    if b.len() < 9 || !(b[0] == 0x50 && b[1] == 0x4d && b[2] == 0x58 && b[3] == 0x20) {
        return None;
    }
    let gcount = b[8] as usize;
    if gcount < 6 || b.len() - 9 < gcount {
        return None;
    }
    let g = PmxGlobals {
        utf16: b[9] == 0,
        add_uv: b[10],
        vertex_index_size: b[11],
        bone_index_size: b[14],
    };
    let t0 = 9 + gcount;
    let t1 = match read_text_end(b, t0) {
        Some(e) => e,
        None => return None,
    };
    let name_len = t1 - t0 - 4;
    if name_len > (isize::MAX as usize - 3) / 3 {
        return None;
    }
    let t2 = match read_text_end(b, t1) {
        Some(e) => e,
        None => return None,
    };
    let t3 = match read_text_end(b, t2) {
        Some(e) => e,
        None => return None,
    };
    let t4 = match read_text_end(b, t3) {
        Some(e) => e,
        None => return None,
    };
    let vcount = match read_count(b, t4) {
        Some(n) => n,
        None => return None,
    };
    let (vertices, q) = match read_vertices(b, t4 + 4, vcount, &g) {
        Some(x) => x,
        None => return None,
    };
    let icount = match read_count(b, q) {
        Some(n) => n,
        None => return None,
    };
    let (indices, _) = match read_indices(b, q + 4, icount, g.vertex_index_size) {
        Some(x) => x,
        None => return None,
    };
    let raw = &b[t0 + 4..t1];
    let name = if g.utf16 {
        decode_utf16le(raw)
    } else {
        decode_utf8_lossy(raw)
    };
    Some(PmxModel { name, vertices, indices })
}

} // verus!
