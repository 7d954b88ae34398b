use vstd::prelude::*;
use vstd::bytes::*;
use vstd::slice::slice_subrange;
use crate::vector::Vec3Bits;

verus! {

/// Size of the fixed binary STL header.
pub const STL_HEADER_LEN: usize = 80;
/// Header plus the little-endian triangle count.
pub const STL_PREAMBLE_LEN: usize = 84;
/// Bytes per triangle record: normal, three vertices (12 binary32 values) and
/// a two-byte attribute word.
pub const STL_RECORD_LEN: usize = 50;

/// A mesh as stored in a binary STL file.
pub struct StlMesh {
    /// The three vertices of each triangle (shared corners are repeated).
    pub triangles: Vec<[Vec3Bits; 3]>,
    /// The normal stored with each triangle.
    pub normals: Vec<Vec3Bits>,
}

/// Why a byte string is not a binary STL image.
#[derive(Clone, Copy, Debug, PartialEq, Eq, Structural)]
pub enum StlError {
    /// Fewer than 84 bytes: no header and triangle count.
    TooShort,
    /// The count announces more triangle records than the bytes hold.
    Truncated,
}

// ---------------------------------------------------------------- encoding

/// The 80-byte header: the tag `flowngin` followed by zero bytes.
pub open spec fn stl_header() -> Seq<u8> {
    seq![0x66u8, 0x6cu8, 0x6fu8, 0x77u8, 0x6eu8, 0x67u8, 0x69u8, 0x6eu8] + Seq::new(
        72,
        |i: int| 0u8,
    )
}

/// A vector as three little-endian binary32 words.
pub open spec fn vec3_le_bytes(v: Vec3Bits) -> Seq<u8> {
    spec_u32_to_le_bytes(v.x) + spec_u32_to_le_bytes(v.y) + spec_u32_to_le_bytes(v.z)
}

/// One 50-byte triangle record: normal, the three vertices, attribute `0`.
pub open spec fn stl_record(normal: Vec3Bits, tri: [Vec3Bits; 3]) -> Seq<u8> {
    vec3_le_bytes(normal) + vec3_le_bytes(tri[0]) + vec3_le_bytes(tri[1]) + vec3_le_bytes(tri[2])
        + seq![0u8, 0u8]
}

/// The records of the first `n` triangles, in order.
pub open spec fn stl_records(tris: Seq<[Vec3Bits; 3]>, normals: Seq<Vec3Bits>, n: nat) -> Seq<
    u8,
>
    decreases n,
{
    if n == 0 {
        Seq::empty()
    } else {
        stl_records(tris, normals, (n - 1) as nat) + stl_record(
            normals[n - 1],
            tris[n - 1],
        )
    }
}

/// The complete binary STL image of a mesh.
pub open spec fn stl_image(tris: Seq<[Vec3Bits; 3]>, normals: Seq<Vec3Bits>) -> Seq<u8> {
    stl_header() + spec_u32_to_le_bytes(tris.len() as u32) + stl_records(
        tris,
        normals,
        tris.len(),
    )
}

// ---------------------------------------------------------------- decoding

/// The little-endian 32-bit word at byte offset `off`.
pub open spec fn word_at(data: Seq<u8>, off: int) -> u32 {
    spec_u32_from_le_bytes(data.subrange(off, off + 4))
}

/// The vector stored as three words at byte offset `off`.
pub open spec fn vec3_at(data: Seq<u8>, off: int) -> Vec3Bits {
    Vec3Bits { x: word_at(data, off), y: word_at(data, off + 4), z: word_at(data, off + 8) }
}

/// The triangle count announced in the preamble.
pub open spec fn stl_count(data: Seq<u8>) -> nat {
    word_at(data, 80) as nat
}

/// Byte offset of the record of triangle `i`.
pub open spec fn record_offset(i: int) -> int {
    84 + 50 * i
}

/// `None` when `data` is a readable binary STL image, else the error it gives.
pub open spec fn stl_check(data: Seq<u8>) -> Option<StlError> {
    if data.len() < 84 {
        Some(StlError::TooShort)
    } else if record_offset(stl_count(data) as int) > data.len() {
        Some(StlError::Truncated)
    } else {
        None
    }
}

/// `tris` and `normals` are exactly the triangles and normals recorded in `data`.
pub open spec fn mesh_read_from(
    data: Seq<u8>,
    tris: Seq<[Vec3Bits; 3]>,
    normals: Seq<Vec3Bits>,
) -> bool {
    &&& tris.len() == stl_count(data)
    &&& normals.len() == stl_count(data)
    &&& forall|i: int|
        0 <= i < stl_count(data) ==> #[trigger] normals[i] == vec3_at(data, record_offset(i))
    &&& forall|i: int|
        0 <= i < stl_count(data) ==> {
            &&& (#[trigger] tris[i])[0] == vec3_at(data, record_offset(i) + 12)
            &&& tris[i][1] == vec3_at(data, record_offset(i) + 24)
            &&& tris[i][2] == vec3_at(data, record_offset(i) + 36)
        }
}

fn push_word(out: &mut Vec<u8>, w: u32)
    ensures
        final(out)@ == old(out)@ + spec_u32_to_le_bytes(w),
{
    let mut b = u32_to_le_bytes(w);
    out.append(&mut b);
}

fn push_vec3(out: &mut Vec<u8>, v: Vec3Bits)
    ensures
        final(out)@ == old(out)@ + vec3_le_bytes(v),
{
    let ghost start = out@;
    push_word(out, v.x);
    push_word(out, v.y);
    push_word(out, v.z);
    assert(out@ =~= start + vec3_le_bytes(v));
}

/// Encodes a mesh as a binary STL image: the header, the triangle count, then one
/// record per triangle with its normal, its vertices and a zero attribute word.
pub fn encode_stl(triangles: &Vec<[Vec3Bits; 3]>, normals: &Vec<Vec3Bits>) -> (out: Vec<u8>)
    requires
        normals.len() == triangles.len(),
        triangles.len() <= u32::MAX,
    ensures
        out@ == stl_image(triangles@, normals@),
{
    let mut out: Vec<u8> = Vec::new();
    out.push(0x66u8);
    out.push(0x6cu8);
    out.push(0x6fu8);
    out.push(0x77u8);
    out.push(0x6eu8);
    out.push(0x67u8);
    out.push(0x69u8);
    out.push(0x6eu8);
    let mut k: usize = 0;
    while k < 72
        invariant
            k <= 72,
            out@ =~= seq![0x66u8, 0x6cu8, 0x6fu8, 0x77u8, 0x6eu8, 0x67u8, 0x69u8, 0x6eu8]
                + Seq::new(k as nat, |i: int| 0u8),
        decreases 72 - k,
    {
        out.push(0u8);
        k = k + 1;
        assert(out@ =~= seq![0x66u8, 0x6cu8, 0x6fu8, 0x77u8, 0x6eu8, 0x67u8, 0x69u8, 0x6eu8]
            + Seq::new(k as nat, |i: int| 0u8));
    }
    let n = triangles.len();
    push_word(&mut out, n as u32);
    let mut i: usize = 0;
    while i < n
        invariant
            n == triangles.len(),
            normals.len() == n,
            i <= n,
            out@ == stl_header() + spec_u32_to_le_bytes(n as u32) + stl_records(
                triangles@,
                normals@,
                i as nat,
            ),
        decreases n - i,
    {
        let ghost before = out@;
        let tri = triangles[i];
        push_vec3(&mut out, normals[i]);
        push_vec3(&mut out, tri[0]);
        push_vec3(&mut out, tri[1]);
        push_vec3(&mut out, tri[2]);
        out.push(0u8);
        out.push(0u8);
        assert(out@ =~= before + stl_record(normals@[i as int], triangles@[i as int]));
        i = i + 1;
    }
    out
}

fn read_word(data: &Vec<u8>, off: usize) -> (w: u32)
    requires
        off + 4 <= data.len(),
    ensures
        w == word_at(data@, off as int),
{
    let s = slice_subrange(data.as_slice(), off, off + 4);
    u32_from_le_bytes(s)
}

fn read_vec3(data: &Vec<u8>, off: usize) -> (v: Vec3Bits)
    requires
        off + 12 <= data.len(),
    ensures
        v == vec3_at(data@, off as int),
{
    let x = read_word(data, off);
    let y = read_word(data, off + 4);
    let z = read_word(data, off + 8);
    Vec3Bits { x, y, z }
}

/// Decodes a binary STL image. Fails with `TooShort` when the preamble is
/// missing and with `Truncated` when the announced records do not fit; bytes
/// after the last announced record are ignored.
pub fn parse_stl(data: &Vec<u8>) -> (r: Result<StlMesh, StlError>)
    ensures
        match r {
            Ok(mesh) => stl_check(data@) is None && mesh_read_from(
                data@,
                mesh.triangles@,
                mesh.normals@,
            ),
            Err(e) => stl_check(data@) == Some(e),
        },
{
    if data.len() < STL_PREAMBLE_LEN {
        return Err(StlError::TooShort);
    }
    let count = read_word(data, STL_HEADER_LEN);
    let mut triangles: Vec<[Vec3Bits; 3]> = Vec::new();
    let mut normals: Vec<Vec3Bits> = Vec::new();
    let mut i: u32 = 0;
    let mut off: usize = STL_PREAMBLE_LEN;
    while i < count
        invariant
            data.len() >= 84,
            count == stl_count(data@),
            i <= count,
            off == record_offset(i as int),
            off <= data.len(),
            triangles.len() == i,
            normals.len() == i,
            forall|j: int|
                0 <= j < i ==> #[trigger] normals@[j] == vec3_at(data@, record_offset(j)),
            forall|j: int|
                0 <= j < i ==> {
                    &&& (#[trigger] triangles@[j])[0] == vec3_at(data@, record_offset(j) + 12)
                    &&& triangles@[j][1] == vec3_at(data@, record_offset(j) + 24)
                    &&& triangles@[j][2] == vec3_at(data@, record_offset(j) + 36)
                },
        decreases count - i,
    {
        if data.len() - off < STL_RECORD_LEN {
            return Err(StlError::Truncated);
        }
        let n = read_vec3(data, off);
        let a = read_vec3(data, off + 12);
        let b = read_vec3(data, off + 24);
        let c = read_vec3(data, off + 36);
        triangles.push([a, b, c]);
        normals.push(n);
        i = i + 1;
        off = off + STL_RECORD_LEN;
    }
    Ok(StlMesh { triangles, normals })
}

impl StlMesh {
    /// Vertex and index buffers of the mesh as a triangle soup: the corners of
    /// triangle `i` become vertices `3i`, `3i + 1`, `3i + 2`, and triangle `i`
    /// names exactly those three.
    pub fn soup_buffers(&self) -> (r: (Vec<Vec3Bits>, Vec<[u32; 3]>))
        requires
            3 * self.triangles.len() <= u32::MAX + 1,
        ensures
            r.0.len() == 3 * self.triangles.len(),
            r.1.len() == self.triangles.len(),
            forall|i: int, k: int|
                0 <= i < self.triangles.len() && 0 <= k < 3 ==> r.0@[3 * i + k]
                    == #[trigger] self.triangles@[i][k],
            forall|i: int|
                0 <= i < self.triangles.len() ==> {
                    &&& (#[trigger] r.1@[i])[0] == 3 * i
                    &&& r.1@[i][1] == 3 * i + 1
                    &&& r.1@[i][2] == 3 * i + 2
                },
    {
        let n = self.triangles.len();
        let mut vertices: Vec<Vec3Bits> = Vec::new();
        let mut indices: Vec<[u32; 3]> = Vec::new();
        let mut i: usize = 0;
        while i < n
            invariant
                n == self.triangles.len(),
                3 * n <= u32::MAX + 1,
                i <= n,
                vertices.len() == 3 * i,
                indices.len() == i,
                forall|i2: int, k: int|
                    0 <= i2 < i && 0 <= k < 3 ==> vertices@[3 * i2 + k]
                        == #[trigger] self.triangles@[i2][k],
                forall|i2: int|
                    0 <= i2 < i ==> {
                        &&& (#[trigger] indices@[i2])[0] == 3 * i2
                        &&& indices@[i2][1] == 3 * i2 + 1
                        &&& indices@[i2][2] == 3 * i2 + 2
                    },
            decreases n - i,
        {
            let base = (i * 3) as u32;
            indices.push([base, base + 1, base + 2]);
            let tri = self.triangles[i];
            vertices.push(tri[0]);
            vertices.push(tri[1]);
            vertices.push(tri[2]);
            i = i + 1;
        }
        (vertices, indices)
    }
}

// ---------------------------------------------------------------- laws

proof fn lemma_record_len(normal: Vec3Bits, tri: [Vec3Bits; 3])
    ensures
        vec3_le_bytes(normal).len() == 12,
        stl_record(normal, tri).len() == 50,
{
    lemma_auto_spec_u32_to_from_le_bytes();
}

proof fn lemma_records_shape(tris: Seq<[Vec3Bits; 3]>, normals: Seq<Vec3Bits>, n: nat, i: int)
    requires
        n <= tris.len(),
        n <= normals.len(),
        0 <= i < n,
    ensures
        stl_records(tris, normals, n).len() == 50 * n,
        stl_records(tris, normals, n).subrange(50 * i, 50 * i + 50) == stl_record(
            normals[i],
            tris[i],
        ),
    decreases n,
{
    lemma_records_len(tris, normals, n);
    let prev = stl_records(tris, normals, (n - 1) as nat);
    let last = stl_record(normals[n - 1], tris[n - 1]);
    lemma_record_len(normals[n - 1], tris[n - 1]);
    lemma_records_len(tris, normals, (n - 1) as nat);
    if i < n - 1 {
        lemma_records_shape(tris, normals, (n - 1) as nat, i);
        assert((prev + last).subrange(50 * i, 50 * i + 50) =~= prev.subrange(50 * i, 50 * i + 50));
    } else {
        assert((prev + last).subrange(50 * i, 50 * i + 50) =~= last);
    }
}

proof fn lemma_records_len(tris: Seq<[Vec3Bits; 3]>, normals: Seq<Vec3Bits>, n: nat)
    requires
        n <= tris.len(),
        n <= normals.len(),
    ensures
        stl_records(tris, normals, n).len() == 50 * n,
    decreases n,
{
    if n > 0 {
        lemma_records_len(tris, normals, (n - 1) as nat);
        lemma_record_len(normals[n - 1], tris[n - 1]);
    }
}

proof fn lemma_word_at(data: Seq<u8>, off: int, w: u32)
    requires
        0 <= off,
        off + 4 <= data.len(),
        data.subrange(off, off + 4) == spec_u32_to_le_bytes(w),
    ensures
        word_at(data, off) == w,
{
    lemma_auto_spec_u32_to_from_le_bytes();
    assert(spec_u32_to_le_bytes(w).len() == 4);
}

proof fn lemma_vec3_at(data: Seq<u8>, off: int, v: Vec3Bits)
    requires
        0 <= off,
        off + 12 <= data.len(),
        data.subrange(off, off + 12) == vec3_le_bytes(v),
    ensures
        vec3_at(data, off) == v,
{
    lemma_auto_spec_u32_to_from_le_bytes();
    let s = data.subrange(off, off + 12);
    assert(data.subrange(off, off + 4) =~= s.subrange(0, 4));
    assert(data.subrange(off + 4, off + 8) =~= s.subrange(4, 8));
    assert(data.subrange(off + 8, off + 12) =~= s.subrange(8, 12));
    assert(s.subrange(0, 4) =~= spec_u32_to_le_bytes(v.x));
    assert(s.subrange(4, 8) =~= spec_u32_to_le_bytes(v.y));
    assert(s.subrange(8, 12) =~= spec_u32_to_le_bytes(v.z));
    lemma_word_at(data, off, v.x);
    lemma_word_at(data, off + 4, v.y);
    lemma_word_at(data, off + 8, v.z);
}

proof fn lemma_record_in_image(tris: Seq<[Vec3Bits; 3]>, normals: Seq<Vec3Bits>, i: int)
    requires
        normals.len() == tris.len(),
        0 <= i < tris.len(),
    ensures
        normals[i] == vec3_at(stl_image(tris, normals), record_offset(i)),
        tris[i][0] == vec3_at(stl_image(tris, normals), record_offset(i) + 12),
        tris[i][1] == vec3_at(stl_image(tris, normals), record_offset(i) + 24),
        tris[i][2] == vec3_at(stl_image(tris, normals), record_offset(i) + 36),
{
    lemma_auto_spec_u32_to_from_le_bytes();
    let n = tris.len();
    let img = stl_image(tris, normals);
    let recs = stl_records(tris, normals, n);
    lemma_records_len(tris, normals, n);
    lemma_records_shape(tris, normals, n, i);
    assert(stl_header().len() == 80);
    assert(spec_u32_to_le_bytes(n as u32).len() == 4);
    let o = record_offset(i);
    let rec = stl_record(normals[i], tris[i]);
    lemma_record_len(normals[i], tris[i]);
    assert(img.subrange(o, o + 50) =~= recs.subrange(50 * i, 50 * i + 50));
    assert(img.subrange(o, o + 12) =~= rec.subrange(0, 12));
    assert(img.subrange(o + 12, o + 24) =~= rec.subrange(12, 24));
    assert(img.subrange(o + 24, o + 36) =~= rec.subrange(24, 36));
    assert(img.subrange(o + 36, o + 48) =~= rec.subrange(36, 48));
    assert(rec.subrange(0, 12) =~= vec3_le_bytes(normals[i]));
    assert(rec.subrange(12, 24) =~= vec3_le_bytes(tris[i][0]));
    assert(rec.subrange(24, 36) =~= vec3_le_bytes(tris[i][1]));
    assert(rec.subrange(36, 48) =~= vec3_le_bytes(tris[i][2]));
    lemma_vec3_at(img, o, normals[i]);
    lemma_vec3_at(img, o + 12, tris[i][0]);
    lemma_vec3_at(img, o + 24, tris[i][1]);
    lemma_vec3_at(img, o + 36, tris[i][2]);
}

/// Reading back what `encode_stl` wrote gives the same mesh: the image passes
/// the checks, announces as many triangles as were written, and each record
/// holds the triangle's normal and vertices unchanged.
pub proof fn lemma_stl_roundtrip(tris: Seq<[Vec3Bits; 3]>, normals: Seq<Vec3Bits>)
    requires
        normals.len() == tris.len(),
        tris.len() <= u32::MAX,
    ensures
        stl_check(stl_image(tris, normals)) is None,
        stl_count(stl_image(tris, normals)) == tris.len(),
        stl_image(tris, normals).len() == record_offset(tris.len() as int),
        mesh_read_from(stl_image(tris, normals), tris, normals),
{
    lemma_auto_spec_u32_to_from_le_bytes();
    let n = tris.len();
    let img = stl_image(tris, normals);
    let recs = stl_records(tris, normals, n);
    lemma_records_len(tris, normals, n);
    assert(stl_header().len() == 80);
    let cnt = spec_u32_to_le_bytes(n as u32);
    assert(img.subrange(80, 84) =~= cnt);
    lemma_word_at(img, 80, n as u32);
    assert forall|i: int| 0 <= i < n implies #[trigger] normals[i] == vec3_at(
        img,
        record_offset(i),
    ) by {
        lemma_record_in_image(tris, normals, i);
    }
    assert forall|i: int| 0 <= i < n implies {
        &&& (#[trigger] tris[i])[0] == vec3_at(img, record_offset(i) + 12)
        &&& tris[i][1] == vec3_at(img, record_offset(i) + 24)
        &&& tris[i][2] == vec3_at(img, record_offset(i) + 36)
    } by {
        lemma_record_in_image(tris, normals, i);
    }
}

/// What `parse_stl` reads from the image that `encode_stl` wrote is exactly
/// the mesh that was written.
pub proof fn lemma_stl_decode_encode(
    tris: Seq<[Vec3Bits; 3]>,
    normals: Seq<Vec3Bits>,
    read_tris: Seq<[Vec3Bits; 3]>,
    read_normals: Seq<Vec3Bits>,
)
    requires
        normals.len() == tris.len(),
        tris.len() <= u32::MAX,
        mesh_read_from(stl_image(tris, normals), read_tris, read_normals),
    ensures
        read_tris == tris,
        read_normals == normals,
{
    lemma_stl_roundtrip(tris, normals);
    let img = stl_image(tris, normals);
    assert forall|i: int| 0 <= i < tris.len() implies read_tris[i] == tris[i] by {
        assert(read_tris[i][0] == vec3_at(img, record_offset(i) + 12));
        assert(tris[i][0] == vec3_at(img, record_offset(i) + 12));
        assert(read_tris[i] =~= tris[i]);
    }
    assert forall|i: int| 0 <= i < tris.len() implies read_normals[i] == normals[i] by {
        assert(read_normals[i] == vec3_at(img, record_offset(i)));
        assert(normals[i] == vec3_at(img, record_offset(i)));
    }
    assert(read_tris =~= tris);
    assert(read_normals =~= normals);
}

} // verus!
