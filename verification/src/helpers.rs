//! Error-buffer codec and the flat-array marshaller.
//!
//! The engine reports loader errors by writing a C string into a
//! caller-owned byte buffer; nothing guarantees the buffer is fully
//! initialized or cleanly terminated, so the codec cuts it at the first
//! terminator and decodes defensively. The marshaller is the only code
//! that turns the engine's stride-addressed flat arrays into per-entity
//! records, and it carries the bounds proof for every extraction.

use vstd::prelude::*;
use vstd::utf8::decode_utf8;
use vstd::utf8::valid_utf8;

verus! {

/// The index of the first zero byte in `bytes` at or after `i`, or
/// `bytes.len()` when there is none.
pub open spec fn first_nul_from(bytes: Seq<u8>, i: int) -> int
    decreases bytes.len() - i,
{
    if i < 0 || i >= bytes.len() {
        bytes.len() as int
    } else if bytes[i] == 0 {
        i
    } else {
        first_nul_from(bytes, i + 1)
    }
}

/// The bytes of `bytes` strictly before the first zero byte.
pub open spec fn to_first_nul(bytes: Seq<u8>) -> Seq<u8> {
    bytes.subrange(0, first_nul_from(bytes, 0))
}

/// Where the first terminator search lands: at or after the start, inside
/// the buffer only on a zero byte, with no zero byte before it.
pub proof fn lemma_first_nul_bounds(bytes: Seq<u8>, i: int)
    requires
        0 <= i <= bytes.len(),
    ensures
        i <= first_nul_from(bytes, i) <= bytes.len(),
        first_nul_from(bytes, i) < bytes.len() ==> bytes[first_nul_from(bytes, i)] == 0,
        forall|j: int| i <= j < first_nul_from(bytes, i) ==> bytes[j] != 0,
    decreases bytes.len() - i,
{
    if i < bytes.len() && bytes[i] != 0 {
        lemma_first_nul_bounds(bytes, i + 1);
    }
}

/// Cuts `buf` at its first zero byte: the longest prefix that holds no
/// zero byte.
pub fn truncate_at_nul(buf: &Vec<u8>) -> (r: Vec<u8>)
    ensures
        r@ == to_first_nul(buf@),
        forall|j: int| 0 <= j < r@.len() ==> r@[j] != 0,
{
    proof {
        lemma_first_nul_bounds(buf@, 0);
    }
    let ghost stop = first_nul_from(buf@, 0);
    let mut out: Vec<u8> = Vec::new();
    let mut i: usize = 0;
    while i < buf.len() && buf[i] != 0
        invariant
            0 <= i <= buf@.len(),
            i <= stop <= buf@.len(),
            stop < buf@.len() ==> buf@[stop] == 0,
            forall|j: int| 0 <= j < stop ==> buf@[j] != 0,
            out@ == buf@.subrange(0, i as int),
        decreases buf@.len() - i,
    {
        out.push(buf[i]);
        i = i + 1;
        proof {
            assert(out@ =~= buf@.subrange(0, i as int));
        }
    }
    proof {
        assert(i == stop);
        assert(out@ =~= to_first_nul(buf@));
    }
    out
}

/// Relies on `String::from_utf8`: it succeeds exactly on valid UTF-8 and
/// returns its decoding.
#[verifier::external_body]
pub(crate) fn utf8_to_string(bytes: Vec<u8>) -> (r: Option<String>)
    ensures
        r is Some <==> valid_utf8(bytes@),
        r is Some ==> r->0@ == decode_utf8(bytes@),
{
    String::from_utf8(bytes).ok()
}

/// Decides whether `bytes` is valid UTF-8, consuming it.
pub fn utf8_check(bytes: Vec<u8>) -> (r: bool)
    ensures
        r == valid_utf8(bytes@),
{
    utf8_to_string(bytes).is_some()
}

/// Decodes an error buffer the engine has written into: the content is
/// whatever stands before the first terminator. `None` means that content
/// was not valid UTF-8, which the engine's documented ASCII output rules
/// out — callers treat it as a broken invariant, not as a result.
pub fn convert_err_buf(err_buf: &Vec<u8>) -> (r: Option<String>)
    ensures
        r is Some <==> valid_utf8(to_first_nul(err_buf@)),
        r is Some ==> r->0@ == decode_utf8(to_first_nul(err_buf@)),
        r is Some ==> (r->0@.len() == 0 <==> to_first_nul(err_buf@).len() == 0),
{
    let cut = truncate_at_nul(err_buf);
    let ghost cutv = cut@;
    let r = utf8_to_string(cut);
    proof {
        if valid_utf8(cutv) {
            vstd::utf8::decode_utf8_encode_utf8(cutv);
            if cutv.len() == 0 {
                assert(vstd::utf8::encode_utf8(decode_utf8(cutv)) =~= cutv);
            }
            if decode_utf8(cutv).len() == 0 {
                assert(vstd::utf8::encode_utf8(decode_utf8(cutv)) =~= Seq::<u8>::empty());
            }
        }
    }
    r
}

/// Element-wise equality of two byte vectors.
pub fn bytes_eq(a: &Vec<u8>, b: &Vec<u8>) -> (r: bool)
    ensures
        r == (a@ == b@),
{
    if a.len() != b.len() {
        return false;
    }
    let mut i: usize = 0;
    while i < a.len()
        invariant
            0 <= i <= a@.len(),
            a@.len() == b@.len(),
            forall|j: int| 0 <= j < i ==> a@[j] == b@[j],
        decreases a@.len() - i,
    {
        if a[i] != b[i] {
            return false;
        }
        i = i + 1;
    }
    proof {
        assert(a@ =~= b@);
    }
    true
}

/// An owned copy of a vector of plain scalars.
pub fn copy_vec<T: Copy>(v: &Vec<T>) -> (r: Vec<T>)
    ensures
        r@ == v@,
{
    let mut out: Vec<T> = Vec::new();
    let mut i: usize = 0;
    while i < v.len()
        invariant
            0 <= i <= v@.len(),
            out@ == v@.subrange(0, i as int),
        decreases v@.len() - i,
    {
        out.push(v[i]);
        i = i + 1;
        proof {
            assert(out@ =~= v@.subrange(0, i as int));
        }
    }
    proof {
        assert(out@ =~= v@);
    }
    out
}

/// Copies the first `n_entries * element_size` scalars out of a flat
/// array, after the bounds check that makes the copy safe.
pub fn extract_vector<T: Copy>(data: &Vec<T>, element_size: usize, n_entries: usize) -> (r: Vec<
    T,
>)
    requires
        element_size * n_entries <= data@.len(),
    ensures
        r@ == data@.subrange(0, (element_size * n_entries) as int),
{
    proof {
        assert(data@.len() == data.len());
    }
    let total: usize = element_size * n_entries;
    let mut out: Vec<T> = Vec::new();
    let mut i: usize = 0;
    while i < total
        invariant
            0 <= i <= total,
            total <= data@.len(),
            out@ == data@.subrange(0, i as int),
        decreases total - i,
    {
        out.push(data[i]);
        i = i + 1;
        proof {
            assert(out@ =~= data@.subrange(0, i as int));
        }
    }
    proof {
        assert(out@ =~= data@.subrange(0, total as int));
    }
    out
}

/// Groups a window of a flat scalar array into per-entity triples:
/// entry `i` of the result is the three scalars of entity `offset + i`.
pub fn extract_mesh_attribute<T: Copy>(array: &Vec<T>, offset: usize, count: usize) -> (r: Vec<
    [T; 3],
>)
    requires
        (offset + count) * 3 <= array@.len(),
    ensures
        r@.len() == count,
        forall|i: int, j: int|
            0 <= i < count && 0 <= j < 3 ==> #[trigger] r@[i]@[j] == array@[(offset + i) * 3 + j],
{
    proof {
        assert(array@.len() == array.len());
    }
    let mut out: Vec<[T; 3]> = Vec::new();
    let mut i: usize = 0;
    while i < count
        invariant
            0 <= i <= count,
            (offset + count) * 3 <= array@.len(),
            array@.len() <= usize::MAX,
            out@.len() == i,
            forall|k: int, j: int|
                0 <= k < i && 0 <= j < 3 ==> #[trigger] out@[k]@[j] == array@[(offset + k) * 3
                    + j],
        decreases count - i,
    {
        proof {
            assert((offset + i) * 3 + 3 <= (offset + count) * 3) by (nonlinear_arith)
                requires
                    i < count,
                    offset >= 0,
            ;
        }
        let base: usize = (offset + i) * 3;
        proof {
            assert(base + 2 < array@.len());
        }
        let entry: [T; 3] = [array[base], array[base + 1], array[base + 2]];
        out.push(entry);
        i = i + 1;
    }
    out
}

/// Groups a window of a flat scalar array into per-entity quadruples:
/// entry `i` of the result is the four scalars of entity `offset + i`.
pub fn extract_quads<T: Copy>(array: &Vec<T>, offset: usize, count: usize) -> (r: Vec<[T; 4]>)
    requires
        (offset + count) * 4 <= array@.len(),
    ensures
        r@.len() == count,
        forall|i: int, j: int|
            0 <= i < count && 0 <= j < 4 ==> #[trigger] r@[i]@[j] == array@[(offset + i) * 4 + j],
{
    proof {
        assert(array@.len() == array.len());
    }
    let mut out: Vec<[T; 4]> = Vec::new();
    let mut i: usize = 0;
    while i < count
        invariant
            0 <= i <= count,
            (offset + count) * 4 <= array@.len(),
            array@.len() <= usize::MAX,
            out@.len() == i,
            forall|k: int, j: int|
                0 <= k < i && 0 <= j < 4 ==> #[trigger] out@[k]@[j] == array@[(offset + k) * 4
                    + j],
        decreases count - i,
    {
        proof {
            assert((offset + i) * 4 + 4 <= (offset + count) * 4) by (nonlinear_arith)
                requires
                    i < count,
                    offset >= 0,
            ;
        }
        let base: usize = (offset + i) * 4;
        proof {
            assert(base + 3 < array@.len());
        }
        let entry: [T; 4] = [array[base], array[base + 1], array[base + 2], array[base + 3]];
        out.push(entry);
        i = i + 1;
    }
    out
}

/// Groups a window of a flat scalar array into per-entity sextets:
/// entry `i` of the result is the six scalars of entity `offset + i`.
pub fn extract_sextets<T: Copy>(array: &Vec<T>, offset: usize, count: usize) -> (r: Vec<[T; 6]>)
    requires
        (offset + count) * 6 <= array@.len(),
    ensures
        r@.len() == count,
        forall|i: int, j: int|
            0 <= i < count && 0 <= j < 6 ==> #[trigger] r@[i]@[j] == array@[(offset + i) * 6 + j],
{
    proof {
        assert(array@.len() == array.len());
    }
    let mut out: Vec<[T; 6]> = Vec::new();
    let mut i: usize = 0;
    while i < count
        invariant
            0 <= i <= count,
            (offset + count) * 6 <= array@.len(),
            array@.len() <= usize::MAX,
            out@.len() == i,
            forall|k: int, j: int|
                0 <= k < i && 0 <= j < 6 ==> #[trigger] out@[k]@[j] == array@[(offset + k) * 6
                    + j],
        decreases count - i,
    {
        proof {
            assert((offset + i) * 6 + 6 <= (offset + count) * 6) by (nonlinear_arith)
                requires
                    i < count,
                    offset >= 0,
            ;
        }
        let base: usize = (offset + i) * 6;
        proof {
            assert(base + 5 < array@.len());
        }
        let entry: [T; 6] = [
            array[base],
            array[base + 1],
            array[base + 2],
            array[base + 3],
            array[base + 4],
            array[base + 5],
        ];
        out.push(entry);
        i = i + 1;
    }
    out
}

/// A vector of `n` copies of one scalar.
pub fn filled<T: Copy>(n: usize, value: T) -> (r: Vec<T>)
    ensures
        r@.len() == n,
        forall|i: int| 0 <= i < n ==> #[trigger] r@[i] == value,
{
    let mut out: Vec<T> = Vec::new();
    let mut i: usize = 0;
    while i < n
        invariant
            0 <= i <= n,
            out@.len() == i,
            forall|k: int| 0 <= k < i ==> #[trigger] out@[k] == value,
        decreases n - i,
    {
        out.push(value);
        i = i + 1;
    }
    out
}

/// Reads `face_num` triangles starting at face `face_addr` out of the flat
/// index table, widening each signed index to `u32` as the engine's
/// non-negative index convention allows.
pub fn extract_indices(array: &Vec<i32>, face_addr: usize, face_num: usize) -> (r: Vec<u32>)
    requires
        (face_addr + face_num) * 3 <= array@.len(),
        forall|j: int|
            face_addr * 3 <= j < (face_addr + face_num) * 3 ==> 0 <= #[trigger] array@[j],
    ensures
        r@.len() == 3 * face_num,
        forall|k: int| 0 <= k < 3 * face_num ==> #[trigger] r@[k] == array@[face_addr * 3 + k],
{
    proof {
        assert(array@.len() == array.len());
        assert(face_addr + face_num <= (face_addr + face_num) * 3 || face_addr + face_num == 0)
            by (nonlinear_arith);
    }
    let mut out: Vec<u32> = Vec::new();
    let mut j: usize = face_addr;
    while j < face_addr + face_num
        invariant
            face_addr <= j <= face_addr + face_num,
            (face_addr + face_num) * 3 <= array@.len(),
            array@.len() <= usize::MAX,
            face_addr + face_num <= usize::MAX,
            forall|p: int|
                face_addr * 3 <= p < (face_addr + face_num) * 3 ==> 0 <= #[trigger] array@[p],
            out@.len() == 3 * (j - face_addr),
            forall|k: int|
                0 <= k < out@.len() ==> #[trigger] out@[k] == array@[face_addr * 3 + k],
        decreases face_addr + face_num - j,
    {
        proof {
            assert(j * 3 + 3 <= (face_addr + face_num) * 3 && face_addr * 3 <= j * 3) by (
            nonlinear_arith)
                requires
                    face_addr <= j < face_addr + face_num,
            ;
        }
        let base: usize = j * 3;
        proof {
            assert(base + 2 < array@.len());
        }
        out.push(array[base] as u32);
        out.push(array[base + 1] as u32);
        out.push(array[base + 2] as u32);
        j = j + 1;
    }
    out
}

} // verus!
