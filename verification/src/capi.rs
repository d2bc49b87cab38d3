//! The boundary protocols around the encoder.
//!
//! Two calling conventions carry an encode result to a caller that cannot be
//! trusted with ownership or buffer sizes. The handle protocol (`construct`,
//! `release`) wraps the result in an [`OpaqueHandle`] that must be released
//! exactly once; here ownership of the handle value enforces that discipline.
//! The caller-buffer protocol (`encode_into`) encodes the string the caller
//! has staged in its own buffer, negotiating the required capacity through a
//! single read/write count and never touching the buffer beyond the offered
//! capacity.
//!
//! A nullable pointer of the foreign interface appears here as an `Option`;
//! the raw-pointer shell itself lives outside the library.

use vstd::prelude::*;

use crate::encoding::{encode, encoded, EncodedResult};

verus! {

/// Capacities and encoded lengths above this bound do not fit the signed
/// pointer-offset type the foreign caller uses; the buffer protocol refuses
/// them rather than overflow.
pub const CAP_LIMIT: usize = usize::MAX / 2;

/// The index of the first zero byte of `s` at or after `i` and below `bound`,
/// or `bound` when there is none.
pub open spec fn nul_scan(s: Seq<u8>, i: int, bound: int) -> int
    decreases bound - i,
{
    if i >= bound {
        bound
    } else if s[i] == 0 {
        i
    } else {
        nul_scan(s, i + 1, bound)
    }
}

pub proof fn lemma_nul_scan_props(s: Seq<u8>, i: int, bound: int)
    requires
        0 <= i <= bound,
    ensures
        i <= nul_scan(s, i, bound) <= bound,
        nul_scan(s, i, bound) < bound ==> s[nul_scan(s, i, bound)] == 0,
        forall|k: int| i <= k < nul_scan(s, i, bound) ==> s[k] != 0,
    decreases bound - i,
{
    if i < bound && s[i] != 0 {
        lemma_nul_scan_props(s, i + 1, bound);
    }
}

/// The string the caller staged in the buffer: the bytes before the first
/// terminator found within the offered capacity.
pub open spec fn staged(buffer: Seq<u8>, cap: int) -> Seq<u8> {
    buffer.take(nul_scan(buffer, 0, cap))
}

/// A terminator stands within the offered capacity, so the staged string has
/// a definite length.
pub open spec fn has_terminator(buffer: Seq<u8>, cap: int) -> bool {
    nul_scan(buffer, 0, cap) < cap
}

/// The capacity a buffer needs to receive the encoding of `content` and its
/// terminator.
pub open spec fn required_capacity(content: Seq<u8>) -> int {
    encoded(content).len() + 1 as int
}

/// The encoding of `content` plus a terminator fits a buffer of capacity
/// `cap`, and its length is representable.
pub open spec fn encode_fits(content: Seq<u8>, cap: int) -> bool {
    encoded(content).len() <= CAP_LIMIT && encoded(content).len() < cap
}

/// A stable container for one encode result, handed across the boundary and
/// owned by the caller until given back to [`release`]. Releasing it twice,
/// or using it after release, is ruled out here by ownership of the value.
pub struct OpaqueHandle {
    pub result: EncodedResult,
}

/// The bytes the caller will take for `input`, through `construct`'s `len`
/// convention: zero means "up to the terminator", anything else is trusted
/// as the exact length.
pub open spec fn construct_input(b: Seq<u8>, len: int) -> Seq<u8> {
    if len == 0 {
        b.take(nul_scan(b, 0, b.len() as int))
    } else {
        b.take(len)
    }
}

/// Returns the index of the first zero byte of `b` below `bound`, or `bound`
/// when there is none.
fn scan_nul(b: &Vec<u8>, bound: usize) -> (r: usize)
    requires
        bound <= b@.len(),
    ensures
        r == nul_scan(b@, 0, bound as int),
{
    let mut j: usize = 0;
    while j < bound
        invariant
            j <= bound,
            bound <= b@.len(),
            nul_scan(b@, 0, bound as int) == nul_scan(b@, j as int, bound as int),
        decreases bound - j,
    {
        if b[j] == 0 {
            return j;
        }
        proof {
            assert(nul_scan(b@, j as int, bound as int) == nul_scan(b@, j + 1, bound as int));
        }
        j += 1;
    }
    j
}

/// Copies the first `n` bytes of `b` into a fresh buffer.
fn copy_prefix(b: &Vec<u8>, n: usize) -> (r: Vec<u8>)
    requires
        n <= b@.len(),
    ensures
        r@ == b@.take(n as int),
{
    let mut out: Vec<u8> = Vec::new();
    let mut i: usize = 0;
    while i < n
        invariant
            i <= n,
            n <= b@.len(),
            out@ == b@.take(i as int),
        decreases n - i,
    {
        out.push(b[i]);
        proof {
            assert(b@.take(i + 1) =~= b@.take(i as int).push(b@[i as int]));
        }
        i += 1;
    }
    out
}

/// Encodes the given bytes and wraps the result in a fresh handle. A missing
/// input yields no handle and no allocation. With `len == 0` the input is
/// read up to its first terminator, which must exist; otherwise exactly `len`
/// bytes are taken, which must all be there.
pub fn construct(input: Option<&Vec<u8>>, len: usize) -> (r: Option<OpaqueHandle>)
    requires
        input matches Some(b) ==> (if len == 0 {
            exists|i: int| 0 <= i < b@.len() && b@[i] == 0
        } else {
            len <= b@.len()
        }),
    ensures
        r is Some <==> input is Some,
        input matches Some(b) ==> (r matches Some(h) && {
            let content = construct_input(b@, len as int);
            &&& h.result.bytes_spec(content) == encoded(content)
            &&& (h.result.is_borrowed() <==> encoded(content) == content)
        }),
{
    match input {
        None => None,
        Some(b) => {
            let content: Vec<u8> = if len == 0 {
                proof {
                    lemma_nul_scan_props(b@, 0, b@.len() as int);
                }
                let end: usize = scan_nul(b, b.len());
                copy_prefix(b, end)
            } else {
                copy_prefix(b, len)
            };
            let result = encode(&content);
            Some(OpaqueHandle { result })
        },
    }
}

/// Takes a handle back and reclaims its storage, together with any owned
/// allocation inside the wrapped result; accepts `None` as a no-op. A handle
/// can only be given back once, since the call consumes it.
pub fn release(handle: Option<OpaqueHandle>) {
    let _ = handle;
}

/// Encodes the string the caller staged in `buf` into `buf` itself.
///
/// On entry `*cap` offers the capacity of `buf` the caller vouches for; the
/// staged string is read up to its terminator within that capacity. When the
/// encoding and a terminator fit, they replace the staged bytes and `*cap`
/// reports the bytes written plus one, with return value 0. When they do not
/// fit, `*cap` reports the capacity a retry needs and the buffer is left
/// untouched, with return value -1. A missing input, a missing terminator,
/// or an unrepresentable encoded length also return -1 and leave both the
/// buffer and `*cap` untouched. Bytes at or beyond the offered capacity are
/// never written.
pub fn encode_into(input: Option<&Vec<u8>>, buf: &mut Vec<u8>, cap: &mut usize) -> (r: i32)
    requires
        input is Some ==> *old(cap) <= old(buf)@.len(),
    ensures
        final(buf)@.len() == old(buf)@.len(),
        forall|i: int|
            *old(cap) <= i < old(buf)@.len() ==> final(buf)@[i] == old(buf)@[i],
        r == 0 || r == -1,
        input is None ==> r == -1 && final(buf)@ == old(buf)@ && *final(cap) == *old(cap),
        input is Some && !has_terminator(old(buf)@, *old(cap) as int) ==> r == -1 && final(buf)@
            == old(buf)@ && *final(cap) == *old(cap),
        input is Some && has_terminator(old(buf)@, *old(cap) as int) ==> {
            let content = staged(old(buf)@, *old(cap) as int);
            let l = encoded(content).len();
            &&& (l > CAP_LIMIT ==> r == -1 && final(buf)@ == old(buf)@ && *final(cap) == *old(
                cap,
            ))
            &&& (l <= CAP_LIMIT ==> *final(cap) == l + 1)
            &&& (l <= CAP_LIMIT && l >= *old(cap) ==> r == -1 && final(buf)@ == old(buf)@)
            &&& (encode_fits(content, *old(cap) as int) ==> r == 0 && final(buf)@ == encoded(
                content,
            ) + seq![0u8] + old(buf)@.skip(l + 1 as int))
        },
        r == 0 <==> input is Some && has_terminator(old(buf)@, *old(cap) as int) && encode_fits(
            staged(old(buf)@, *old(cap) as int),
            *old(cap) as int,
        ),
{
    if input.is_none() {
        return -1;
    }
    let cap0: usize = *cap;
    proof {
        lemma_nul_scan_props(buf@, 0, cap0 as int);
    }
    let shared: &Vec<u8> = buf;
    let n: usize = scan_nul(shared, cap0);
    if n >= cap0 {
        // no terminator within the offered capacity: the staged string has
        // no definite length, so nothing is encoded and nothing is written
        return -1;
    }
    let content: Vec<u8> = copy_prefix(shared, n);
    let res: EncodedResult = encode(&content);
    let enc: Vec<u8> = res.into_bytes(content);
    let l: usize = enc.len();
    if l > CAP_LIMIT {
        return -1;
    }
    *cap = l + 1;
    if l >= cap0 {
        return -1;
    }
    let mut i: usize = 0;
    while i < l
        invariant
            i <= l,
            l < cap0,
            cap0 <= buf@.len(),
            l == enc@.len(),
            buf@.len() == old(buf)@.len(),
            forall|k: int| 0 <= k < i ==> buf@[k] == enc@[k],
            forall|k: int| i <= k < buf@.len() ==> buf@[k] == old(buf)@[k],
        decreases l - i,
    {
        buf[i] = enc[i];
        i += 1;
    }
    buf[l] = 0;
    proof {
        assert(final(buf)@ =~= enc@ + seq![0u8] + old(buf)@.skip(l + 1 as int));
    }
    0
}

/// After a size failure, the capacity the call wrote back is exactly enough:
/// a retry that stages the same content and offers that capacity succeeds.
pub proof fn lemma_capacity_retry(content: Seq<u8>, cap: int)
    requires
        encoded(content).len() <= CAP_LIMIT,
        encoded(content).len() >= cap,
    ensures
        encode_fits(content, required_capacity(content)),
{
}

/// A buffer that holds `content` followed by a terminator stages exactly
/// `content`, whatever comes after the terminator.
pub proof fn lemma_staged_of_terminated(buffer: Seq<u8>, content: Seq<u8>, cap: int)
    requires
        content.len() < cap <= buffer.len(),
        forall|k: int| 0 <= k < content.len() ==> content[k] != 0,
        buffer.take(content.len() as int) == content,
        buffer[content.len() as int] == 0,
    ensures
        has_terminator(buffer, cap),
        staged(buffer, cap) == content,
{
    assert forall|k: int| 0 <= k < content.len() implies buffer[k] != 0 by {
        assert(buffer.take(content.len() as int)[k] == buffer[k]);
    }
    lemma_nul_scan_shape(buffer, 0, cap, content.len() as int);
    assert(staged(buffer, cap) == buffer.take(content.len() as int));
}

/// The capacity written back after a size failure is the whole truth: when a
/// call on `oldbuf` with capacity `oldcap` failed for size, a buffer that
/// stages the same string and offers exactly the reported capacity satisfies
/// the success condition of [`encode_into`].
pub proof fn lemma_retry_succeeds(oldbuf: Seq<u8>, oldcap: int, newbuf: Seq<u8>, newcap: int)
    requires
        0 <= oldcap <= oldbuf.len(),
        has_terminator(oldbuf, oldcap),
        encoded(staged(oldbuf, oldcap)).len() <= CAP_LIMIT,
        encoded(staged(oldbuf, oldcap)).len() >= oldcap,
        newcap == required_capacity(staged(oldbuf, oldcap)),
        newcap <= newbuf.len(),
        newbuf.take(staged(oldbuf, oldcap).len() as int) == staged(oldbuf, oldcap),
        newbuf[staged(oldbuf, oldcap).len() as int] == 0,
    ensures
        has_terminator(newbuf, newcap),
        staged(newbuf, newcap) == staged(oldbuf, oldcap),
        encode_fits(staged(newbuf, newcap), newcap),
{
    let content = staged(oldbuf, oldcap);
    lemma_nul_scan_props(oldbuf, 0, oldcap);
    crate::encoding::lemma_encoded_len(content);
    assert(content.len() < newcap);
    assert(content.len() == nul_scan(oldbuf, 0, oldcap));
    assert forall|k: int| 0 <= k < content.len() implies content[k] != 0 by {
        assert(content[k] == oldbuf[k]);
        assert(oldbuf[k] != 0);
    }
    lemma_staged_of_terminated(newbuf, content, newcap);
    lemma_capacity_retry(content, oldcap);
}

/// An input the encoder leaves unchanged fits, with its terminator, in its
/// own length plus one: the round trip needs no extra capacity.
pub proof fn lemma_borrowed_no_extra_capacity(content: Seq<u8>)
    requires
        encoded(content) == content,
        content.len() <= CAP_LIMIT,
    ensures
        encode_fits(content, content.len() + 1 as int),
{
}

proof fn lemma_nul_scan_shape(s: Seq<u8>, i: int, bound: int, pos: int)
    requires
        0 <= i <= pos < bound <= s.len(),
        forall|k: int| i <= k < pos ==> s[k] != 0,
        s[pos] == 0,
    ensures
        nul_scan(s, i, bound) == pos,
    decreases pos - i,
{
    if i < pos {
        lemma_nul_scan_shape(s, i + 1, bound, pos);
    }
}

} // verus!
