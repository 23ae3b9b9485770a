//! Index arithmetic and block copies for byte rings.

use vstd::arithmetic::div_mod::{lemma_fundamental_div_mod, lemma_fundamental_div_mod_converse};
use vstd::prelude::*;

verus! {

/// The ring slot of the stream position `a + i`, as seen from the slot of `a`.
pub open spec fn slot(a: int, i: int, n: int) -> int {
    if a % n + i < n {
        a % n + i
    } else {
        a % n + i - n
    }
}

/// The `len` bytes of the ring `buf` that start at the stream position `from`.
pub open spec fn ring_read(buf: Seq<u8>, from: int, len: int) -> Seq<u8> {
    Seq::new(len as nat, |k: int| buf[slot(from, k, buf.len() as int)])
}

/// The ring `buf` after `bytes` were stored at the stream position `from`.
pub open spec fn ring_write(buf: Seq<u8>, from: int, bytes: Seq<u8>) -> Seq<u8> {
    Seq::new(
        buf.len(),
        |j: int|
            {
                let n = buf.len() as int;
                let k = if j >= from % n {
                    j - from % n
                } else {
                    j - from % n + n
                };
                if k < bytes.len() {
                    bytes[k]
                } else {
                    buf[j]
                }
            },
    )
}

/// Position `a + i` of the stream lives in slot `(a + i) % n`.
pub proof fn lemma_slot_is_mod(a: int, i: int, n: int)
    requires
        0 < n,
        0 <= a,
        0 <= i < n,
    ensures
        slot(a, i, n) == (a + i) % n,
        0 <= slot(a, i, n) < n,
{
    let q = a / n;
    let r = a % n;
    lemma_fundamental_div_mod(a, n);
    vstd::arithmetic::div_mod::lemma_mod_bound(a, n);
    if r + i < n {
        assert(a + i == q * n + (r + i)) by (nonlinear_arith)
            requires
                a == n * q + r,
        ;
        lemma_fundamental_div_mod_converse(a + i, n, q, r + i);
    } else {
        assert(a + i == (q + 1) * n + (r + i - n)) by (nonlinear_arith)
            requires
                a == n * q + r,
        ;
        lemma_fundamental_div_mod_converse(a + i, n, q + 1, r + i - n);
    }
}

/// Slots compose: the slot of `a + d + i` can be found from `a` or from `a + d`.
pub proof fn lemma_slot_shift(a: int, d: int, i: int, n: int)
    requires
        0 < n,
        0 <= a,
        0 <= d,
        0 <= i,
        d + i < n,
    ensures
        slot(a + d, i, n) == slot(a, d + i, n),
{
    lemma_slot_is_mod(a + d, i, n);
    lemma_slot_is_mod(a, d + i, n);
}

/// What a write of `bytes` at `a + d` does to the `n` bytes that start at `a`.
pub proof fn lemma_write_window(buf: Seq<u8>, a: int, d: int, bytes: Seq<u8>)
    requires
        0 < buf.len(),
        0 <= a,
        0 <= d,
        d + bytes.len() <= buf.len(),
    ensures
        ring_write(buf, a + d, bytes).len() == buf.len(),
        forall|k: int|
            0 <= k < buf.len() ==> #[trigger] ring_read(
                ring_write(buf, a + d, bytes),
                a,
                buf.len() as int,
            )[k] == (if d <= k < d + bytes.len() {
                bytes[k - d]
            } else {
                ring_read(buf, a, buf.len() as int)[k]
            }),
{
    let n = buf.len() as int;
    let after = ring_write(buf, a + d, bytes);
    assert forall|k: int| 0 <= k < n implies #[trigger] ring_read(after, a, n)[k] == (if d <= k < d
        + bytes.len() {
        bytes[k - d]
    } else {
        ring_read(buf, a, n)[k]
    }) by {
        let j = slot(a, k, n);
        lemma_slot_is_mod(a, k, n);
        vstd::arithmetic::div_mod::lemma_mod_bound(a + d, n);
        if d <= k {
            lemma_slot_shift(a, d, k - d, n);
            assert(j == slot(a + d, k - d, n));
        } else {
            lemma_slot_is_mod(a + d, k - d + n, n);
            vstd::arithmetic::div_mod::lemma_mod_add_multiples_vanish(a + k, n);
            assert(j == slot(a + d, k - d + n, n));
        }
    }
}

/// Moving the start of a full turn forward by `m` rotates what it reads.
pub proof fn lemma_read_rotates(buf: Seq<u8>, a: int, m: int)
    requires
        0 < buf.len(),
        0 <= a,
        0 <= m <= buf.len(),
    ensures
        ring_read(buf, a + m, buf.len() as int) == ring_read(buf, a, buf.len() as int).subrange(
            m,
            buf.len() as int,
        ) + ring_read(buf, a, buf.len() as int).subrange(0, m),
{
    let n = buf.len() as int;
    let before = ring_read(buf, a, n);
    assert forall|k: int| 0 <= k < n implies #[trigger] ring_read(buf, a + m, n)[k] == (before
        .subrange(m, n) + before.subrange(0, m))[k] by {
        if m + k < n {
            lemma_slot_shift(a, m, k, n);
        } else {
            lemma_slot_is_mod(a + m, k, n);
            lemma_slot_is_mod(a, m + k - n, n);
            vstd::arithmetic::div_mod::lemma_mod_add_multiples_vanish(a + m + k - n, n);
        }
    }
    assert(ring_read(buf, a + m, n) =~= before.subrange(m, n) + before.subrange(0, m));
}

/// Copies all of `src` into `dst`, starting at `at`.
pub fn copy_block(dst: &mut [u8], at: usize, src: &[u8])
    requires
        at + src@.len() <= old(dst)@.len(),
    ensures
        final(dst)@.len() == old(dst)@.len(),
        forall|j: int|
            0 <= j < final(dst)@.len() ==> #[trigger] final(dst)@[j] == (if at <= j < at
                + src@.len() {
                src@[j - at]
            } else {
                old(dst)@[j]
            }),
{
    let n: usize = src.len();
    let total: usize = dst.len();
    let mut i: usize = 0;
    while i < n
        invariant
            i <= n,
            n == src@.len(),
            total == dst@.len(),
            at + n <= total,
            dst@.len() == old(dst)@.len(),
            forall|j: int|
                0 <= j < dst@.len() ==> #[trigger] dst@[j] == (if at <= j < at + i {
                    src@[j - at]
                } else {
                    old(dst)@[j]
                }),
        decreases n - i,
    {
        dst[at + i] = src[i];
        i = i + 1;
    }
}

/// Stores `bytes` in the ring `buf` at the stream position `from`.
pub fn store(buf: &mut Vec<u8>, from: usize, bytes: &[u8])
    requires
        0 < old(buf)@.len(),
        bytes@.len() <= old(buf)@.len(),
    ensures
        final(buf)@ == ring_write(old(buf)@, from as int, bytes@),
{
    let size: usize = buf.len();
    let start: usize = from % size;
    // Either all bytes, or up to the end of the ring.
    let to_write: usize = if bytes.len() < size - start {
        bytes.len()
    } else {
        size - start
    };
    copy_block(buf.as_mut_slice(), start, &bytes[0..to_write]);
    if to_write < bytes.len() {
        // The rest goes to the beginning of the ring.
        copy_block(buf.as_mut_slice(), 0, &bytes[to_write..bytes.len()]);
    }
    assert(buf@ =~= ring_write(old(buf)@, from as int, bytes@));
}

} // verus!
