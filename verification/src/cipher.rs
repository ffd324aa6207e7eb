//! The block cipher and the chained-block mode built on it.
//!
//! AES-256 itself is an outside capability: one block in, one block out.
//! The chaining, which is this library's own, is specified and proved here
//! over names for what the cipher returns.

use aes::cipher::generic_array::GenericArray;
use aes::cipher::{BlockDecrypt, BlockEncrypt, KeyInit};
use vstd::prelude::*;

verus! {

/// The block that AES-256 encryption gives for a key and a block.
pub uninterp spec fn aes256_encrypt(key: Seq<u8>, block: Seq<u8>) -> Seq<u8>;

/// The block that AES-256 decryption gives for a key and a block.
pub uninterp spec fn aes256_decrypt(key: Seq<u8>, block: Seq<u8>) -> Seq<u8>;

/// `aes::Aes256` made with `KeyInit::new` from the key, then
/// `BlockEncrypt::encrypt_block` on a copy of the block. The result is a
/// function of key and block alone, and decrypting it under the same key
/// gives the block back.
#[verifier::external_body]
fn encrypt_block(key: &[u8; 32], block: &[u8; 16]) -> (r: [u8; 16])
    ensures
        r@ == aes256_encrypt(key@, block@),
        aes256_decrypt(key@, r@) == block@,
{
    let cipher = aes::Aes256::new(GenericArray::from_slice(key));
    let mut b = GenericArray::clone_from_slice(block);
    cipher.encrypt_block(&mut b);
    b.into()
}

/// `aes::Aes256` made with `KeyInit::new` from the key, then
/// `BlockDecrypt::decrypt_block` on a copy of the block. The result is a
/// function of key and block alone.
#[verifier::external_body]
fn decrypt_block(key: &[u8; 32], block: &[u8; 16]) -> (r: [u8; 16])
    ensures
        r@ == aes256_decrypt(key@, block@),
{
    let cipher = aes::Aes256::new(GenericArray::from_slice(key));
    let mut b = GenericArray::clone_from_slice(block);
    cipher.decrypt_block(&mut b);
    b.into()
}

/// The `k`-th block of 16 bytes of `data`.
pub open spec fn block(data: Seq<u8>, k: int) -> Seq<u8> {
    data.subrange(16 * k, 16 * k + 16)
}

/// Bytewise exclusive or of two blocks.
pub open spec fn xor_block(a: Seq<u8>, b: Seq<u8>) -> Seq<u8> {
    Seq::new(16, |i: int| a[i] ^ b[i])
}

/// The `k`-th block of the chained encryption of `data`: the encryption of
/// the `k`-th data block mixed with the block before it, which for the
/// first block is the initialisation vector.
pub open spec fn cbc_block(key: Seq<u8>, iv: Seq<u8>, data: Seq<u8>, k: int) -> Seq<u8>
    decreases k + 1,
{
    if k < 0 {
        iv
    } else {
        aes256_encrypt(key, xor_block(block(data, k), cbc_block(key, iv, data, k - 1)))
    }
}

/// Chained-block encryption of `data`, whose length is a multiple of 16.
pub open spec fn cbc_encrypt(key: Seq<u8>, iv: Seq<u8>, data: Seq<u8>) -> Seq<u8> {
    Seq::new(data.len(), |j: int| cbc_block(key, iv, data, j / 16)[j % 16])
}

/// The block that precedes block `k` of a ciphertext in the chain.
pub open spec fn chained_before(iv: Seq<u8>, data: Seq<u8>, k: int) -> Seq<u8> {
    if k <= 0 {
        iv
    } else {
        block(data, k - 1)
    }
}

/// The `k`-th block of the chained decryption of `data`.
pub open spec fn cbc_plain_block(key: Seq<u8>, iv: Seq<u8>, data: Seq<u8>, k: int) -> Seq<u8> {
    xor_block(aes256_decrypt(key, block(data, k)), chained_before(iv, data, k))
}

/// Chained-block decryption of `data`, whose length is a multiple of 16.
pub open spec fn cbc_decrypt(key: Seq<u8>, iv: Seq<u8>, data: Seq<u8>) -> Seq<u8> {
    Seq::new(data.len(), |j: int| cbc_plain_block(key, iv, data, j / 16)[j % 16])
}

/// The authentication tag of `data`: the last block of its chained
/// encryption.
pub open spec fn cbc_tag(key: Seq<u8>, iv: Seq<u8>, data: Seq<u8>) -> Seq<u8> {
    cbc_block(key, iv, data, data.len() / 16 - 1)
}

/// Block `k` of the chain is a full block that decrypts to what went into
/// the cipher.
pub open spec fn chain_inverts(key: Seq<u8>, iv: Seq<u8>, data: Seq<u8>, k: int) -> bool {
    &&& cbc_block(key, iv, data, k).len() == 16
    &&& aes256_decrypt(key, cbc_block(key, iv, data, k)) == xor_block(
        block(data, k),
        cbc_block(key, iv, data, k - 1),
    )
}

/// Every block of the chain over `data` is a full block that decrypts to
/// what went into the cipher. The functions that run the chain establish
/// this of their input.
pub open spec fn chain_invertible(key: Seq<u8>, iv: Seq<u8>, data: Seq<u8>) -> bool {
    forall|k: int| 0 <= k < data.len() / 16 ==> #[trigger] chain_inverts(key, iv, data, k)
}

/// Mixing a block in twice gives the first block back.
pub proof fn lemma_xor_twice(a: Seq<u8>, b: Seq<u8>)
    requires
        a.len() == 16,
    ensures
        xor_block(xor_block(a, b), b) == a,
{
    assert forall|i: int| 0 <= i < 16 implies xor_block(xor_block(a, b), b)[i] == a[i] by {
        let x = a[i];
        let y = b[i];
        assert((x ^ y) ^ y == x) by (bit_vector);
    }
    assert(xor_block(xor_block(a, b), b) =~= a);
}

/// Two different blocks stay different when the same block is mixed in.
pub proof fn lemma_xor_keeps_difference(a: Seq<u8>, b: Seq<u8>, c: Seq<u8>)
    requires
        a.len() == 16,
        b.len() == 16,
        a != b,
    ensures
        xor_block(a, c) != xor_block(b, c),
        xor_block(c, a) != xor_block(c, b),
{
    if xor_block(a, c) == xor_block(b, c) {
        lemma_xor_twice(a, c);
        lemma_xor_twice(b, c);
    }
    if xor_block(c, a) == xor_block(c, b) {
        assert forall|i: int| 0 <= i < 16 implies a[i] == b[i] by {
            let x = a[i];
            let y = b[i];
            let z = c[i];
            assert(xor_block(c, a)[i] == xor_block(c, b)[i]);
            assert((z ^ x == z ^ y) ==> x == y) by (bit_vector);
        }
        assert(a =~= b);
    }
}

/// Copies block `k` out of `data`.
pub fn take_block(data: &[u8], k: usize) -> (r: [u8; 16])
    requires
        16 * k + 16 <= data@.len(),
    ensures
        r@ == block(data@, k as int),
{
    let mut r = [0u8;16];
    let mut m: usize = 0;
    let len = data.len();
    while m < 16
        invariant
            m <= 16,
            16 * k + 16 <= data@.len() == len,
            forall|j: int| 0 <= j < m ==> r@[j] == data@[16 * k + j],
        decreases 16 - m,
    {
        r[m] = data[16 * k + m];
        m += 1;
    }
    proof {
        assert(r@ =~= block(data@, k as int));
    }
    r
}

/// Bytewise exclusive or of two blocks.
pub fn xor_blocks(a: &[u8; 16], b: &[u8; 16]) -> (r: [u8; 16])
    ensures
        r@ == xor_block(a@, b@),
{
    let mut r = [0u8;16];
    let mut m: usize = 0;
    while m < 16
        invariant
            m <= 16,
            forall|j: int| 0 <= j < m ==> r@[j] == a@[j] ^ b@[j],
        decreases 16 - m,
    {
        r[m] = a[m] ^ b[m];
        m += 1;
    }
    proof {
        assert(r@ =~= xor_block(a@, b@));
    }
    r
}

/// Encrypts `data` in chained-block mode under `key`, starting the chain
/// at `iv`. Decrypting the result with the same key and vector gives `data`
/// back.
pub fn cbc_encrypt_buffer(key: &[u8; 32], iv: &[u8; 16], data: &[u8]) -> (out: Vec<u8>)
    requires
        data@.len() % 16 == 0,
    ensures
        out@ == cbc_encrypt(key@, iv@, data@),
        out@.len() == data@.len(),
        cbc_decrypt(key@, iv@, out@) == data@,
        chain_invertible(key@, iv@, data@),
{
    let n = data.len() / 16;
    let mut out: Vec<u8> = Vec::new();
    let mut prev: [u8; 16] = *iv;
    let mut i: usize = 0;
    while i < n
        invariant
            i <= n,
            n * 16 == data@.len(),
            out@.len() == 16 * i,
            prev@ == cbc_block(key@, iv@, data@, i - 1),
            forall|j: int| 0 <= j < 16 * i ==> out@[j] == cbc_block(key@, iv@, data@, j / 16)[j % 16],
            forall|k: int| 0 <= k < i ==> #[trigger] chain_inverts(key@, iv@, data@, k),
        decreases n - i,
    {
        let plain = take_block(data, i);
        let mixed = xor_blocks(&plain, &prev);
        let c = encrypt_block(key, &mixed);
        let mut m: usize = 0;
        while m < 16
            invariant
                m <= 16,
                i < n,
                out@.len() == 16 * i + m,
                c@ == cbc_block(key@, iv@, data@, i as int),
                forall|j: int|
                    0 <= j < 16 * i + m ==> out@[j] == cbc_block(key@, iv@, data@, j / 16)[j % 16],
            decreases 16 - m,
        {
            out.push(c[m]);
            m += 1;
        }
        proof {
            assert(chain_inverts(key@, iv@, data@, i as int));
        }
        prev = c;
        i += 1;
    }
    proof {
        assert(out@ =~= cbc_encrypt(key@, iv@, data@));
        assert forall|j: int| 0 <= j < data@.len() implies cbc_decrypt(key@, iv@, out@)[j]
            == data@[j] by {
            let k = j / 16;
            assert(chain_inverts(key@, iv@, data@, k));
            assert(block(out@, k) =~= cbc_block(key@, iv@, data@, k));
            if k > 0 {
                assert(chain_inverts(key@, iv@, data@, k - 1));
                assert(block(out@, k - 1) =~= cbc_block(key@, iv@, data@, k - 1));
            }
            assert(chained_before(iv@, out@, k) == cbc_block(key@, iv@, data@, k - 1));
            lemma_xor_twice(block(data@, k), cbc_block(key@, iv@, data@, k - 1));
            assert(block(data@, k)[j % 16] == data@[j]);
        }
        assert(cbc_decrypt(key@, iv@, out@) =~= data@);
    }
    out
}

/// Decrypts `data` in chained-block mode under `key`, the chain starting at
/// `iv`.
pub fn cbc_decrypt_buffer(key: &[u8; 32], iv: &[u8; 16], data: &[u8]) -> (out: Vec<u8>)
    requires
        data@.len() % 16 == 0,
    ensures
        out@ == cbc_decrypt(key@, iv@, data@),
        out@.len() == data@.len(),
{
    let n = data.len() / 16;
    let mut out: Vec<u8> = Vec::new();
    let mut prev: [u8; 16] = *iv;
    let mut i: usize = 0;
    while i < n
        invariant
            i <= n,
            n * 16 == data@.len(),
            out@.len() == 16 * i,
            prev@ == chained_before(iv@, data@, i as int),
            forall|j: int|
                0 <= j < 16 * i ==> out@[j] == cbc_plain_block(key@, iv@, data@, j / 16)[j % 16],
        decreases n - i,
    {
        let c = take_block(data, i);
        let d = decrypt_block(key, &c);
        let p = xor_blocks(&d, &prev);
        let mut m: usize = 0;
        while m < 16
            invariant
                m <= 16,
                i < n,
                out@.len() == 16 * i + m,
                p@ == cbc_plain_block(key@, iv@, data@, i as int),
                forall|j: int|
                    0 <= j < 16 * i + m ==> out@[j] == cbc_plain_block(key@, iv@, data@, j / 16)[j
                        % 16],
            decreases 16 - m,
        {
            out.push(p[m]);
            m += 1;
        }
        prev = c;
        i += 1;
    }
    proof {
        assert(out@ =~= cbc_decrypt(key@, iv@, data@));
    }
    out
}

/// The authentication tag of `data` under `key` and `iv`: `data` is
/// encrypted in chained-block mode and the last block is kept.
pub fn cbc_mac(key: &[u8; 32], iv: &[u8; 16], data: &[u8]) -> (tag: [u8; 16])
    requires
        data@.len() % 16 == 0,
        data@.len() >= 16,
    ensures
        tag@ == cbc_tag(key@, iv@, data@),
        chain_invertible(key@, iv@, data@),
{
    let encrypted = cbc_encrypt_buffer(key, iv, data);
    let last = data.len() / 16 - 1;
    let tag = take_block(encrypted.as_slice(), last);
    proof {
        assert(chain_inverts(key@, iv@, data@, last as int));
        assert(block(encrypted@, last as int) =~= cbc_block(key@, iv@, data@, last as int));
    }
    tag
}

/// A change confined to one block of the data changes the tag, where both
/// chains are invertible: every block of the chain from the changed one on
/// differs, the last one too.
pub proof fn lemma_tag_detects_block_change(
    key: Seq<u8>,
    iv: Seq<u8>,
    a: Seq<u8>,
    b: Seq<u8>,
    at: int,
)
    requires
        a.len() == b.len(),
        a.len() % 16 == 0,
        iv.len() == 16,
        0 <= at < a.len() / 16,
        block(a, at) != block(b, at),
        forall|k: int| 0 <= k < a.len() / 16 && k != at ==> block(a, k) == block(b, k),
    ensures
        chain_invertible(key, iv, a) && chain_invertible(key, iv, b) ==> cbc_tag(key, iv, a)
            != cbc_tag(key, iv, b),
{
    if chain_invertible(key, iv, a) && chain_invertible(key, iv, b) {
        lemma_chain_diverges(key, iv, a, b, at, a.len() / 16 - 1);
    }
}

/// The chains of two inputs that first differ in block `at` agree before
/// it and differ in every block from it on.
proof fn lemma_chain_diverges(key: Seq<u8>, iv: Seq<u8>, a: Seq<u8>, b: Seq<u8>, at: int, k: int)
    requires
        chain_invertible(key, iv, a),
        chain_invertible(key, iv, b),
        a.len() == b.len(),
        a.len() % 16 == 0,
        iv.len() == 16,
        0 <= at < a.len() / 16,
        -1 <= k < a.len() / 16,
        block(a, at) != block(b, at),
        forall|m: int| 0 <= m < a.len() / 16 && m != at ==> block(a, m) == block(b, m),
    ensures
        cbc_block(key, iv, a, k).len() == 16,
        cbc_block(key, iv, b, k).len() == 16,
        k < at ==> cbc_block(key, iv, a, k) == cbc_block(key, iv, b, k),
        k >= at ==> cbc_block(key, iv, a, k) != cbc_block(key, iv, b, k),
    decreases k + 1,
{
    if k >= 0 {
        lemma_chain_diverges(key, iv, a, b, at, k - 1);
        let pa = cbc_block(key, iv, a, k - 1);
        let pb = cbc_block(key, iv, b, k - 1);
        let xa = xor_block(block(a, k), pa);
        let xb = xor_block(block(b, k), pb);
        assert(chain_inverts(key, iv, a, k));
        assert(chain_inverts(key, iv, b, k));
        if k == at {
            lemma_xor_keeps_difference(block(a, k), block(b, k), pa);
            assert(xa != xb);
        } else if k > at {
            assert(block(a, k) == block(b, k));
            lemma_xor_keeps_difference(pa, pb, block(a, k));
            assert(xa != xb);
        }
    }
}

} // verus!
