//! How one entry travels during export and import: as its 96 stored bytes,
//! or sealed in an envelope of nonce, ciphertext and authentication tag.

use crate::buffer::{buffer_bytes, buffer_extend, buffer_new, buffer_slice};
use crate::cipher::{
    block, cbc_decrypt, cbc_decrypt_buffer, cbc_encrypt, cbc_encrypt_buffer, cbc_mac, cbc_tag,
    chain_invertible, chain_inverts, lemma_tag_detects_block_change, take_block,
};
use crate::password::{lemma_padded_full_width, lemma_trimmed_len, padded, ArrayString, PasswordItem};
use crate::status::Error;
use vstd::prelude::*;
use vstd::slice::slice_subrange;

verus! {

/// The plain form of an entry: the stored bytes of name, login and
/// password, one after the other.
pub open spec fn record_bytes(item: PasswordItem) -> Seq<u8> {
    item.name.raw() + item.login.raw() + item.pass.raw()
}

/// `item` is the entry that the 96 bytes `bytes` stand for: each field
/// holds its 32 bytes, zero padding at the end, as stored content.
pub open spec fn is_record_of(item: PasswordItem, bytes: Seq<u8>) -> bool {
    &&& item.name.raw() == padded(bytes.subrange(0, 32), 32)
    &&& item.login.raw() == padded(bytes.subrange(32, 64), 32)
    &&& item.pass.raw() == padded(bytes.subrange(64, 96), 32)
}

/// The entry that 96 plain bytes stand for.
pub open spec fn record_of(bytes: Seq<u8>) -> PasswordItem {
    PasswordItem {
        name: ArrayString::<32>::spec_from_bytes(bytes.subrange(0, 32)),
        login: ArrayString::<32>::spec_from_bytes(bytes.subrange(32, 64)),
        pass: ArrayString::<32>::spec_from_bytes(bytes.subrange(64, 96)),
    }
}

/// The nonce of an envelope.
pub open spec fn envelope_nonce(envelope: Seq<u8>) -> Seq<u8> {
    envelope.subrange(0, 16)
}

/// The ciphertext of an envelope.
pub open spec fn envelope_ciphertext(envelope: Seq<u8>) -> Seq<u8> {
    envelope.subrange(16, 112)
}

/// The tag of an envelope.
pub open spec fn envelope_tag(envelope: Seq<u8>) -> Seq<u8> {
    envelope.subrange(112, 128)
}

/// The envelope that seals `plain` under `key` with `nonce`: the nonce,
/// the chained encryption of `plain`, and as tag the last block of the
/// chained encryption of that ciphertext.
pub open spec fn sealed(key: Seq<u8>, nonce: Seq<u8>, plain: Seq<u8>) -> Seq<u8> {
    let ciphertext = cbc_encrypt(key, nonce, plain);
    nonce + ciphertext + cbc_tag(key, nonce, ciphertext)
}

/// The tag of the envelope is the one that its nonce and ciphertext give
/// under `key`.
pub open spec fn authentic(key: Seq<u8>, envelope: Seq<u8>) -> bool {
    envelope_tag(envelope) == cbc_tag(key, envelope_nonce(envelope), envelope_ciphertext(envelope))
}

/// The chain that gives the tag of the envelope is invertible under
/// `key`. Sealing an envelope and opening one both run that chain and
/// establish this.
pub open spec fn tag_chain_inverts(key: Seq<u8>, envelope: Seq<u8>) -> bool {
    chain_invertible(key, envelope_nonce(envelope), envelope_ciphertext(envelope))
}

/// The plain bytes inside an envelope.
pub open spec fn opened(key: Seq<u8>, envelope: Seq<u8>) -> Seq<u8> {
    cbc_decrypt(key, envelope_nonce(envelope), envelope_ciphertext(envelope))
}

/// An entry is the one that its own plain form stands for.
pub proof fn lemma_record_is_own(item: PasswordItem)
    ensures
        is_record_of(item, record_bytes(item)),
        record_of(record_bytes(item)) == item,
        record_bytes(item).len() == 96,
{
    item.name.lemma_raw_len();
    item.login.lemma_raw_len();
    item.pass.lemma_raw_len();
    let bytes = record_bytes(item);
    assert(bytes.subrange(0, 32) =~= item.name.raw());
    assert(bytes.subrange(32, 64) =~= item.login.raw());
    assert(bytes.subrange(64, 96) =~= item.pass.raw());
    lemma_padded_full_width(item.name.raw());
    lemma_padded_full_width(item.login.raw());
    lemma_padded_full_width(item.pass.raw());
    ArrayString::lemma_spec_from_bytes(item.name, bytes.subrange(0, 32));
    ArrayString::lemma_spec_from_bytes(item.login, bytes.subrange(32, 64));
    ArrayString::lemma_spec_from_bytes(item.pass, bytes.subrange(64, 96));
}

/// An envelope whose tag was changed is not authentic.
pub proof fn lemma_changed_tag_rejected(key: Seq<u8>, envelope: Seq<u8>, changed: Seq<u8>)
    requires
        envelope.len() == 128,
        changed.len() == 128,
        authentic(key, envelope),
        envelope_nonce(changed) == envelope_nonce(envelope),
        envelope_ciphertext(changed) == envelope_ciphertext(envelope),
        changed != envelope,
    ensures
        !authentic(key, changed),
{
    if envelope_tag(changed) == envelope_tag(envelope) {
        assert forall|i: int| 0 <= i < 128 implies changed[i] == envelope[i] by {
            if i < 16 {
                assert(changed[i] == envelope_nonce(changed)[i]);
                assert(envelope[i] == envelope_nonce(envelope)[i]);
            } else if i < 112 {
                assert(changed[i] == envelope_ciphertext(changed)[i - 16]);
                assert(envelope[i] == envelope_ciphertext(envelope)[i - 16]);
            } else {
                assert(changed[i] == envelope_tag(changed)[i - 112]);
                assert(envelope[i] == envelope_tag(envelope)[i - 112]);
            }
        }
        assert(changed =~= envelope);
    }
}

/// An envelope whose ciphertext was changed at one position, a single bit
/// or more of one byte, is not authentic. This holds of an envelope that
/// `encode_encrypted` made and a changed one that `decode_encrypted` is
/// given: each of the two establishes that the tag chain of its envelope
/// is invertible.
pub proof fn lemma_changed_ciphertext_rejected(
    key: Seq<u8>,
    envelope: Seq<u8>,
    changed: Seq<u8>,
    at: int,
)
    requires
        envelope.len() == 128,
        changed.len() == 128,
        authentic(key, envelope),
        16 <= at < 112,
        changed[at] != envelope[at],
        forall|i: int| 0 <= i < 128 && i != at ==> changed[i] == envelope[i],
    ensures
        tag_chain_inverts(key, envelope) && tag_chain_inverts(key, changed) ==> !authentic(
            key,
            changed,
        ),
{
    let nonce = envelope_nonce(envelope);
    let a = envelope_ciphertext(envelope);
    let b = envelope_ciphertext(changed);
    let k = (at - 16) / 16;
    assert(envelope_nonce(changed) =~= nonce);
    assert(envelope_tag(changed) =~= envelope_tag(envelope));
    assert(block(a, k)[(at - 16) % 16] == envelope[at]);
    assert(block(b, k)[(at - 16) % 16] == changed[at]);
    assert forall|m: int| 0 <= m < 6 && m != k implies block(a, m) == block(b, m) by {
        assert(block(a, m) =~= block(b, m));
    }
    lemma_tag_detects_block_change(key, nonce, a, b, k);
}

/// Appends the bytes of `src` to `out`.
pub fn append_bytes(out: &mut Vec<u8>, src: &[u8])
    ensures
        final(out)@ == old(out)@ + src@,
{
    let mut i: usize = 0;
    while i < src.len()
        invariant
            i <= src@.len(),
            out@ == old(out)@ + src@.take(i as int),
        decreases src@.len() - i,
    {
        out.push(src[i]);
        proof {
            assert(src@.take(i + 1) =~= src@.take(i as int).push(src@[i as int]));
            assert(out@ =~= old(out)@ + src@.take(i + 1));
        }
        i += 1;
    }
    proof {
        assert(src@.take(i as int) =~= src@);
    }
}

/// The plain form of an entry: 96 bytes that decode to the entry again.
pub fn encode_plain(item: &PasswordItem) -> (out: Vec<u8>)
    ensures
        out@ == record_bytes(*item),
        out@.len() == 96,
        record_of(out@) == *item,
{
    let mut out: Vec<u8> = Vec::new();
    append_bytes(&mut out, item.name.bytes().as_slice());
    append_bytes(&mut out, item.login.bytes().as_slice());
    append_bytes(&mut out, item.pass.bytes().as_slice());
    proof {
        assert(out@ =~= record_bytes(*item));
        lemma_record_is_own(*item);
    }
    out
}

/// The entry that 96 plain bytes stand for.
pub fn decode_plain(bytes: &[u8]) -> (item: PasswordItem)
    requires
        bytes@.len() == 96,
    ensures
        item == record_of(bytes@),
        is_record_of(item, bytes@),
{
    let name = slice_subrange(bytes, 0, 32);
    let login = slice_subrange(bytes, 32, 64);
    let pass = slice_subrange(bytes, 64, 96);
    proof {
        lemma_trimmed_len(name@);
        lemma_trimmed_len(login@);
        lemma_trimmed_len(pass@);
    }
    PasswordItem {
        name: ArrayString::from_bytes(name),
        login: ArrayString::from_bytes(login),
        pass: ArrayString::from_bytes(pass),
    }
}

/// Lays an entry out in a work buffer, in its plain form.
pub fn lay_out(item: &PasswordItem) -> (buffer: heapless::Vec<u8, 96>)
    ensures
        buffer_bytes(buffer) == record_bytes(*item),
        buffer_bytes(buffer).len() == 96,
{
    let mut buffer = buffer_new();
    proof {
        lemma_record_is_own(*item);
        item.name.lemma_raw_len();
        item.login.lemma_raw_len();
        item.pass.lemma_raw_len();
    }
    buffer_extend(&mut buffer, item.name.bytes().as_slice()).unwrap();
    buffer_extend(&mut buffer, item.login.bytes().as_slice()).unwrap();
    buffer_extend(&mut buffer, item.pass.bytes().as_slice()).unwrap();
    proof {
        assert(buffer_bytes(buffer) =~= record_bytes(*item));
    }
    buffer
}

/// Seals an entry under `key` with the nonce given, which the caller
/// draws at random for each entry. The envelope is authentic and opens to
/// the entry's plain form.
pub fn encode_encrypted(item: &PasswordItem, key: &[u8; 32], nonce: &[u8; 16]) -> (out: Vec<u8>)
    ensures
        out@ == sealed(key@, nonce@, record_bytes(*item)),
        out@.len() == 128,
        authentic(key@, out@),
        tag_chain_inverts(key@, out@),
        opened(key@, out@) == record_bytes(*item),
        record_of(opened(key@, out@)) == *item,
{
    let buffer = lay_out(item);
    let plain = buffer_slice(&buffer);
    proof {
        lemma_record_is_own(*item);
    }
    let ciphertext = cbc_encrypt_buffer(key, nonce, plain);
    let tag = cbc_mac(key, nonce, ciphertext.as_slice());
    let mut out: Vec<u8> = Vec::new();
    append_bytes(&mut out, nonce.as_slice());
    append_bytes(&mut out, ciphertext.as_slice());
    append_bytes(&mut out, tag.as_slice());
    proof {
        assert(chain_inverts(key@, nonce@, plain@, 5));
        assert(tag@.len() == 16);
        assert(envelope_nonce(out@) =~= nonce@);
        assert(envelope_ciphertext(out@) =~= ciphertext@);
        assert(envelope_tag(out@) =~= tag@);
    }
    out
}

/// Opens an envelope under `key`. The tag is checked first: an envelope
/// that is not authentic gives `DecryptFailed` and nothing of its content;
/// an authentic one gives the entry that its plain bytes stand for.
pub fn decode_encrypted(envelope: &[u8], key: &[u8; 32]) -> (r: Result<PasswordItem, Error>)
    requires
        envelope@.len() == 128,
    ensures
        tag_chain_inverts(key@, envelope@),
        authentic(key@, envelope@) ==> r == Ok::<PasswordItem, Error>(
            record_of(opened(key@, envelope@)),
        ),
        !authentic(key@, envelope@) ==> r == Err::<PasswordItem, Error>(Error::DecryptFailed),
{
    let nonce = take_block(envelope, 0);
    let mut buffer = buffer_new();
    buffer_extend(&mut buffer, slice_subrange(envelope, 16, 112)).unwrap();
    let ciphertext = buffer_slice(&buffer);
    let received = take_block(envelope, 7);
    let expected = cbc_mac(key, &nonce, ciphertext);
    proof {
        assert(nonce@ =~= envelope_nonce(envelope@));
        assert(received@ =~= envelope_tag(envelope@));
        assert(ciphertext@ =~= envelope_ciphertext(envelope@));
    }
    if !same_block(&received, &expected) {
        return Err(Error::DecryptFailed);
    }
    let plain = cbc_decrypt_buffer(key, &nonce, ciphertext);
    Ok(decode_plain(plain.as_slice()))
}

/// Whether two blocks hold the same bytes.
pub fn same_block(a: &[u8; 16], b: &[u8; 16]) -> (r: bool)
    ensures
        r == (a@ == b@),
{
    let mut i: usize = 0;
    while i < 16
        invariant
            i <= 16,
            forall|j: int| 0 <= j < i ==> a@[j] == b@[j],
        decreases 16 - i,
    {
        if a[i] != b[i] {
            return false;
        }
        i += 1;
    }
    proof {
        assert(a@ =~= b@);
    }
    true
}

} // verus!
