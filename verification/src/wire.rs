//! The binary layout of integers, byte strings and texts in contract calls
//! and storage values: little-endian integers, and a 32-bit length before
//! every byte string.

use vstd::prelude::*;
use vstd::utf8::{decode_utf8, encode_utf8, valid_utf8};

verus! {

/// The number that `bytes` spell, least significant byte first.
pub open spec fn le_value(bytes: Seq<u8>) -> nat
    decreases bytes.len(),
{
    if bytes.len() == 0 {
        0
    } else {
        bytes[0] as nat + 256 * le_value(bytes.drop_first())
    }
}

/// An integer of `width` bytes at the front of `buf`, and what follows it.
pub open spec fn read_uint(buf: Seq<u8>, width: nat) -> Option<(nat, Seq<u8>)> {
    if buf.len() >= width {
        Some((le_value(buf.take(width as int)), buf.skip(width as int)))
    } else {
        None
    }
}

/// A byte string at the front of `buf`: a 32-bit length, then that many
/// bytes.
pub open spec fn read_bytes(buf: Seq<u8>) -> Option<(Seq<u8>, Seq<u8>)> {
    match read_uint(buf, 4) {
        Some((len, rest)) => if rest.len() >= len {
            Some((rest.take(len as int), rest.skip(len as int)))
        } else {
            None
        },
        None => None,
    }
}

/// A text at the front of `buf`: a byte string that is valid UTF-8.
pub open spec fn read_text(buf: Seq<u8>) -> Option<(Seq<char>, Seq<u8>)> {
    match read_bytes(buf) {
        Some((bytes, rest)) => if valid_utf8(bytes) {
            Some((decode_utf8(bytes), rest))
        } else {
            None
        },
        None => None,
    }
}

/// `count` texts at the front of `buf`, one after the other.
pub open spec fn read_texts(buf: Seq<u8>, count: nat) -> Option<(Seq<Seq<char>>, Seq<u8>)>
    decreases count,
{
    if count == 0 {
        Some((Seq::empty(), buf))
    } else {
        match read_text(buf) {
            Some((text, rest)) => match read_texts(rest, (count - 1) as nat) {
                Some((texts, left)) => Some((seq![text] + texts, left)),
                None => None,
            },
            None => None,
        }
    }
}

/// A list of texts at the front of `buf`: a 32-bit count, then that many
/// texts.
pub open spec fn read_text_list(buf: Seq<u8>) -> Option<(Seq<Seq<char>>, Seq<u8>)> {
    match read_uint(buf, 4) {
        Some((count, rest)) => read_texts(rest, count),
        None => None,
    }
}

/// An optional byte string at the front of `buf`: a flag byte 0, or a flag
/// byte 1 and the byte string.
pub open spec fn read_optional_bytes(buf: Seq<u8>) -> Option<(Option<Seq<u8>>, Seq<u8>)> {
    if buf.len() == 0 {
        None
    } else if buf[0] == 0 {
        Some((None, buf.skip(1)))
    } else if buf[0] == 1 {
        match read_bytes(buf.skip(1)) {
            Some((bytes, rest)) => Some((Some(bytes), rest)),
            None => None,
        }
    } else {
        None
    }
}

/// Reads a `u32` with borsh's `BorshDeserialize::deserialize`. As the
/// crate's source has it, the call fails on fewer than 4 bytes and otherwise
/// takes the first 4 as a little-endian number and leaves the rest.
#[verifier::external_body]
pub(crate) fn take_u32<'a>(buf: &'a [u8]) -> (r: Option<(u32, &'a [u8])>)
    ensures
        r is None ==> read_uint(buf@, 4) is None,
        r matches Some((v, rest)) ==> read_uint(buf@, 4) == Some((v as nat, rest@)),
{
    let mut rest = buf;
    let read: Result<u32, _> = near_sdk::borsh::BorshDeserialize::deserialize(&mut rest);
    match read {
        Ok(v) => Some((v, rest)),
        Err(_) => None,
    }
}

/// Reads a `u64` with borsh's `BorshDeserialize::deserialize`. As the
/// crate's source has it, the call fails on fewer than 8 bytes and otherwise
/// takes the first 8 as a little-endian number and leaves the rest.
#[verifier::external_body]
pub(crate) fn take_u64<'a>(buf: &'a [u8]) -> (r: Option<(u64, &'a [u8])>)
    ensures
        r is None ==> read_uint(buf@, 8) is None,
        r matches Some((v, rest)) ==> read_uint(buf@, 8) == Some((v as nat, rest@)),
{
    let mut rest = buf;
    let read: Result<u64, _> = near_sdk::borsh::BorshDeserialize::deserialize(&mut rest);
    match read {
        Ok(v) => Some((v, rest)),
        Err(_) => None,
    }
}

/// Reads a `u128` with borsh's `BorshDeserialize::deserialize`. As the
/// crate's source has it, the call fails on fewer than 16 bytes and
/// otherwise takes the first 16 as a little-endian number and leaves the
/// rest.
#[verifier::external_body]
pub(crate) fn take_u128<'a>(buf: &'a [u8]) -> (r: Option<(u128, &'a [u8])>)
    ensures
        r is None ==> read_uint(buf@, 16) is None,
        r matches Some((v, rest)) ==> read_uint(buf@, 16) == Some((v as nat, rest@)),
{
    let mut rest = buf;
    let read: Result<u128, _> = near_sdk::borsh::BorshDeserialize::deserialize(&mut rest);
    match read {
        Ok(v) => Some((v, rest)),
        Err(_) => None,
    }
}

/// Reads a `String` with borsh's `BorshDeserialize::deserialize`. As the
/// crate's source has it, the call reads a 32-bit little-endian length,
/// fails if fewer bytes than that follow, and hands the bytes to
/// `String::from_utf8`, failing where they are not valid UTF-8.
#[verifier::external_body]
pub(crate) fn take_text<'a>(buf: &'a [u8]) -> (r: Option<(String, &'a [u8])>)
    ensures
        r is None ==> read_text(buf@) is None,
        r matches Some((v, rest)) ==> read_text(buf@) == Some((v@, rest@)),
{
    let mut rest = buf;
    let read: Result<String, _> = near_sdk::borsh::BorshDeserialize::deserialize(&mut rest);
    match read {
        Ok(v) => Some((v, rest)),
        Err(_) => None,
    }
}

/// Reads an `Option<Vec<u8>>` with borsh's `BorshDeserialize::deserialize`.
/// As the crate's source has it, the call fails on no bytes and on a first
/// byte other than 0 and 1; after 0 it gives `None`, after 1 it reads a
/// 32-bit little-endian length and that many bytes.
#[verifier::external_body]
pub(crate) fn take_optional_bytes<'a>(buf: &'a [u8]) -> (r: Option<(Option<Vec<u8>>, &'a [u8])>)
    ensures
        r is None ==> read_optional_bytes(buf@) is None,
        r matches Some((None, rest)) ==> read_optional_bytes(buf@) == Some(
            (None::<Seq<u8>>, rest@),
        ),
        r matches Some((Some(b), rest)) ==> read_optional_bytes(buf@) == Some((Some(b@), rest@)),
{
    let mut rest = buf;
    let read: Result<Option<Vec<u8>>, _> = near_sdk::borsh::BorshDeserialize::deserialize(
        &mut rest,
    );
    match read {
        Ok(v) => Some((v, rest)),
        Err(_) => None,
    }
}


/// The bytes that a text in base64 stands for, where it is well-formed.
pub uninterp spec fn base64_decoded(text: Seq<char>) -> Option<Seq<u8>>;

/// Decodes `text` with `base64::decode`, which reads the standard alphabet
/// with padding. The result depends on the text alone. The call gives up
/// only on a text within three bytes of the largest size, which no text in
/// memory has.
#[verifier::external_body]
pub(crate) fn decode_base64(text: &str) -> (r: Option<Vec<u8>>)
    ensures
        r is None ==> base64_decoded(text@) is None,
        r matches Some(bytes) ==> base64_decoded(text@) == Some(bytes@),
{
    match base64::decode(text) {
        Ok(bytes) => Some(bytes),
        Err(_) => None,
    }
}

/// Reads `bytes` as a text with `std::str::from_utf8`, which accepts them
/// exactly when they are valid UTF-8.
#[verifier::external_body]
pub(crate) fn text_from_utf8(bytes: &[u8]) -> (r: Option<String>)
    ensures
        r.is_some() == valid_utf8(bytes@),
        r matches Some(text) ==> text@ == decode_utf8(bytes@),
{
    match std::str::from_utf8(bytes) {
        Ok(text) => Some(text.to_string()),
        Err(_) => None,
    }
}

/// What an optional byte string holds.
pub open spec fn optional_bytes(value: Option<Vec<u8>>) -> Option<Seq<u8>> {
    match value {
        Some(bytes) => Some(bytes@),
        None => None,
    }
}

/// The number that `bytes` spell where they are exactly `width` long.
pub open spec fn read_exact_uint(bytes: Seq<u8>, width: nat) -> Option<nat> {
    if bytes.len() == width {
        Some(le_value(bytes))
    } else {
        None
    }
}

/// Reads a value that is one `u128` and nothing else.
pub fn exact_u128(bytes: &[u8]) -> (r: Option<u128>)
    ensures
        r is None ==> read_exact_uint(bytes@, 16) is None,
        r matches Some(v) ==> read_exact_uint(bytes@, 16) == Some(v as nat),
{
    match take_u128(bytes) {
        Some((v, rest)) => {
            if rest.len() == 0 {
                assert(bytes@.take(16) =~= bytes@);
                Some(v)
            } else {
                None
            }
        },
        None => None,
    }
}

/// Reads a value that is one `u64` and nothing else.
pub fn exact_u64(bytes: &[u8]) -> (r: Option<u64>)
    ensures
        r is None ==> read_exact_uint(bytes@, 8) is None,
        r matches Some(v) ==> read_exact_uint(bytes@, 8) == Some(v as nat),
{
    match take_u64(bytes) {
        Some((v, rest)) => {
            if rest.len() == 0 {
                assert(bytes@.take(8) =~= bytes@);
                Some(v)
            } else {
                None
            }
        },
        None => None,
    }
}

/// Whether `key` begins with `prefix`.
pub fn starts_with(key: &[u8], prefix: &[u8]) -> (b: bool)
    ensures
        b == (prefix@.len() <= key@.len() && key@.take(prefix@.len() as int) == prefix@),
{
    if key.len() < prefix.len() {
        return false;
    }
    let mut i: usize = 0;
    while i < prefix.len()
        invariant
            i <= prefix.len() <= key.len(),
            forall|j: int| 0 <= j < i ==> key@[j] == prefix@[j],
        decreases prefix.len() - i,
    {
        if key[i] != prefix[i] {
            assert(key@.take(prefix@.len() as int)[i as int] != prefix@[i as int]);
            return false;
        }
        i += 1;
    }
    assert(key@.take(prefix@.len() as int) =~= prefix@);
    true
}

/// Reading texts one after the other: the first `done`, then the rest.
pub proof fn lemma_read_texts_split(buf: Seq<u8>, done: nat, count: nat)
    requires
        done <= count,
    ensures
        read_texts(buf, count) == match read_texts(buf, done) {
            Some((texts, rest)) => match read_texts(rest, (count - done) as nat) {
                Some((more, left)) => Some((texts + more, left)),
                None => None,
            },
            None => None,
        },
    decreases done,
{
    if done == 0 {
        match read_texts(buf, count) {
            Some((more, left)) => {
                assert(Seq::<Seq<char>>::empty() + more =~= more);
            },
            None => {},
        }
    } else {
        match read_text(buf) {
            Some((text, rest)) => {
                lemma_read_texts_split(rest, (done - 1) as nat, (count - 1) as nat);
                match read_texts(rest, (done - 1) as nat) {
                    Some((texts, after)) => {
                        match read_texts(after, (count - done) as nat) {
                            Some((more, left)) => {
                                assert(seq![text] + (texts + more) =~= (seq![text] + texts) + more);
                            },
                            None => {},
                        }
                    },
                    None => {},
                }
            },
            None => {},
        }
    }
}

/// Reads a list of texts: a 32-bit count, then that many texts.
pub fn take_text_list<'a>(buf: &'a [u8]) -> (r: Option<(Vec<String>, &'a [u8])>)
    ensures
        r is None ==> read_text_list(buf@) is None,
        r matches Some((texts, rest)) ==> read_text_list(buf@) == Some(
            (crate::keyset::keys_of(texts@), rest@),
        ),
{
    let Some((count, start)) = take_u32(buf) else {
        return None;
    };
    let mut texts: Vec<String> = Vec::new();
    let mut rest = start;
    let mut i: u32 = 0;
    assert(crate::keyset::keys_of(texts@) =~= Seq::<Seq<char>>::empty());
    while i < count
        invariant
            i <= count,
            read_uint(buf@, 4) == Some((count as nat, start@)),
            read_texts(start@, i as nat) == Some((crate::keyset::keys_of(texts@), rest@)),
        decreases count - i,
    {
        proof {
            lemma_read_texts_split(start@, i as nat, (i + 1) as nat);
            lemma_read_texts_split(start@, i as nat, count as nat);
            match read_text(rest@) {
                Some((text, after)) => {
                    assert(read_texts(after, 0) == Some((Seq::<Seq<char>>::empty(), after)));
                    assert(read_texts(rest@, 1) == Some(
                        (seq![text] + Seq::<Seq<char>>::empty(), after),
                    ));
                },
                None => {
                    assert(read_texts(rest@, 1) is None);
                    assert(read_texts(rest@, (count - i) as nat) is None);
                },
            }
        }
        let Some((text, after)) = take_text(rest) else {
            return None;
        };
        let ghost before = crate::keyset::keys_of(texts@);
        texts.push(text);
        proof {
            assert(crate::keyset::keys_of(texts@) =~= before.push(text@));
            assert(before + (seq![text@] + Seq::<Seq<char>>::empty()) =~= before.push(text@));
        }
        rest = after;
        i += 1;
    }
    Some((texts, rest))
}

/// The `width` bytes that spell `value`, least significant byte first.
pub open spec fn le_bytes(value: nat, width: nat) -> Seq<u8>
    decreases width,
{
    if width == 0 {
        Seq::empty()
    } else {
        seq![(value % 256) as u8] + le_bytes(value / 256, (width - 1) as nat)
    }
}

/// Writes a `u32` with borsh's `BorshSerialize::try_to_vec`: its 4 bytes,
/// least significant first.
#[verifier::external_body]
pub(crate) fn u32_bytes(value: u32) -> (bytes: Vec<u8>)
    ensures
        bytes@ == le_bytes(value as nat, 4),
{
    near_sdk::borsh::BorshSerialize::try_to_vec(&value).unwrap_or_default()
}

/// Writes a `u64` with borsh's `BorshSerialize::try_to_vec`: its 8 bytes,
/// least significant first.
#[verifier::external_body]
pub(crate) fn u64_bytes(value: u64) -> (bytes: Vec<u8>)
    ensures
        bytes@ == le_bytes(value as nat, 8),
{
    near_sdk::borsh::BorshSerialize::try_to_vec(&value).unwrap_or_default()
}

/// Writes a `u128` with borsh's `BorshSerialize::try_to_vec`: its 16
/// bytes, least significant first.
#[verifier::external_body]
pub(crate) fn u128_bytes(value: u128) -> (bytes: Vec<u8>)
    ensures
        bytes@ == le_bytes(value as nat, 16),
{
    near_sdk::borsh::BorshSerialize::try_to_vec(&value).unwrap_or_default()
}

/// A text as it is written: its length in bytes as a 32-bit number, then
/// its bytes in UTF-8. A text of more bytes than 32 bits count is not
/// written.
pub open spec fn text_written(text: Seq<char>) -> Option<Seq<u8>> {
    if encode_utf8(text).len() <= u32::MAX {
        Some(le_bytes(encode_utf8(text).len(), 4) + encode_utf8(text))
    } else {
        None
    }
}

/// Writes a text with borsh's `BorshSerialize::try_to_vec` for `str`,
/// which writes the length of its bytes as a `u32` and then the bytes, and
/// fails where the length does not fit.
#[verifier::external_body]
pub(crate) fn text_bytes(text: &str) -> (r: Option<Vec<u8>>)
    ensures
        r is None ==> text_written(text@) is None,
        r matches Some(bytes) ==> text_written(text@) == Some(bytes@),
{
    near_sdk::borsh::BorshSerialize::try_to_vec(text).ok()
}

/// The first `n` of `texts` as they are written, one after the other.
pub open spec fn texts_written(texts: Seq<Seq<char>>, n: nat) -> Option<Seq<u8>>
    decreases n,
{
    if n == 0 {
        Some(Seq::empty())
    } else {
        match (texts_written(texts, (n - 1) as nat), text_written(texts[n - 1])) {
            (Some(before), Some(last)) => Some(before + last),
            _ => None,
        }
    }
}

/// A list of texts as it is written: their number as a 32-bit number, then
/// the texts.
pub open spec fn text_list_written(texts: Seq<Seq<char>>) -> Option<Seq<u8>> {
    if texts.len() <= u32::MAX {
        match texts_written(texts, texts.len()) {
            Some(bytes) => Some(le_bytes(texts.len(), 4) + bytes),
            None => None,
        }
    } else {
        None
    }
}

/// Texts that cannot be written up to a point cannot be written beyond it.
pub proof fn lemma_texts_written_more(texts: Seq<Seq<char>>, n: nat, m: nat)
    requires
        n <= m,
        texts_written(texts, n) is None,
    ensures
        texts_written(texts, m) is None,
    decreases m,
{
    if n < m {
        lemma_texts_written_more(texts, n, (m - 1) as nat);
    }
}

/// Writes a list of texts behind `out`. Where the list cannot be written,
/// `out` is left as it was.
pub fn put_text_list(out: &mut Vec<u8>, texts: &Vec<String>) -> (ok: bool)
    ensures
        ok == text_list_written(crate::keyset::keys_of(texts@)) is Some,
        ok ==> final(out)@ == old(out)@ + text_list_written(
            crate::keyset::keys_of(texts@),
        ).unwrap(),
        !ok ==> final(out)@ == old(out)@,
{
    let ghost names = crate::keyset::keys_of(texts@);
    if texts.len() > u32::MAX as usize {
        return false;
    }
    let mut bytes = u32_bytes(texts.len() as u32);
    let ghost head = bytes@;
    let mut i: usize = 0;
    assert(bytes@ =~= head + Seq::<u8>::empty());
    while i < texts.len()
        invariant
            i <= texts.len(),
            names == crate::keyset::keys_of(texts@),
            texts_written(names, i as nat) is Some,
            bytes@ == head + texts_written(names, i as nat).unwrap(),
        decreases texts.len() - i,
    {
        let Some(mut text) = text_bytes(texts[i].as_str()) else {
            proof {
                assert(texts_written(names, (i + 1) as nat) is None);
                lemma_texts_written_more(names, (i + 1) as nat, names.len());
            }
            return false;
        };
        let ghost before = bytes@;
        let ghost added = text@;
        bytes.append(&mut text);
        assert(bytes@ =~= head + (texts_written(names, i as nat).unwrap() + added));
        i += 1;
    }
    let ghost before = out@;
    out.append(&mut bytes);
    true
}

/// An optional number as it is written: a byte 0, or a byte 1 and the
/// number's `width` bytes.
pub open spec fn optional_written(value: Option<nat>, width: nat) -> Seq<u8> {
    match value {
        None => seq![0u8],
        Some(v) => seq![1u8] + le_bytes(v, width),
    }
}

/// Writes an optional `u128` behind `out`.
pub fn put_optional_u128(out: &mut Vec<u8>, value: Option<u128>)
    ensures
        final(out)@ == old(out)@ + optional_written(
            match value {
                Some(v) => Some(v as nat),
                None => None,
            },
            16,
        ),
{
    match value {
        None => {
            out.push(0);
            assert(out@ =~= old(out)@ + seq![0u8]);
        },
        Some(v) => {
            out.push(1);
            let mut bytes = u128_bytes(v);
            out.append(&mut bytes);
            assert(out@ =~= old(out)@ + (seq![1u8] + le_bytes(v as nat, 16)));
        },
    }
}

/// Writes an optional `u64` behind `out`.
pub fn put_optional_u64(out: &mut Vec<u8>, value: Option<u64>)
    ensures
        final(out)@ == old(out)@ + optional_written(
            match value {
                Some(v) => Some(v as nat),
                None => None,
            },
            8,
        ),
{
    match value {
        None => {
            out.push(0);
            assert(out@ =~= old(out)@ + seq![0u8]);
        },
        Some(v) => {
            out.push(1);
            let mut bytes = u64_bytes(v);
            out.append(&mut bytes);
            assert(out@ =~= old(out)@ + (seq![1u8] + le_bytes(v as nat, 8)));
        },
    }
}

/// Balances by account as they are written, for the accounts `names` with
/// the balances `amounts` in turn: the number of accounts, then each account
/// with its balance, the accounts sorted. Nothing where that cannot be
/// written.
pub uninterp spec fn sorted_pairs_written(names: Seq<Seq<char>>, amounts: Seq<u128>) -> Option<
    Seq<u8>,
>;

/// Writes balances by account with borsh's `BorshSerialize::try_to_vec`
/// for a `HashMap`, which sorts the entries by key before it writes them,
/// so that what it gives depends on the names and amounts alone.
#[verifier::external_body]
pub(crate) fn sorted_pairs_bytes(names: &Vec<String>, amounts: &Vec<u128>) -> (r: Option<Vec<u8>>)
    ensures
        r is None ==> sorted_pairs_written(crate::keyset::keys_of(names@), amounts@) is None,
        r matches Some(bytes) ==> sorted_pairs_written(crate::keyset::keys_of(names@), amounts@)
            == Some(bytes@),
{
    let pairs: std::collections::HashMap<&String, &u128> = names.iter().zip(amounts).collect();
    near_sdk::borsh::BorshSerialize::try_to_vec(&pairs).ok()
}

/// Whether `value` can be spelled in `width` bytes.
pub open spec fn fits(value: nat, width: nat) -> bool
    decreases width,
{
    if width == 0 {
        value == 0
    } else {
        fits(value / 256, (width - 1) as nat)
    }
}

/// A number that fits its width is read back as it was written, from in
/// front of whatever follows.
pub proof fn lemma_uint_read_back(value: nat, width: nat, rest: Seq<u8>)
    requires
        fits(value, width),
    ensures
        le_bytes(value, width).len() == width,
        le_value(le_bytes(value, width)) == value,
        read_uint(le_bytes(value, width) + rest, width) == Some((value, rest)),
    decreases width,
{
    let bytes = le_bytes(value, width);
    if width > 0 {
        let tail = le_bytes(value / 256, (width - 1) as nat);
        lemma_uint_read_back(value / 256, (width - 1) as nat, rest);
        assert(bytes.drop_first() =~= tail);
        assert(bytes[0] == (value % 256) as u8);
        assert(value == (value % 256) + 256 * (value / 256)) by (nonlinear_arith);
    }
    assert((bytes + rest).take(width as int) =~= bytes);
    assert((bytes + rest).skip(width as int) =~= rest);
}

/// Every number of 32 bits fits 4 bytes.
pub proof fn lemma_u32_fits(value: nat)
    requires
        value <= u32::MAX,
    ensures
        fits(value, 4),
{
    reveal_with_fuel(fits, 5);
}

/// A text is read back as it was written, from in front of whatever
/// follows.
pub proof fn lemma_text_read_back(text: Seq<char>, rest: Seq<u8>)
    requires
        text_written(text) is Some,
    ensures
        read_text(text_written(text).unwrap() + rest) == Some((text, rest)),
{
    let bytes = encode_utf8(text);
    let head = le_bytes(bytes.len(), 4);
    lemma_u32_fits(bytes.len());
    lemma_uint_read_back(bytes.len(), 4, bytes + rest);
    assert(head + bytes + rest =~= head + (bytes + rest));
    assert((bytes + rest).take(bytes.len() as int) =~= bytes);
    assert((bytes + rest).skip(bytes.len() as int) =~= rest);
    vstd::utf8::encode_utf8_valid_utf8(text);
    vstd::utf8::encode_utf8_decode_utf8(text);
}

/// Texts are read back as they were written, from in front of whatever
/// follows.
pub proof fn lemma_texts_read_back(texts: Seq<Seq<char>>, n: nat, rest: Seq<u8>)
    requires
        n <= texts.len(),
        texts_written(texts, n) is Some,
    ensures
        read_texts(texts_written(texts, n).unwrap() + rest, n) == Some((texts.take(n as int), rest)),
    decreases n,
{
    if n == 0 {
        assert(texts_written(texts, 0).unwrap() + rest =~= rest);
        assert(texts.take(0) =~= Seq::<Seq<char>>::empty());
    } else {
        let before = texts_written(texts, (n - 1) as nat).unwrap();
        let last = text_written(texts[n - 1]).unwrap();
        let all = before + last + rest;
        lemma_texts_read_back(texts, (n - 1) as nat, last + rest);
        assert(before + (last + rest) =~= all);
        lemma_text_read_back(texts[n - 1], rest);
        lemma_read_texts_split(all, (n - 1) as nat, n);
        assert(read_texts(rest, 0) == Some((Seq::<Seq<char>>::empty(), rest)));
        assert(read_texts(last + rest, 1) == Some(
            (seq![texts[n - 1]] + Seq::<Seq<char>>::empty(), rest),
        ));
        assert(texts.take(n - 1) + (seq![texts[n - 1]] + Seq::<Seq<char>>::empty()) =~= texts.take(
            n as int,
        ));
    }
}

/// A list of texts is read back as it was written, from in front of
/// whatever follows.
pub proof fn lemma_text_list_read_back(texts: Seq<Seq<char>>, rest: Seq<u8>)
    requires
        text_list_written(texts) is Some,
    ensures
        read_text_list(text_list_written(texts).unwrap() + rest) == Some((texts, rest)),
{
    let body = texts_written(texts, texts.len()).unwrap();
    let head = le_bytes(texts.len(), 4);
    lemma_u32_fits(texts.len());
    lemma_uint_read_back(texts.len(), 4, body + rest);
    assert(head + body + rest =~= head + (body + rest));
    lemma_texts_read_back(texts, texts.len(), rest);
    assert(texts.take(texts.len() as int) =~= texts);
}

} // verus!
