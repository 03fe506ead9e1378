//! Deterministic, size-bounded binary codec for records.
//!
//! A record crosses the storage boundary as: its id, its three text fields
//! (each as an 8-byte little-endian byte count followed by the UTF-8 bytes),
//! its two remaining integers, and a one-byte tag for the optional update
//! timestamp (0 for absent, 1 followed by the 8-byte value). All integers
//! are 8-byte little-endian. Encoding and decoding round-trip exactly, and a
//! valid record's encoding never exceeds `MAX_RECORD_BYTES`.

use vstd::prelude::*;
use vstd::bytes::lemma_auto_spec_u64_to_from_le_bytes;
use vstd::bytes::spec_u64_from_le_bytes;
use vstd::bytes::spec_u64_to_le_bytes;
use vstd::bytes::u64_from_le_bytes;
use vstd::bytes::u64_to_le_bytes;
use vstd::slice::slice_subrange;
use vstd::slice::slice_to_vec;
use vstd::string::StrSliceExecFns;
use vstd::utf8::decode_utf8;
use vstd::utf8::encode_utf8;
use vstd::utf8::encode_utf8_decode_utf8;
use vstd::utf8::encode_utf8_valid_utf8;
use vstd::utf8::valid_utf8;
use crate::rental::MAX_RECORD_BYTES;
use crate::rental::Rental;
use crate::rental::RentalView;
use crate::rental::record_of;
use crate::rental::valid_input;
use crate::rental::InputView;

verus! {

/// The encoding of one text field: its UTF-8 byte count, then its bytes.
pub open spec fn spec_encode_text(s: Seq<char>) -> Seq<u8> {
    spec_u64_to_le_bytes(encode_utf8(s).len() as u64) + encode_utf8(s)
}

/// The encoding of the optional update timestamp: a presence tag, then the
/// value if present.
pub open spec fn spec_encode_stamp(updated_at: Option<u64>) -> Seq<u8> {
    match updated_at {
        None => seq![0u8],
        Some(t) => seq![1u8] + spec_u64_to_le_bytes(t),
    }
}

/// The encoding of a whole record: every field, in a fixed order.
pub open spec fn spec_encode_record(rv: RentalView) -> Seq<u8> {
    spec_u64_to_le_bytes(rv.id) + (spec_encode_text(rv.motorcycle_brand) + (spec_u64_to_le_bytes(
        rv.daily_rate,
    ) + (spec_encode_text(rv.rental_date) + (spec_encode_text(rv.renter_name) + (
    spec_u64_to_le_bytes(rv.rental_days) + spec_encode_stamp(rv.updated_at))))))
}

/// Reads an 8-byte little-endian integer from the front, returning it and
/// the remainder; absence means the input is too short.
pub open spec fn take_u64(b: Seq<u8>) -> Option<(u64, Seq<u8>)> {
    if b.len() >= 8 {
        Some((spec_u64_from_le_bytes(b.subrange(0, 8)), b.skip(8)))
    } else {
        None
    }
}

/// Reads one text field from the front: a byte count, then that many bytes,
/// which must be valid UTF-8.
pub open spec fn take_text(b: Seq<u8>) -> Option<(Seq<char>, Seq<u8>)> {
    match take_u64(b) {
        None => None,
        Some((n, rest)) => {
            if n <= rest.len() && valid_utf8(rest.subrange(0, n as int)) {
                Some((decode_utf8(rest.subrange(0, n as int)), rest.skip(n as int)))
            } else {
                None
            }
        },
    }
}

/// Reads the optional update timestamp, which must end the input exactly.
pub open spec fn take_stamp(b: Seq<u8>) -> Option<Option<u64>> {
    if b.len() == 1 && b[0] == 0u8 {
        Some(None)
    } else if b.len() == 9 && b[0] == 1u8 {
        Some(Some(spec_u64_from_le_bytes(b.skip(1))))
    } else {
        None
    }
}

/// The record a byte sequence decodes to, or absence when the bytes are not
/// a well-formed encoding.
pub open spec fn spec_decode_record(b: Seq<u8>) -> Option<RentalView> {
    match take_u64(b) {
        None => None,
        Some((id, b1)) => match take_text(b1) {
            None => None,
            Some((brand, b2)) => match take_u64(b2) {
                None => None,
                Some((rate, b3)) => match take_text(b3) {
                    None => None,
                    Some((date, b4)) => match take_text(b4) {
                        None => None,
                        Some((name, b5)) => match take_u64(b5) {
                            None => None,
                            Some((days, b6)) => match take_stamp(b6) {
                                None => None,
                                Some(upd) => Some(
                                    RentalView {
                                        id,
                                        motorcycle_brand: brand,
                                        daily_rate: rate,
                                        rental_date: date,
                                        renter_name: name,
                                        rental_days: days,
                                        updated_at: upd,
                                    },
                                ),
                            },
                        },
                    },
                },
            },
        },
    }
}

/// The encoded length is a fixed 49 bytes of integers and tag, plus the
/// texts' bytes, plus 8 more when the update timestamp is present.
pub proof fn lemma_encoded_len(rv: RentalView)
    ensures
        spec_encode_record(rv).len() == 49 + encode_utf8(rv.motorcycle_brand).len() + encode_utf8(
            rv.rental_date,
        ).len() + encode_utf8(rv.renter_name).len() + (
        if rv.updated_at is Some {
            8int
        } else {
            0int
        }),
{
    lemma_auto_spec_u64_to_from_le_bytes();
}

proof fn lemma_take_u64_prefix(x: u64, rest: Seq<u8>)
    ensures
        take_u64(spec_u64_to_le_bytes(x) + rest) == Some((x, rest)),
{
    lemma_auto_spec_u64_to_from_le_bytes();
    let b = spec_u64_to_le_bytes(x) + rest;
    assert(b.subrange(0, 8) =~= spec_u64_to_le_bytes(x));
    assert(b.skip(8) =~= rest);
}

proof fn lemma_take_text_prefix(s: Seq<char>, rest: Seq<u8>)
    requires
        encode_utf8(s).len() <= u64::MAX,
    ensures
        take_text(spec_encode_text(s) + rest) == Some((s, rest)),
{
    lemma_auto_spec_u64_to_from_le_bytes();
    let payload = encode_utf8(s);
    let n = payload.len() as u64;
    let b = spec_encode_text(s) + rest;
    assert(b =~= spec_u64_to_le_bytes(n) + (payload + rest));
    lemma_take_u64_prefix(n, payload + rest);
    let r1 = payload + rest;
    assert(r1.subrange(0, n as int) =~= payload);
    encode_utf8_valid_utf8(s);
    encode_utf8_decode_utf8(s);
    assert(r1.skip(n as int) =~= rest);
}

proof fn lemma_take_stamp_of_encoding(updated_at: Option<u64>)
    ensures
        take_stamp(spec_encode_stamp(updated_at)) == Some(updated_at),
{
    lemma_auto_spec_u64_to_from_le_bytes();
    match updated_at {
        None => {},
        Some(t) => {
            let b = spec_encode_stamp(updated_at);
            assert(b.skip(1) =~= spec_u64_to_le_bytes(t));
        },
    }
}

/// Law: encoding a record whose encoding fits the storage bound and then
/// decoding it yields the record unchanged.
pub proof fn lemma_codec_round_trip(rv: RentalView)
    requires
        spec_encode_record(rv).len() <= MAX_RECORD_BYTES,
    ensures
        spec_decode_record(spec_encode_record(rv)) == Some(rv),
{
    lemma_encoded_len(rv);
    let r5 = spec_u64_to_le_bytes(rv.rental_days) + spec_encode_stamp(rv.updated_at);
    let r4 = spec_encode_text(rv.renter_name) + r5;
    let r3 = spec_encode_text(rv.rental_date) + r4;
    let r2 = spec_u64_to_le_bytes(rv.daily_rate) + r3;
    let r1 = spec_encode_text(rv.motorcycle_brand) + r2;
    lemma_take_u64_prefix(rv.id, r1);
    lemma_take_text_prefix(rv.motorcycle_brand, r2);
    lemma_take_u64_prefix(rv.daily_rate, r3);
    lemma_take_text_prefix(rv.rental_date, r4);
    lemma_take_text_prefix(rv.renter_name, r5);
    lemma_take_u64_prefix(rv.rental_days, spec_encode_stamp(rv.updated_at));
    lemma_take_stamp_of_encoding(rv.updated_at);
}

proof fn lemma_take_u64_restore(b: Seq<u8>)
    requires
        take_u64(b) is Some,
    ensures
        ({
            let (x, rest) = take_u64(b).unwrap();
            b == spec_u64_to_le_bytes(x) + rest
        }),
{
    lemma_auto_spec_u64_to_from_le_bytes();
    let (x, rest) = take_u64(b).unwrap();
    assert(spec_u64_to_le_bytes(spec_u64_from_le_bytes(b.subrange(0, 8))) == b.subrange(0, 8));
    assert(b =~= b.subrange(0, 8) + b.skip(8));
}

proof fn lemma_take_text_restore(b: Seq<u8>)
    requires
        take_text(b) is Some,
    ensures
        ({
            let (s, rest) = take_text(b).unwrap();
            b == spec_encode_text(s) + rest
        }),
{
    lemma_auto_spec_u64_to_from_le_bytes();
    let (n, r1) = take_u64(b).unwrap();
    lemma_take_u64_restore(b);
    let chunk = r1.subrange(0, n as int);
    let (s, rest) = take_text(b).unwrap();
    vstd::utf8::decode_utf8_encode_utf8(chunk);
    assert(encode_utf8(s) == chunk);
    assert((encode_utf8(s).len() as u64) == n);
    assert(r1 =~= chunk + rest);
    assert(spec_encode_text(s) + rest =~= spec_u64_to_le_bytes(n) + (chunk + rest));
}

proof fn lemma_take_stamp_restore(b: Seq<u8>)
    requires
        take_stamp(b) is Some,
    ensures
        b == spec_encode_stamp(take_stamp(b).unwrap()),
{
    lemma_auto_spec_u64_to_from_le_bytes();
    if b.len() == 1 && b[0] == 0u8 {
        assert(b =~= seq![0u8]);
    } else {
        assert(b.skip(1).len() == 8);
        assert(spec_u64_to_le_bytes(spec_u64_from_le_bytes(b.skip(1))) == b.skip(1));
        assert(b =~= seq![1u8] + b.skip(1));
    }
}

/// Law: the encoding is canonical. Bytes that decode to a record are
/// exactly that record's encoding, so every record has one stored form and
/// the decoder accepts nothing else.
pub proof fn lemma_codec_canonical(b: Seq<u8>)
    requires
        spec_decode_record(b) is Some,
    ensures
        spec_encode_record(spec_decode_record(b).unwrap()) == b,
{
    let (id, b1) = take_u64(b).unwrap();
    let (brand, b2) = take_text(b1).unwrap();
    let (rate, b3) = take_u64(b2).unwrap();
    let (date, b4) = take_text(b3).unwrap();
    let (name, b5) = take_text(b4).unwrap();
    let (days, b6) = take_u64(b5).unwrap();
    lemma_take_u64_restore(b);
    lemma_take_text_restore(b1);
    lemma_take_u64_restore(b2);
    lemma_take_text_restore(b3);
    lemma_take_text_restore(b4);
    lemma_take_u64_restore(b5);
    lemma_take_stamp_restore(b6);
}

/// A valid input's record, under any id and timestamp, encodes within the
/// storage bound.
pub proof fn lemma_valid_input_fits(iv: InputView, id: u64, updated_at: Option<u64>)
    requires
        valid_input(iv),
    ensures
        spec_encode_record(record_of(iv, id, updated_at)).len() <= MAX_RECORD_BYTES,
{
    lemma_encoded_len(record_of(iv, id, updated_at));
}

fn encode_text(s: &String) -> (out: Vec<u8>)
    ensures
        out@ == spec_encode_text(s@),
{
    let bytes = s.as_str().as_bytes_vec();
    let len64: u64 = bytes.len() as u64;
    let mut out = u64_to_le_bytes(len64);
    let mut payload = bytes;
    out.append(&mut payload);
    out
}

/// Encodes a record into the bytes that cross the storage boundary.
pub fn encode_rental(r: &Rental) -> (out: Vec<u8>)
    ensures
        out@ == spec_encode_record(r@),
{
    let mut out = u64_to_le_bytes(r.id);
    let mut brand = encode_text(&r.motorcycle_brand);
    out.append(&mut brand);
    let mut rate = u64_to_le_bytes(r.daily_rate);
    out.append(&mut rate);
    let mut date = encode_text(&r.rental_date);
    out.append(&mut date);
    let mut name = encode_text(&r.renter_name);
    out.append(&mut name);
    let mut days = u64_to_le_bytes(r.rental_days);
    out.append(&mut days);
    match r.updated_at {
        None => {
            out.push(0u8);
        },
        Some(t) => {
            out.push(1u8);
            let mut stamp = u64_to_le_bytes(t);
            out.append(&mut stamp);
        },
    }
    proof {
        assert(out@ =~= spec_encode_record(r@));
    }
    out
}

/// Relies on `String::from_utf8`: it succeeds exactly on byte sequences
/// that are valid UTF-8, and returns the text they encode.
#[verifier::external_body]
fn bytes_to_string(v: Vec<u8>) -> (r: Option<String>)
    ensures
        match r {
            Some(s) => valid_utf8(v@) && s@ == decode_utf8(v@),
            None => !valid_utf8(v@),
        },
{
    match String::from_utf8(v) {
        Ok(s) => Some(s),
        Err(_) => None,
    }
}

fn read_u64_at(bytes: &Vec<u8>, pos: usize) -> (r: Option<(u64, usize)>)
    requires
        pos <= bytes@.len(),
    ensures
        match r {
            Some(p) => take_u64(bytes@.skip(pos as int)) == Some((p.0, bytes@.skip(p.1 as int)))
                && p.1 == pos + 8,
            None => take_u64(bytes@.skip(pos as int)) is None,
        },
{
    if bytes.len() - pos >= 8 {
        let s = slice_subrange(bytes.as_slice(), pos, pos + 8);
        let x = u64_from_le_bytes(s);
        proof {
            assert(bytes@.skip(pos as int).subrange(0, 8) =~= bytes@.subrange(
                pos as int,
                pos as int + 8,
            ));
            assert(bytes@.skip(pos as int).skip(8) =~= bytes@.skip(pos as int + 8));
        }
        Some((x, pos + 8))
    } else {
        None
    }
}

fn read_text_at(bytes: &Vec<u8>, pos: usize) -> (r: Option<(String, usize)>)
    requires
        pos <= bytes@.len(),
    ensures
        match r {
            Some(p) => take_text(bytes@.skip(pos as int)) == Some((p.0@, bytes@.skip(p.1 as int)))
                && p.1 <= bytes@.len(),
            None => take_text(bytes@.skip(pos as int)) is None,
        },
{
    match read_u64_at(bytes, pos) {
        None => None,
        Some((n, p1)) => {
            let rem = bytes.len() - p1;
            if n <= rem as u64 {
                let end = p1 + (n as usize);
                let chunk = slice_to_vec(slice_subrange(bytes.as_slice(), p1, end));
                proof {
                    assert(chunk@ =~= bytes@.skip(p1 as int).subrange(0, n as int));
                }
                match bytes_to_string(chunk) {
                    Some(s) => {
                        proof {
                            assert(bytes@.skip(p1 as int).skip(n as int) =~= bytes@.skip(
                                end as int,
                            ));
                        }
                        Some((s, end))
                    },
                    None => None,
                }
            } else {
                None
            }
        },
    }
}

/// Decodes storage bytes back into a record; absence means the bytes are
/// not a well-formed encoding, a storage-integrity fault.
pub fn decode_rental(bytes: &Vec<u8>) -> (r: Option<Rental>)
    ensures
        match r {
            Some(rec) => spec_decode_record(bytes@) == Some(rec@),
            None => spec_decode_record(bytes@) is None,
        },
{
    proof {
        assert(bytes@.skip(0) =~= bytes@);
    }
    let (id, p1) = match read_u64_at(bytes, 0) {
        Some(v) => v,
        None => {
            return None;
        },
    };
    let (brand, p2) = match read_text_at(bytes, p1) {
        Some(v) => v,
        None => {
            return None;
        },
    };
    let (rate, p3) = match read_u64_at(bytes, p2) {
        Some(v) => v,
        None => {
            return None;
        },
    };
    let (date, p4) = match read_text_at(bytes, p3) {
        Some(v) => v,
        None => {
            return None;
        },
    };
    let (name, p5) = match read_text_at(bytes, p4) {
        Some(v) => v,
        None => {
            return None;
        },
    };
    let (days, p6) = match read_u64_at(bytes, p5) {
        Some(v) => v,
        None => {
            return None;
        },
    };
    let rem = bytes.len() - p6;
    if rem == 0 {
        return None;
    }
    let tag = bytes[p6];
    let updated_at: Option<u64>;
    if tag == 0u8 {
        if rem != 1 {
            return None;
        }
        updated_at = None;
    } else if tag == 1u8 {
        if rem != 9 {
            return None;
        }
        let (t, _p7) = match read_u64_at(bytes, p6 + 1) {
            Some(v) => v,
            None => {
                return None;
            },
        };
        proof {
            let b6 = bytes@.skip(p6 as int);
            assert(b6.skip(1) =~= bytes@.skip(p6 as int + 1));
            assert(bytes@.skip(p6 as int + 1).subrange(0, 8) =~= bytes@.skip(p6 as int + 1));
        }
        updated_at = Some(t);
    } else {
        return None;
    }
    Some(
        Rental {
            id,
            motorcycle_brand: brand,
            daily_rate: rate,
            rental_date: date,
            renter_name: name,
            rental_days: days,
            updated_at,
        },
    )
}

} // verus!
