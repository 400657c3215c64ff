//! Peer records of DHT discovery: each peer of a session publishes a TXT
//! record `peer=<hex endpoint id>` under the session's key, and reads the
//! records of the others.
//!
//! The DHT calls themselves are I/O; here are the records' text form and
//! which records a peer publishes.

use vstd::prelude::*;

use crate::text::ascii_string;

verus! {

/// The value of a hexadecimal digit, either case.
pub open spec fn hex_value(c: char) -> Option<u8> {
    if '0' <= c && c <= '9' {
        Some((c as u32 - '0' as u32) as u8)
    } else if 'a' <= c && c <= 'f' {
        Some((c as u32 - 'a' as u32 + 10) as u8)
    } else if 'A' <= c && c <= 'F' {
        Some((c as u32 - 'A' as u32 + 10) as u8)
    } else {
        None
    }
}

/// The bytes that a hexadecimal text spells, two digits per byte, high digit
/// first; `None` for an odd length or a character that is no digit.
pub open spec fn hex_decode(s: Seq<char>) -> Option<Seq<u8>> {
    if s.len() % 2 == 0 && forall|i: int| 0 <= i < s.len() ==> (#[trigger] hex_value(s[i])) is Some {
        Some(
            Seq::new(
                s.len() / 2,
                |i: int| (16 * (hex_value(s[2 * i])->0 as int) + hex_value(s[2 * i + 1])->0) as u8,
            ),
        )
    } else {
        None
    }
}

/// The lower-case digit of a value below 16.
pub open spec fn hex_digit(v: int) -> char {
    if v < 10 {
        ('0' as u32 + v) as char
    } else {
        ('a' as u32 + v - 10) as char
    }
}

/// Bytes as lower-case hexadecimal text, two digits per byte, high digit
/// first.
pub open spec fn hex_encode(b: Seq<u8>) -> Seq<char> {
    Seq::new(
        2 * b.len(),
        |i: int|
            if i % 2 == 0 {
                hex_digit((b[i / 2] / 16) as int)
            } else {
                hex_digit((b[i / 2] % 16) as int)
            },
    )
}

/// The prefix of a peer record.
pub open spec fn peer_prefix() -> Seq<char> {
    seq!['p', 'e', 'e', 'r', '=']
}

/// The record of a peer.
pub open spec fn peer_record_text(endpoint_id: Seq<u8>) -> Seq<char> {
    peer_prefix() + hex_encode(endpoint_id)
}

/// The endpoint ID that a record names: the record is the prefix followed by
/// hexadecimal text of exactly 32 bytes.
pub open spec fn parsed_peer(txt: Seq<char>) -> Option<Seq<u8>> {
    if txt.len() >= 5 && txt.take(5) == peer_prefix() {
        match hex_decode(txt.skip(5)) {
            Some(b) => if b.len() == 32 {
                Some(b)
            } else {
                None
            },
            None => None,
        }
    } else {
        None
    }
}

/// The value of a hexadecimal digit.
fn hex_digit_value(c: char) -> (r: Option<u8>)
    ensures
        r == hex_value(c),
{
    if '0' <= c && c <= '9' {
        Some((c as u32 - '0' as u32) as u8)
    } else if 'a' <= c && c <= 'f' {
        Some((c as u32 - 'a' as u32 + 10) as u8)
    } else if 'A' <= c && c <= 'F' {
        Some((c as u32 - 'A' as u32 + 10) as u8)
    } else {
        None
    }
}

/// The ASCII code of a lower-case digit.
fn hex_digit_byte(v: u8) -> (b: u8)
    requires
        v < 16,
    ensures
        b < 128,
        b as char == hex_digit(v as int),
{
    if v < 10 {
        48 + v
    } else {
        87 + v
    }
}

/// The record a peer publishes for its endpoint ID.
pub fn peer_record(endpoint_id: &[u8; 32]) -> (s: String)
    ensures
        s@ == peer_record_text(endpoint_id@),
{
    let mut out: Vec<u8> = Vec::new();
    out.push(112);
    out.push(101);
    out.push(101);
    out.push(114);
    out.push(61);
    let mut i: usize = 0;
    while i < 32
        invariant
            i <= 32,
            endpoint_id@.len() == 32,
            out@.len() == 5 + 2 * i,
            forall|k: int| 0 <= k < out@.len() ==> out@[k] < 128,
            out@.map_values(|b: u8| b as char) == peer_prefix() + hex_encode(endpoint_id@.take(i as int)),
        decreases 32 - i,
    {
        let byte = endpoint_id[i];
        let hi = hex_digit_byte(byte / 16);
        let lo = hex_digit_byte(byte % 16);
        let ghost before = out@;
        out.push(hi);
        out.push(lo);
        proof {
            let t0 = endpoint_id@.take(i as int);
            let t1 = endpoint_id@.take(i + 1);
            assert(t1[i as int] == byte);
            assert forall|k: int| 0 <= k < 2 * i implies #[trigger] hex_encode(t1)[k] == hex_encode(t0)[k] by {
                assert(t1[k / 2] == t0[k / 2]);
            }
            assert((2 * i) as int / 2 == i);
            assert((2 * i + 1) as int / 2 == i);
            assert(hex_encode(t1) =~= hex_encode(t0).push(hi as char).push(lo as char));
            assert(out@.map_values(|b: u8| b as char) =~= before.map_values(|b: u8| b as char).push(
                hi as char,
            ).push(lo as char));
            assert(out@.map_values(|b: u8| b as char) =~= peer_prefix() + hex_encode(t1));
        }
        i = i + 1;
    }
    assert(endpoint_id@.take(32) =~= endpoint_id@);
    ascii_string(out)
}

/// The endpoint ID that a record names, if it is a peer record.
pub fn parse_peer_record(txt: &str) -> (r: Option<Vec<u8>>)
    ensures
        r matches Some(b) ==> parsed_peer(txt@) == Some(b@),
        r is None ==> parsed_peer(txt@) is None,
{
    let n = txt.unicode_len();
    if n < 5 || txt.get_char(0) != 'p' || txt.get_char(1) != 'e' || txt.get_char(2) != 'e'
        || txt.get_char(3) != 'r' || txt.get_char(4) != '=' {
        proof {
            if n >= 5 {
                assert(txt@.take(5)[0] == txt@[0]);
                assert(txt@.take(5)[1] == txt@[1]);
                assert(txt@.take(5)[2] == txt@[2]);
                assert(txt@.take(5)[3] == txt@[3]);
                assert(txt@.take(5)[4] == txt@[4]);
            }
        }
        return None;
    }
    assert(txt@.take(5) =~= peer_prefix());
    let ghost hex = txt@.skip(5);
    if n - 5 != 64 {
        proof {
            if hex_decode(hex) is Some {
                assert(hex_decode(hex)->0.len() == hex.len() / 2);
            }
        }
        return None;
    }
    let mut out: Vec<u8> = Vec::new();
    let mut j: usize = 0;
    while j < 32
        invariant
            j <= 32,
            n == txt@.len(),
            n == 69,
            hex == txt@.skip(5),
            out@.len() == j,
            forall|k: int| 0 <= k < 2 * j ==> (#[trigger] hex_value(hex[k])) is Some,
            forall|k: int|
                0 <= k < j ==> out@[k] == (16 * (hex_value(hex[2 * k])->0 as int) + hex_value(
                    hex[2 * k + 1],
                )->0) as u8,
        decreases 32 - j,
    {
        let hi = hex_digit_value(txt.get_char(5 + 2 * j));
        let lo = hex_digit_value(txt.get_char(6 + 2 * j));
        assert(hex[2 * j as int] == txt@[5 + 2 * j]);
        assert(hex[2 * j + 1] == txt@[6 + 2 * j]);
        match (hi, lo) {
            (Some(h), Some(l)) => {
                out.push(h * 16 + l);
            },
            _ => {
                proof {
                    if hex_decode(hex) is Some {
                        assert(hex_value(hex[2 * j as int]) is Some);
                        assert(hex_value(hex[2 * j + 1]) is Some);
                    }
                }
                return None;
            },
        }
        j = j + 1;
    }
    proof {
        assert forall|k: int| 0 <= k < hex.len() implies (#[trigger] hex_value(hex[k])) is Some by {}
        assert(hex_decode(hex) is Some);
        assert(hex_decode(hex)->0 =~= out@);
    }
    Some(out)
}

/// Whether two endpoint IDs are equal.
fn same_id(a: &[u8; 32], b: &[u8; 32]) -> (r: bool)
    ensures
        r == (a@ == b@),
{
    let mut i: usize = 0;
    while i < 32
        invariant
            i <= 32,
            a@.len() == 32,
            b@.len() == 32,
            forall|k: int| 0 <= k < i ==> a@[k] == b@[k],
        decreases 32 - i,
    {
        if a[i] != b[i] {
            return false;
        }
        i = i + 1;
    }
    assert(a@ =~= b@);
    true
}

/// The records a peer publishes: those of the peers already published,
/// without its own, then its own.
pub fn records_to_publish(existing: &Vec<[u8; 32]>, ours: &[u8; 32]) -> (records: Vec<String>)
    ensures
        records@.len() == existing@.filter(|p: [u8; 32]| p@ != ours@).len() + 1,
        forall|j: int|
            0 <= j < records@.len() - 1 ==> (#[trigger] records@[j])@ == peer_record_text(
                existing@.filter(|p: [u8; 32]| p@ != ours@)[j]@,
            ),
        records@[records@.len() - 1]@ == peer_record_text(ours@),
{
    let ghost keep = |p: [u8; 32]| p@ != ours@;
    let mut records: Vec<String> = Vec::new();
    let mut i: usize = 0;
    while i < existing.len()
        invariant
            i <= existing@.len(),
            keep == (|p: [u8; 32]| p@ != ours@),
            records@.len() == existing@.take(i as int).filter(keep).len(),
            forall|j: int|
                0 <= j < records@.len() ==> (#[trigger] records@[j])@ == peer_record_text(
                    existing@.take(i as int).filter(keep)[j]@,
                ),
        decreases existing@.len() - i,
    {
        proof {
            assert(existing@.take(i + 1).drop_last() =~= existing@.take(i as int));
            assert(existing@.take(i + 1).last() == existing@[i as int]);
            reveal(Seq::filter);
        }
        if !same_id(&existing[i], ours) {
            records.push(peer_record(&existing[i]));
        }
        i = i + 1;
    }
    assert(existing@.take(existing@.len() as int) =~= existing@);
    records.push(peer_record(ours));
    records
}

/// A published record reads back as the endpoint ID it was made from.
pub proof fn lemma_peer_record_roundtrip(endpoint_id: Seq<u8>)
    requires
        endpoint_id.len() == 32,
    ensures
        parsed_peer(peer_record_text(endpoint_id)) == Some(endpoint_id),
{
    let t = peer_record_text(endpoint_id);
    assert(t.take(5) =~= peer_prefix());
    let h = t.skip(5);
    assert(h =~= hex_encode(endpoint_id));
    assert forall|i: int| 0 <= i < h.len() implies (#[trigger] hex_value(h[i])) is Some by {
        let b = endpoint_id[i / 2];
        assert(b / 16 < 16 && b % 16 < 16);
    }
    assert forall|i: int| 0 <= i < 32 implies (16 * (hex_value(h[2 * i])->0 as int) + hex_value(h[2 * i + 1])->0) as u8
        == endpoint_id[i] by {
        let b = endpoint_id[i];
        assert((2 * i) / 2 == i);
        assert((2 * i + 1) / 2 == i);
        assert(b == 16 * (b / 16) + b % 16);
    }
    assert(hex_decode(h)->0 =~= endpoint_id);
}

} // verus!
