//! Responses saved under an idempotency key and replayed when the same
//! request comes again: how their status and headers are stored and read
//! back.

use vstd::prelude::*;
use crate::primitives::{
    base64_decode, base64_decoded, base64_encode, base64_standard, lemma_base64_standard_injective,
};

verus! {

/// A stored response header: its name, and its value in standard base64
/// (values may hold any bytes).
#[derive(Debug, Clone)]
pub struct HeaderPairRecord {
    pub name: String,
    pub value: String,
}

/// A response header: its name and the bytes of its value.
pub type HeaderPair = (String, Vec<u8>);

/// The records under which `headers` are stored, one per header, in order.
pub open spec fn records_of(headers: Seq<(Seq<char>, Seq<u8>)>) -> Seq<(Seq<char>, Seq<char>)> {
    headers.map_values(|h: (Seq<char>, Seq<u8>)| (h.0, base64_standard(h.1)))
}

/// The records as plain values.
pub open spec fn records_view(records: Seq<HeaderPairRecord>) -> Seq<(Seq<char>, Seq<char>)> {
    records.map_values(|r: HeaderPairRecord| (r.name@, r.value@))
}

/// The headers as plain values.
pub open spec fn pairs_view(pairs: Seq<HeaderPair>) -> Seq<(Seq<char>, Seq<u8>)> {
    pairs.map_values(|p: HeaderPair| (p.0@, p.1@))
}

/// The bytes read back from a stored value: its base64 decoding, or nothing
/// when it does not decode.
pub open spec fn stored_value_bytes(value: Seq<char>) -> Seq<u8> {
    match base64_decoded(value) {
        Some(b) => b,
        None => Seq::empty(),
    }
}

/// The records under which a response's headers are saved.
pub fn header_records(headers: &Vec<HeaderPair>) -> (r: Vec<HeaderPairRecord>)
    ensures
        records_view(r@) == records_of(pairs_view(headers@)),
{
    let ghost want = records_of(pairs_view(headers@));
    let mut out: Vec<HeaderPairRecord> = Vec::new();
    let mut i: usize = 0;
    while i < headers.len()
        invariant
            i <= headers.len(),
            want == records_of(pairs_view(headers@)),
            out@.len() == i,
            forall|k: int| 0 <= k < i ==> #[trigger] records_view(out@)[k] == want[k],
        decreases headers.len() - i,
    {
        let rec = HeaderPairRecord {
            name: headers[i].0.clone(),
            value: base64_encode(headers[i].1.as_slice()),
        };
        assert((rec.name@, rec.value@) == want[i as int]);
        let ghost before = out@;
        out.push(rec);
        assert forall|k: int| 0 <= k < i + 1 implies #[trigger] records_view(out@)[k] == want[k] by {
            assert(records_view(out@)[k] == (out@[k].name@, out@[k].value@));
            if k < i {
                assert(out@[k] == before[k]);
                assert(records_view(before)[k] == want[k]);
            }
        }
        i = i + 1;
    }
    assert(records_view(out@) =~= want);
    out
}

/// The headers of a replayed response, read back from their records: a value
/// that does not decode is read as empty. Headers saved by `header_records`
/// come back unchanged.
pub fn header_pairs(records: &Vec<HeaderPairRecord>) -> (r: Vec<HeaderPair>)
    ensures
        pairs_view(r@) == records_view(records@).map_values(
            |rec: (Seq<char>, Seq<char>)| (rec.0, stored_value_bytes(rec.1)),
        ),
        forall|headers: Seq<(Seq<char>, Seq<u8>)>|
            #[trigger] records_of(headers) == records_view(records@) ==> pairs_view(r@) == headers,
{
    let ghost want = records_view(records@).map_values(
        |rec: (Seq<char>, Seq<char>)| (rec.0, stored_value_bytes(rec.1)),
    );
    let mut out: Vec<HeaderPair> = Vec::new();
    let mut i: usize = 0;
    while i < records.len()
        invariant
            i <= records.len(),
            want == records_view(records@).map_values(
                |rec: (Seq<char>, Seq<char>)| (rec.0, stored_value_bytes(rec.1)),
            ),
            out@.len() == i,
            forall|k: int| 0 <= k < i ==> #[trigger] pairs_view(out@)[k] == want[k],
            forall|k: int, b: Seq<u8>|
                #![trigger base64_standard(b), records@[k]]
                0 <= k < i && base64_standard(b) == records@[k].value@ ==> stored_value_bytes(
                    records@[k].value@,
                ) == b,
        decreases records.len() - i,
    {
        let bytes = match base64_decode(records[i].value.as_str()) {
            Some(b) => b,
            None => Vec::new(),
        };
        assert(bytes@ == stored_value_bytes(records@[i as int].value@));
        proof {
            assert forall|b: Seq<u8>| base64_standard(b) == records@[i as int].value@ implies stored_value_bytes(
                records@[i as int].value@,
            ) == b by {
                lemma_base64_standard_injective(bytes@, b);
            }
        }
        let pair = (records[i].name.clone(), bytes);
        assert((pair.0@, pair.1@) == want[i as int]);
        let ghost before = out@;
        out.push(pair);
        assert forall|k: int| 0 <= k < i + 1 implies #[trigger] pairs_view(out@)[k] == want[k] by {
            assert(pairs_view(out@)[k] == (out@[k].0@, out@[k].1@));
            if k < i {
                assert(out@[k] == before[k]);
                assert(pairs_view(before)[k] == want[k]);
            }
        }
        i = i + 1;
    }
    assert(pairs_view(out@) =~= want);
    proof {
        assert forall|headers: Seq<(Seq<char>, Seq<u8>)>|
            #[trigger] records_of(headers) == records_view(records@) implies pairs_view(out@)
            == headers by {
            assert forall|k: int| 0 <= k < headers.len() implies pairs_view(out@)[k] == headers[k] by {
                assert(records_of(headers)[k] == records_view(records@)[k]);
                assert(base64_standard(headers[k].1) == records@[k].value@);
                assert(stored_value_bytes(records@[k].value@) == headers[k].1);
                assert(want[k] == (records@[k].name@, stored_value_bytes(records@[k].value@)));
            }
            assert(pairs_view(out@) =~= headers);
        }
    }
    out
}

/// The status of a saved response as read back: a stored code is used when
/// it is a valid HTTP status code (`100` to `999`), and reading fails
/// otherwise.
pub fn saved_status(code: i32) -> (r: Option<u16>)
    ensures
        r is Some <==> 100 <= code <= 999,
        r matches Some(c) ==> c == code,
{
    if 100 <= code && code <= 999 {
        Some(code as u16)
    } else {
        None
    }
}

} // verus!
