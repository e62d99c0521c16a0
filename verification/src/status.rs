//! The status-telemetry decoder: the one payload the core reads itself.
//! Each non-empty chunk of the status stream is one JSON record; a chunk
//! that does not read as one surfaces as an item-level error and the
//! stream goes on.

use vstd::prelude::*;

use crate::envelope::{match_at, parse_number_run, push_slice_range, scan_until};
use crate::error::WsError;
use crate::frame::{normalize, strip_ws};
use crate::ids::{dec_digits, is_dec_digit};

verus! {

/// One status record. The wire calls the first field `type`.
#[derive(Clone, Debug)]
pub struct Status {
    pub kind: String,
    pub chain: u64,
    pub chain_code: String,
    pub chain_name: String,
    pub entity: String,
    pub latest_block_height: u64,
    pub service: String,
    pub status: String,
    pub timestamp: u64,
}

pub open spec fn sm_type() -> Seq<u8> {
    seq![123, 34, 116, 121, 112, 101, 34, 58, 34]  // {"type":"
}

pub open spec fn sm_chain() -> Seq<u8> {
    seq![34, 44, 34, 99, 104, 97, 105, 110, 34, 58]  // ","chain":
}

pub open spec fn sm_chain_code() -> Seq<u8> {
    seq![44, 34, 99, 104, 97, 105, 110, 95, 99, 111, 100, 101, 34, 58, 34]  // ,"chain_code":"
}

pub open spec fn sm_chain_name() -> Seq<u8> {
    seq![34, 44, 34, 99, 104, 97, 105, 110, 95, 110, 97, 109, 101, 34, 58, 34]  // ","chain_name":"
}

pub open spec fn sm_entity() -> Seq<u8> {
    seq![34, 44, 34, 101, 110, 116, 105, 116, 121, 34, 58, 34]  // ","entity":"
}

pub open spec fn sm_height() -> Seq<u8> {
    seq![34, 44, 34, 108, 97, 116, 101, 115, 116, 95, 98, 108, 111, 99, 107, 95, 104, 101, 105, 103, 104, 116, 34, 58]  // ","latest_block_height":
}

pub open spec fn sm_service() -> Seq<u8> {
    seq![44, 34, 115, 101, 114, 118, 105, 99, 101, 34, 58, 34]  // ,"service":"
}

pub open spec fn sm_status() -> Seq<u8> {
    seq![34, 44, 34, 115, 116, 97, 116, 117, 115, 34, 58, 34]  // ","status":"
}

pub open spec fn sm_timestamp() -> Seq<u8> {
    seq![34, 44, 34, 116, 105, 109, 101, 115, 116, 97, 109, 112, 34, 58]  // ","timestamp":
}

/// The canonical (space-free) status record document.
pub open spec fn status_bytes(st: Status) -> Seq<u8> {
    sm_type() + vstd::utf8::encode_utf8(st.kind@) + sm_chain() + dec_digits(st.chain)
        + sm_chain_code() + vstd::utf8::encode_utf8(st.chain_code@) + sm_chain_name()
        + vstd::utf8::encode_utf8(st.chain_name@) + sm_entity() + vstd::utf8::encode_utf8(
        st.entity@,
    ) + sm_height() + dec_digits(st.latest_block_height) + sm_service()
        + vstd::utf8::encode_utf8(st.service@) + sm_status() + vstd::utf8::encode_utf8(
        st.status@,
    ) + sm_timestamp() + dec_digits(st.timestamp) + seq![125u8]
}

/// Every string field of the record is free of the quote byte.
pub open spec fn status_fields_plain(st: Status) -> bool {
    &&& crate::envelope::no_quote(vstd::utf8::encode_utf8(st.kind@))
    &&& crate::envelope::no_quote(vstd::utf8::encode_utf8(st.chain_code@))
    &&& crate::envelope::no_quote(vstd::utf8::encode_utf8(st.chain_name@))
    &&& crate::envelope::no_quote(vstd::utf8::encode_utf8(st.entity@))
    &&& crate::envelope::no_quote(vstd::utf8::encode_utf8(st.service@))
    &&& crate::envelope::no_quote(vstd::utf8::encode_utf8(st.status@))
}

/// How a canonical record document with quote-free fields is laid out.
#[verifier::rlimit(100)]
proof fn lemma_status_layout(st: Status)
    requires
        status_fields_plain(st),
    ensures
        ({
            let d = status_bytes(st);
            let kb = vstd::utf8::encode_utf8(st.kind@);
            let cb = vstd::utf8::encode_utf8(st.chain_code@);
            let nb = vstd::utf8::encode_utf8(st.chain_name@);
            let eb = vstd::utf8::encode_utf8(st.entity@);
            let sb = vstd::utf8::encode_utf8(st.service@);
            let tb = vstd::utf8::encode_utf8(st.status@);
            let q1 = 9 + kb.len() as int;
            let d1 = q1 + 10 + dec_digits(st.chain).len() as int;
            let q2 = d1 + 15 + cb.len() as int;
            let q3 = q2 + 16 + nb.len() as int;
            let q4 = q3 + 12 + eb.len() as int;
            let d2 = q4 + 24 + dec_digits(st.latest_block_height).len() as int;
            let q5 = d2 + 12 + sb.len() as int;
            let q6 = q5 + 12 + tb.len() as int;
            let d3 = q6 + 14 + dec_digits(st.timestamp).len() as int;
            &&& d.subrange(0, 9) == sm_type()
            &&& d.subrange(9, q1) == kb
            &&& d[q1] == 34
            &&& d.subrange(q1, q1 + 10) == sm_chain()
            &&& d.subrange(q1 + 10, d1) == dec_digits(st.chain)
            &&& d[d1] == 44
            &&& d.subrange(d1, d1 + 15) == sm_chain_code()
            &&& d.subrange(d1 + 15, q2) == cb
            &&& d[q2] == 34
            &&& d.subrange(q2, q2 + 16) == sm_chain_name()
            &&& d.subrange(q2 + 16, q3) == nb
            &&& d[q3] == 34
            &&& d.subrange(q3, q3 + 12) == sm_entity()
            &&& d.subrange(q3 + 12, q4) == eb
            &&& d[q4] == 34
            &&& d.subrange(q4, q4 + 24) == sm_height()
            &&& d.subrange(q4 + 24, d2) == dec_digits(st.latest_block_height)
            &&& d[d2] == 44
            &&& d.subrange(d2, d2 + 12) == sm_service()
            &&& d.subrange(d2 + 12, q5) == sb
            &&& d[q5] == 34
            &&& d.subrange(q5, q5 + 12) == sm_status()
            &&& d.subrange(q5 + 12, q6) == tb
            &&& d[q6] == 34
            &&& d.subrange(q6, q6 + 14) == sm_timestamp()
            &&& d.subrange(q6 + 14, d3) == dec_digits(st.timestamp)
            &&& d[d3] == 125
            &&& d.len() == d3 + 1
        }),
{
    lemma_status_layout_front(st);
    lemma_status_layout_back(st);
}

#[verifier::rlimit(100)]
proof fn lemma_status_layout_front(st: Status)
    requires
        status_fields_plain(st),
    ensures
        ({
            let d = status_bytes(st);
            let kb = vstd::utf8::encode_utf8(st.kind@);
            let cb = vstd::utf8::encode_utf8(st.chain_code@);
            let nb = vstd::utf8::encode_utf8(st.chain_name@);
            let q1 = 9 + kb.len() as int;
            let d1 = q1 + 10 + dec_digits(st.chain).len() as int;
            let q2 = d1 + 15 + cb.len() as int;
            let q3 = q2 + 16 + nb.len() as int;
            &&& d.subrange(0, 9) == sm_type()
            &&& d.subrange(9, q1) == kb
            &&& d[q1] == 34
            &&& d.subrange(q1, q1 + 10) == sm_chain()
            &&& d.subrange(q1 + 10, d1) == dec_digits(st.chain)
            &&& d[d1] == 44
            &&& d.subrange(d1, d1 + 15) == sm_chain_code()
            &&& d.subrange(d1 + 15, q2) == cb
            &&& d[q2] == 34
            &&& d.subrange(q2, q2 + 16) == sm_chain_name()
            &&& d.subrange(q2 + 16, q3) == nb
            &&& d[q3] == 34
        }),
{
    let d = status_bytes(st);
    let kb = vstd::utf8::encode_utf8(st.kind@);
    let cb = vstd::utf8::encode_utf8(st.chain_code@);
    let nb = vstd::utf8::encode_utf8(st.chain_name@);
    let q1 = 9 + kb.len() as int;
    let d1 = q1 + 10 + dec_digits(st.chain).len() as int;
    let q2 = d1 + 15 + cb.len() as int;
    let q3 = q2 + 16 + nb.len() as int;
    assert(d.subrange(0, 9) =~= sm_type());
    assert(d.subrange(9, q1) =~= kb);
    assert(d.subrange(q1, q1 + 10) =~= sm_chain());
    assert(d.subrange(q1 + 10, d1) =~= dec_digits(st.chain));
    assert(d.subrange(d1, d1 + 15) =~= sm_chain_code());
    assert(d.subrange(d1 + 15, q2) =~= cb);
    assert(d.subrange(q2, q2 + 16) =~= sm_chain_name());
    assert(d.subrange(q2 + 16, q3) =~= nb);
}

#[verifier::rlimit(100)]
proof fn lemma_status_layout_back(st: Status)
    requires
        status_fields_plain(st),
    ensures
        ({
            let d = status_bytes(st);
            let kb = vstd::utf8::encode_utf8(st.kind@);
            let cb = vstd::utf8::encode_utf8(st.chain_code@);
            let nb = vstd::utf8::encode_utf8(st.chain_name@);
            let eb = vstd::utf8::encode_utf8(st.entity@);
            let sb = vstd::utf8::encode_utf8(st.service@);
            let tb = vstd::utf8::encode_utf8(st.status@);
            let q1 = 9 + kb.len() as int;
            let d1 = q1 + 10 + dec_digits(st.chain).len() as int;
            let q2 = d1 + 15 + cb.len() as int;
            let q3 = q2 + 16 + nb.len() as int;
            let q4 = q3 + 12 + eb.len() as int;
            let d2 = q4 + 24 + dec_digits(st.latest_block_height).len() as int;
            let q5 = d2 + 12 + sb.len() as int;
            let q6 = q5 + 12 + tb.len() as int;
            let d3 = q6 + 14 + dec_digits(st.timestamp).len() as int;
            &&& d.subrange(q3, q3 + 12) == sm_entity()
            &&& d.subrange(q3 + 12, q4) == eb
            &&& d[q4] == 34
            &&& d.subrange(q4, q4 + 24) == sm_height()
            &&& d.subrange(q4 + 24, d2) == dec_digits(st.latest_block_height)
            &&& d[d2] == 44
            &&& d.subrange(d2, d2 + 12) == sm_service()
            &&& d.subrange(d2 + 12, q5) == sb
            &&& d[q5] == 34
            &&& d.subrange(q5, q5 + 12) == sm_status()
            &&& d.subrange(q5 + 12, q6) == tb
            &&& d[q6] == 34
            &&& d.subrange(q6, q6 + 14) == sm_timestamp()
            &&& d.subrange(q6 + 14, d3) == dec_digits(st.timestamp)
            &&& d[d3] == 125
            &&& d.len() == d3 + 1
        }),
{
    let d = status_bytes(st);
    let kb = vstd::utf8::encode_utf8(st.kind@);
    let cb = vstd::utf8::encode_utf8(st.chain_code@);
    let nb = vstd::utf8::encode_utf8(st.chain_name@);
    let eb = vstd::utf8::encode_utf8(st.entity@);
    let sb = vstd::utf8::encode_utf8(st.service@);
    let tb = vstd::utf8::encode_utf8(st.status@);
    let q1 = 9 + kb.len() as int;
    let d1 = q1 + 10 + dec_digits(st.chain).len() as int;
    let q2 = d1 + 15 + cb.len() as int;
    let q3 = q2 + 16 + nb.len() as int;
    let q4 = q3 + 12 + eb.len() as int;
    let d2 = q4 + 24 + dec_digits(st.latest_block_height).len() as int;
    let q5 = d2 + 12 + sb.len() as int;
    let q6 = q5 + 12 + tb.len() as int;
    let d3 = q6 + 14 + dec_digits(st.timestamp).len() as int;
    assert(d.subrange(q3, q3 + 12) =~= sm_entity());
    assert(d.subrange(q3 + 12, q4) =~= eb);
    assert(d.subrange(q4, q4 + 24) =~= sm_height());
    assert(d.subrange(q4 + 24, d2) =~= dec_digits(st.latest_block_height));
    assert(d.subrange(d2, d2 + 12) =~= sm_service());
    assert(d.subrange(d2 + 12, q5) =~= sb);
    assert(d.subrange(q5, q5 + 12) =~= sm_status());
    assert(d.subrange(q5 + 12, q6) =~= tb);
    assert(d.subrange(q6, q6 + 14) =~= sm_timestamp());
    assert(d.subrange(q6 + 14, d3) =~= dec_digits(st.timestamp));
}

/// Reads one string field: the marker, then text up to the closing
/// quote. Complete: a marker-led quote-free text that sits there is
/// always read, up to its own closing quote.
fn read_text(hn: &Vec<u8>, pos: usize, marker: &Vec<u8>) -> (r: Option<(String, usize)>)
    requires
        pos <= hn@.len(),
    ensures
        match r {
            Some(p) => {
                &&& pos + marker@.len() <= p.1 < hn@.len()
                &&& hn@.subrange(pos as int, pos + marker@.len()) == marker@
                &&& hn@.subrange(pos + marker@.len(), p.1 as int) == vstd::utf8::encode_utf8(
                    p.0@,
                )
                &&& crate::envelope::no_quote(vstd::utf8::encode_utf8(p.0@))
                &&& hn@[p.1 as int] == 34
            },
            None => true,
        },
        forall|content: Seq<char>|
            #![trigger vstd::utf8::encode_utf8(content)]
            ({
                let q = pos + marker@.len() + vstd::utf8::encode_utf8(content).len() as int;
                &&& q < hn@.len()
                &&& hn@.subrange(pos as int, pos + marker@.len()) == marker@
                &&& hn@.subrange(pos + marker@.len(), q) == vstd::utf8::encode_utf8(content)
                &&& crate::envelope::no_quote(vstd::utf8::encode_utf8(content))
                &&& hn@[q] == 34
            }) ==> (r matches Some(p) && p.0@ == content && p.1 == pos + marker@.len()
                + vstd::utf8::encode_utf8(content).len()),
{
    let n = hn.len();
    proof {
        assert(n == hn@.len());
    }
    if !match_at(hn, pos, marker) {
        return None;
    }
    let q = match scan_until(hn, pos + marker.len(), 34) {
        Some(j) => j,
        None => {
            return None;
        },
    };
    let mut content_b: Vec<u8> = Vec::new();
    push_slice_range(&mut content_b, hn, pos + marker.len(), q);
    let ghost gb = content_b@;
    match crate::worker::utf8_to_string(content_b) {
        Some(s) => {
            proof {
                vstd::utf8::decode_utf8_encode_utf8(gb);
                assert forall|content: Seq<char>|
                    #![trigger vstd::utf8::encode_utf8(content)]
                    ({
                        let q2 = pos + marker@.len() + vstd::utf8::encode_utf8(
                            content,
                        ).len() as int;
                        &&& q2 < hn@.len()
                        &&& hn@.subrange(pos as int, pos + marker@.len()) == marker@
                        &&& hn@.subrange(pos + marker@.len(), q2) == vstd::utf8::encode_utf8(
                            content,
                        )
                        &&& crate::envelope::no_quote(vstd::utf8::encode_utf8(content))
                        &&& hn@[q2] == 34
                    }) implies (s@ == content && q as int == pos + marker@.len()
                    + vstd::utf8::encode_utf8(content).len()) by {
                    let q2 = pos + marker@.len() + vstd::utf8::encode_utf8(
                        content,
                    ).len() as int;
                    assert forall|k: int|
                        pos + marker@.len() <= k < q2 implies hn@[k] != 34 by {
                        assert(hn@[k] == hn@.subrange(pos + marker@.len(), q2)[k - pos
                            - marker@.len()]);
                    }
                    crate::envelope::lemma_quote_scan_pins(
                        hn@,
                        pos + marker@.len(),
                        q2,
                        q as int,
                    );
                    vstd::utf8::encode_utf8_decode_utf8(content);
                }
            }
            Some((s, q))
        },
        None => {
            proof {
                assert forall|content: Seq<char>|
                    #![trigger vstd::utf8::encode_utf8(content)]
                    ({
                        let q2 = pos + marker@.len() + vstd::utf8::encode_utf8(
                            content,
                        ).len() as int;
                        &&& q2 < hn@.len()
                        &&& hn@.subrange(pos as int, pos + marker@.len()) == marker@
                        &&& hn@.subrange(pos + marker@.len(), q2) == vstd::utf8::encode_utf8(
                            content,
                        )
                        &&& crate::envelope::no_quote(vstd::utf8::encode_utf8(content))
                        &&& hn@[q2] == 34
                    }) implies false by {
                    let q2 = pos + marker@.len() + vstd::utf8::encode_utf8(
                        content,
                    ).len() as int;
                    assert forall|k: int|
                        pos + marker@.len() <= k < q2 implies hn@[k] != 34 by {
                        assert(hn@[k] == hn@.subrange(pos + marker@.len(), q2)[k - pos
                            - marker@.len()]);
                    }
                    crate::envelope::lemma_quote_scan_pins(
                        hn@,
                        pos + marker@.len(),
                        q2,
                        q as int,
                    );
                    vstd::utf8::encode_utf8_valid_utf8(content);
                }
            }
            None
        },
    }
}

/// Reads one numeric field: the marker, then a digit run. Complete: a
/// marker-led rendered number that sits there is always read.
fn read_num(hn: &Vec<u8>, pos: usize, marker: &Vec<u8>) -> (r: Option<(u64, usize)>)
    requires
        pos <= hn@.len(),
    ensures
        match r {
            Some(p) => {
                &&& pos + marker@.len() < p.1 <= hn@.len()
                &&& hn@.subrange(pos as int, pos + marker@.len()) == marker@
                &&& hn@.subrange(pos + marker@.len(), p.1 as int) == dec_digits(p.0)
                &&& (p.1 == hn@.len() || !is_dec_digit(hn@[p.1 as int]))
            },
            None => true,
        },
        forall|v: u64|
            #![trigger dec_digits(v)]
            ({
                let end = pos + marker@.len() + dec_digits(v).len() as int;
                &&& end <= hn@.len()
                &&& hn@.subrange(pos as int, pos + marker@.len()) == marker@
                &&& hn@.subrange(pos + marker@.len(), end) == dec_digits(v)
                &&& (end == hn@.len() || !is_dec_digit(hn@[end]))
            }) ==> (r matches Some(p) && p.0 == v && p.1 == pos + marker@.len() + dec_digits(
                v,
            ).len()),
{
    let n = hn.len();
    proof {
        assert(n == hn@.len());
    }
    if !match_at(hn, pos, marker) {
        return None;
    }
    match parse_number_run(hn, pos + marker.len()) {
        Some(p) => Some(p),
        None => None,
    }
}

/// Reads the record's first four fields. Complete: on a canonical
/// record the front is always read, field for field.
#[verifier::rlimit(100)]
fn read_status_front(hn: &Vec<u8>) -> (r: Option<
    (String, usize, u64, usize, String, usize, String, usize),
>)
    ensures
        match r {
            Some(p) => {
                let (kind, q1, chain, d1, code, q2, name, q3) = p;
                &&& 9 <= q1 && q1 + 10 <= d1 && d1 + 15 <= q2 && q2 + 16 <= q3 <= hn@.len()
                &&& hn@.subrange(0, 9) == sm_type()
                &&& hn@.subrange(9, q1 as int) == vstd::utf8::encode_utf8(kind@)
                &&& hn@.subrange(q1 as int, q1 + 10) == sm_chain()
                &&& hn@.subrange(q1 + 10, d1 as int) == dec_digits(chain)
                &&& hn@.subrange(d1 as int, d1 + 15) == sm_chain_code()
                &&& hn@.subrange(d1 + 15, q2 as int) == vstd::utf8::encode_utf8(code@)
                &&& hn@.subrange(q2 as int, q2 + 16) == sm_chain_name()
                &&& hn@.subrange(q2 + 16, q3 as int) == vstd::utf8::encode_utf8(name@)
                &&& crate::envelope::no_quote(vstd::utf8::encode_utf8(kind@))
                &&& crate::envelope::no_quote(vstd::utf8::encode_utf8(code@))
                &&& crate::envelope::no_quote(vstd::utf8::encode_utf8(name@))
            },
            None => true,
        },
        forall|st: Status|
            #![trigger status_bytes(st)]
            status_fields_plain(st) && hn@ == status_bytes(st) ==> (r matches Some(p) && p.0@
                == st.kind@ && p.2 == st.chain && p.4@ == st.chain_code@ && p.6@
                == st.chain_name@ && p.7 == 9 + vstd::utf8::encode_utf8(st.kind@).len() + 10
                + dec_digits(st.chain).len() + 15 + vstd::utf8::encode_utf8(
                st.chain_code@,
            ).len() + 16 + vstd::utf8::encode_utf8(st.chain_name@).len()),
{
    let m1: Vec<u8> = vec![123, 34, 116, 121, 112, 101, 34, 58, 34];
    let m2: Vec<u8> = vec![34, 44, 34, 99, 104, 97, 105, 110, 34, 58];
    let m3: Vec<u8> = vec![44, 34, 99, 104, 97, 105, 110, 95, 99, 111, 100, 101, 34, 58, 34];
    let m4: Vec<u8> = vec![
        34, 44, 34, 99, 104, 97, 105, 110, 95, 110, 97, 109, 101, 34, 58, 34,
    ];
    proof {
        assert(m1@ =~= sm_type());
        assert(m2@ =~= sm_chain());
        assert(m3@ =~= sm_chain_code());
        assert(m4@ =~= sm_chain_name());
        assert(!is_dec_digit(44));
    }
    let (kind, q1) = match read_text(hn, 0, &m1) {
        Some(p) => p,
        None => {
            proof {
                assert forall|st: Status| status_fields_plain(st) && hn@
                    == #[trigger] status_bytes(st) implies false by {
                    lemma_status_layout(st);
                    assert(vstd::utf8::encode_utf8(st.kind@) == vstd::utf8::encode_utf8(
                        st.kind@,
                    ));
                }
            }
            return None;
        },
    };
    let (chain, d1) = match read_num(hn, q1, &m2) {
        Some(p) => p,
        None => {
            proof {
                assert forall|st: Status| status_fields_plain(st) && hn@
                    == #[trigger] status_bytes(st) implies false by {
                    lemma_status_layout(st);
                    assert(q1 as int == 9 + vstd::utf8::encode_utf8(st.kind@).len());
                    assert(dec_digits(st.chain) == dec_digits(st.chain));
                }
            }
            return None;
        },
    };
    let (code, q2) = match read_text(hn, d1, &m3) {
        Some(p) => p,
        None => {
            proof {
                assert forall|st: Status| status_fields_plain(st) && hn@
                    == #[trigger] status_bytes(st) implies false by {
                    lemma_status_layout(st);
                    assert(q1 as int == 9 + vstd::utf8::encode_utf8(st.kind@).len());
                    assert(d1 as int == q1 + 10 + dec_digits(st.chain).len());
                    assert(vstd::utf8::encode_utf8(st.chain_code@) == vstd::utf8::encode_utf8(
                        st.chain_code@,
                    ));
                }
            }
            return None;
        },
    };
    let (name, q3) = match read_text(hn, q2, &m4) {
        Some(p) => p,
        None => {
            proof {
                assert forall|st: Status| status_fields_plain(st) && hn@
                    == #[trigger] status_bytes(st) implies false by {
                    lemma_status_layout(st);
                    assert(q1 as int == 9 + vstd::utf8::encode_utf8(st.kind@).len());
                    assert(d1 as int == q1 + 10 + dec_digits(st.chain).len());
                    assert(q2 as int == d1 + 15 + vstd::utf8::encode_utf8(
                        st.chain_code@,
                    ).len());
                    assert(vstd::utf8::encode_utf8(st.chain_name@) == vstd::utf8::encode_utf8(
                        st.chain_name@,
                    ));
                }
            }
            return None;
        },
    };
    proof {
        assert forall|st: Status| status_fields_plain(st) && hn@ == #[trigger] status_bytes(
            st,
        ) implies (kind@ == st.kind@ && chain == st.chain && code@ == st.chain_code@ && name@
            == st.chain_name@ && q3 as int == 9 + vstd::utf8::encode_utf8(st.kind@).len() + 10
            + dec_digits(st.chain).len() + 15 + vstd::utf8::encode_utf8(st.chain_code@).len()
            + 16 + vstd::utf8::encode_utf8(st.chain_name@).len()) by {
            lemma_status_layout(st);
            assert(q1 as int == 9 + vstd::utf8::encode_utf8(st.kind@).len());
            assert(d1 as int == q1 + 10 + dec_digits(st.chain).len());
            assert(q2 as int == d1 + 15 + vstd::utf8::encode_utf8(st.chain_code@).len());
            assert(q3 as int == q2 + 16 + vstd::utf8::encode_utf8(st.chain_name@).len());
        }
    }
    Some((kind, q1, chain, d1, code, q2, name, q3))
}

/// Reads the record's last five fields and the closing brace, which must
/// end the chunk. Complete: on a canonical record the back is always
/// read, field for field.
#[verifier::rlimit(100)]
fn read_status_back(hn: &Vec<u8>, q3: usize) -> (r: Option<
    (String, usize, u64, usize, String, usize, String, usize, u64, usize),
>)
    requires
        q3 <= hn@.len(),
    ensures
        match r {
            Some(p) => {
                let (entity, q4, height, d2, service, q5, status, q6, ts, d3) = p;
                &&& q3 + 12 <= q4 && q4 + 24 <= d2 && d2 + 12 <= q5 && q5 + 12 <= q6 && q6 + 14
                    <= d3 < hn@.len()
                &&& hn@.subrange(q3 as int, q3 + 12) == sm_entity()
                &&& hn@.subrange(q3 + 12, q4 as int) == vstd::utf8::encode_utf8(entity@)
                &&& hn@.subrange(q4 as int, q4 + 24) == sm_height()
                &&& hn@.subrange(q4 + 24, d2 as int) == dec_digits(height)
                &&& hn@.subrange(d2 as int, d2 + 12) == sm_service()
                &&& hn@.subrange(d2 + 12, q5 as int) == vstd::utf8::encode_utf8(service@)
                &&& hn@.subrange(q5 as int, q5 + 12) == sm_status()
                &&& hn@.subrange(q5 + 12, q6 as int) == vstd::utf8::encode_utf8(status@)
                &&& hn@.subrange(q6 as int, q6 + 14) == sm_timestamp()
                &&& hn@.subrange(q6 + 14, d3 as int) == dec_digits(ts)
                &&& hn@[d3 as int] == 125
                &&& hn@.len() == d3 + 1
                &&& crate::envelope::no_quote(vstd::utf8::encode_utf8(entity@))
                &&& crate::envelope::no_quote(vstd::utf8::encode_utf8(service@))
                &&& crate::envelope::no_quote(vstd::utf8::encode_utf8(status@))
            },
            None => true,
        },
        forall|st: Status|
            #![trigger status_bytes(st)]
            status_fields_plain(st) && hn@ == status_bytes(st) && q3 as int == 9
                + vstd::utf8::encode_utf8(st.kind@).len() + 10 + dec_digits(st.chain).len()
                + 15 + vstd::utf8::encode_utf8(st.chain_code@).len() + 16
                + vstd::utf8::encode_utf8(st.chain_name@).len() ==> (r matches Some(p) && p.0@
                == st.entity@ && p.2 == st.latest_block_height && p.4@ == st.service@ && p.6@
                == st.status@ && p.8 == st.timestamp),
{
    let n = hn.len();
    let m5: Vec<u8> = vec![34, 44, 34, 101, 110, 116, 105, 116, 121, 34, 58, 34];
    let m6: Vec<u8> = vec![
        34, 44, 34, 108, 97, 116, 101, 115, 116, 95, 98, 108, 111, 99, 107, 95, 104, 101, 105,
        103, 104, 116, 34, 58,
    ];
    let m7: Vec<u8> = vec![44, 34, 115, 101, 114, 118, 105, 99, 101, 34, 58, 34];
    let m8: Vec<u8> = vec![34, 44, 34, 115, 116, 97, 116, 117, 115, 34, 58, 34];
    let m9: Vec<u8> = vec![34, 44, 34, 116, 105, 109, 101, 115, 116, 97, 109, 112, 34, 58];
    proof {
        assert(m5@ =~= sm_entity());
        assert(m6@ =~= sm_height());
        assert(m7@ =~= sm_service());
        assert(m8@ =~= sm_status());
        assert(m9@ =~= sm_timestamp());
        assert(!is_dec_digit(44));
        assert(!is_dec_digit(125));
    }
    let (entity, q4) = match read_text(hn, q3, &m5) {
        Some(p) => p,
        None => {
            proof {
                assert forall|st: Status| status_fields_plain(st) && hn@
                    == #[trigger] status_bytes(st) && q3 as int == 9 + vstd::utf8::encode_utf8(
                    st.kind@,
                ).len() + 10 + dec_digits(st.chain).len() + 15 + vstd::utf8::encode_utf8(
                    st.chain_code@,
                ).len() + 16 + vstd::utf8::encode_utf8(st.chain_name@).len() implies false by {
                    lemma_status_layout(st);
                    assert(vstd::utf8::encode_utf8(st.entity@) == vstd::utf8::encode_utf8(
                        st.entity@,
                    ));
                }
            }
            return None;
        },
    };
    let (height, d2) = match read_num(hn, q4, &m6) {
        Some(p) => p,
        None => {
            proof {
                assert forall|st: Status| status_fields_plain(st) && hn@
                    == #[trigger] status_bytes(st) && q3 as int == 9 + vstd::utf8::encode_utf8(
                    st.kind@,
                ).len() + 10 + dec_digits(st.chain).len() + 15 + vstd::utf8::encode_utf8(
                    st.chain_code@,
                ).len() + 16 + vstd::utf8::encode_utf8(st.chain_name@).len() implies false by {
                    lemma_status_layout(st);
                    assert(q4 as int == q3 + 12 + vstd::utf8::encode_utf8(st.entity@).len());
                    assert(dec_digits(st.latest_block_height) == dec_digits(
                        st.latest_block_height,
                    ));
                }
            }
            return None;
        },
    };
    let (service, q5) = match read_text(hn, d2, &m7) {
        Some(p) => p,
        None => {
            proof {
                assert forall|st: Status| status_fields_plain(st) && hn@
                    == #[trigger] status_bytes(st) && q3 as int == 9 + vstd::utf8::encode_utf8(
                    st.kind@,
                ).len() + 10 + dec_digits(st.chain).len() + 15 + vstd::utf8::encode_utf8(
                    st.chain_code@,
                ).len() + 16 + vstd::utf8::encode_utf8(st.chain_name@).len() implies false by {
                    lemma_status_layout(st);
                    assert(q4 as int == q3 + 12 + vstd::utf8::encode_utf8(st.entity@).len());
                    assert(d2 as int == q4 + 24 + dec_digits(st.latest_block_height).len());
                    assert(vstd::utf8::encode_utf8(st.service@) == vstd::utf8::encode_utf8(
                        st.service@,
                    ));
                }
            }
            return None;
        },
    };
    let (status, q6, ts, d3) = match read_status_tail(hn, q5) {
        Some(p) => p,
        None => {
            proof {
                assert forall|st: Status| status_fields_plain(st) && hn@
                    == #[trigger] status_bytes(st) && q3 as int == 9 + vstd::utf8::encode_utf8(
                    st.kind@,
                ).len() + 10 + dec_digits(st.chain).len() + 15 + vstd::utf8::encode_utf8(
                    st.chain_code@,
                ).len() + 16 + vstd::utf8::encode_utf8(st.chain_name@).len() implies false by {
                    lemma_status_layout(st);
                    assert(q4 as int == q3 + 12 + vstd::utf8::encode_utf8(st.entity@).len());
                    assert(d2 as int == q4 + 24 + dec_digits(st.latest_block_height).len());
                    assert(q5 as int == d2 + 12 + vstd::utf8::encode_utf8(st.service@).len());
                }
            }
            return None;
        },
    };
    proof {
        assert forall|st: Status| status_fields_plain(st) && hn@ == #[trigger] status_bytes(
            st,
        ) && q3 as int == 9 + vstd::utf8::encode_utf8(st.kind@).len() + 10 + dec_digits(
            st.chain,
        ).len() + 15 + vstd::utf8::encode_utf8(st.chain_code@).len() + 16
            + vstd::utf8::encode_utf8(st.chain_name@).len() implies (entity@ == st.entity@
            && height == st.latest_block_height && service@ == st.service@ && status@
            == st.status@ && ts == st.timestamp) by {
            lemma_status_layout(st);
            assert(q4 as int == q3 + 12 + vstd::utf8::encode_utf8(st.entity@).len());
            assert(d2 as int == q4 + 24 + dec_digits(st.latest_block_height).len());
            assert(q5 as int == d2 + 12 + vstd::utf8::encode_utf8(st.service@).len());
            assert(q6 as int == q5 + 12 + vstd::utf8::encode_utf8(st.status@).len());
        }
    }
    Some((entity, q4, height, d2, service, q5, status, q6, ts, d3))
}

/// Reads the record's last two fields and the closing brace, which must
/// end the chunk.
#[verifier::rlimit(100)]
fn read_status_tail(hn: &Vec<u8>, q5: usize) -> (r: Option<(String, usize, u64, usize)>)
    requires
        q5 <= hn@.len(),
    ensures
        match r {
            Some(p) => {
                let (status, q6, ts, d3) = p;
                &&& q5 + 12 <= q6 && q6 + 14 <= d3 < hn@.len()
                &&& hn@.subrange(q5 as int, q5 + 12) == sm_status()
                &&& hn@.subrange(q5 + 12, q6 as int) == vstd::utf8::encode_utf8(status@)
                &&& hn@.subrange(q6 as int, q6 + 14) == sm_timestamp()
                &&& hn@.subrange(q6 + 14, d3 as int) == dec_digits(ts)
                &&& hn@[d3 as int] == 125
                &&& hn@.len() == d3 + 1
                &&& crate::envelope::no_quote(vstd::utf8::encode_utf8(status@))
            },
            None => true,
        },
        forall|st: Status|
            #![trigger status_bytes(st)]
            status_fields_plain(st) && hn@ == status_bytes(st) && q5 as int == 9 + vstd::utf8::encode_utf8(
            st.kind@,
        ).len() + 10 + dec_digits(st.chain).len() + 15 + vstd::utf8::encode_utf8(
            st.chain_code@,
        ).len() + 16 + vstd::utf8::encode_utf8(st.chain_name@).len() + 12
            + vstd::utf8::encode_utf8(st.entity@).len() + 24 + dec_digits(
            st.latest_block_height,
        ).len() + 12 + vstd::utf8::encode_utf8(st.service@).len() ==> (r matches Some(p) && p.0@ == st.status@ && p.2 == st.timestamp),
{
    let n = hn.len();
    let m8: Vec<u8> = vec![34, 44, 34, 115, 116, 97, 116, 117, 115, 34, 58, 34];
    let m9: Vec<u8> = vec![34, 44, 34, 116, 105, 109, 101, 115, 116, 97, 109, 112, 34, 58];
    proof {
        assert(m8@ =~= sm_status());
        assert(m9@ =~= sm_timestamp());
        assert(!is_dec_digit(125));
    }
    let (status, q6) = match read_text(hn, q5, &m8) {
        Some(p) => p,
        None => {
            proof {
                assert forall|st: Status| status_fields_plain(st) && hn@
                    == #[trigger] status_bytes(st) && q5 as int == 9 + vstd::utf8::encode_utf8(
            st.kind@,
        ).len() + 10 + dec_digits(st.chain).len() + 15 + vstd::utf8::encode_utf8(
            st.chain_code@,
        ).len() + 16 + vstd::utf8::encode_utf8(st.chain_name@).len() + 12
            + vstd::utf8::encode_utf8(st.entity@).len() + 24 + dec_digits(
            st.latest_block_height,
        ).len() + 12 + vstd::utf8::encode_utf8(st.service@).len() implies false by {
                    lemma_status_layout(st);
                    assert(vstd::utf8::encode_utf8(st.status@) == vstd::utf8::encode_utf8(
                        st.status@,
                    ));
                }
            }
            return None;
        },
    };
    let (ts, d3) = match read_num(hn, q6, &m9) {
        Some(p) => p,
        None => {
            proof {
                assert forall|st: Status| status_fields_plain(st) && hn@
                    == #[trigger] status_bytes(st) && q5 as int == 9 + vstd::utf8::encode_utf8(
            st.kind@,
        ).len() + 10 + dec_digits(st.chain).len() + 15 + vstd::utf8::encode_utf8(
            st.chain_code@,
        ).len() + 16 + vstd::utf8::encode_utf8(st.chain_name@).len() + 12
            + vstd::utf8::encode_utf8(st.entity@).len() + 24 + dec_digits(
            st.latest_block_height,
        ).len() + 12 + vstd::utf8::encode_utf8(st.service@).len() implies false by {
                    lemma_status_layout(st);
                    assert(q6 as int == q5 + 12 + vstd::utf8::encode_utf8(st.status@).len());
                    assert(dec_digits(st.timestamp) == dec_digits(st.timestamp));
                }
            }
            return None;
        },
    };
    if d3 >= n || hn[d3] != 125 || d3 + 1 != n {
        proof {
            assert forall|st: Status| status_fields_plain(st) && hn@ == #[trigger] status_bytes(
                st,
            ) && q5 as int == 9 + vstd::utf8::encode_utf8(
            st.kind@,
        ).len() + 10 + dec_digits(st.chain).len() + 15 + vstd::utf8::encode_utf8(
            st.chain_code@,
        ).len() + 16 + vstd::utf8::encode_utf8(st.chain_name@).len() + 12
            + vstd::utf8::encode_utf8(st.entity@).len() + 24 + dec_digits(
            st.latest_block_height,
        ).len() + 12 + vstd::utf8::encode_utf8(st.service@).len() implies false by {
                lemma_status_layout(st);
                assert(q6 as int == q5 + 12 + vstd::utf8::encode_utf8(st.status@).len());
                assert(d3 as int == q6 + 14 + dec_digits(st.timestamp).len());
            }
        }
        return None;
    }
    proof {
        assert forall|st: Status| status_fields_plain(st) && hn@ == #[trigger] status_bytes(
            st,
        ) && q5 as int == 9 + vstd::utf8::encode_utf8(
            st.kind@,
        ).len() + 10 + dec_digits(st.chain).len() + 15 + vstd::utf8::encode_utf8(
            st.chain_code@,
        ).len() + 16 + vstd::utf8::encode_utf8(st.chain_name@).len() + 12
            + vstd::utf8::encode_utf8(st.entity@).len() + 24 + dec_digits(
            st.latest_block_height,
        ).len() + 12 + vstd::utf8::encode_utf8(st.service@).len() implies (status@ == st.status@ && ts == st.timestamp) by {
            lemma_status_layout(st);
            assert(q6 as int == q5 + 12 + vstd::utf8::encode_utf8(st.status@).len());
            assert(d3 as int == q6 + 14 + dec_digits(st.timestamp).len());
        }
    }
    Some((status, q6, ts, d3))
}

/// Reads one status chunk: a flat record in the listed field order,
/// whitespace tolerated, escapes not read. A chunk that does not read as
/// a record is an item-level error; the stream is not torn down.
/// Complete for quote-free fields: whenever the chunk reads, spaces
/// aside, as a canonical record, it is accepted.
#[verifier::rlimit(100)]
pub fn decode_status(chunk: &Vec<u8>) -> (r: Result<Status, WsError>)
    ensures
        match r {
            Ok(st) => strip_ws(chunk@) == status_bytes(st) && status_fields_plain(st),
            Err(e) => (e matches WsError::UnexpectedMessageFormat) && forall|st: Status|
                #![trigger status_bytes(st)]
                status_fields_plain(st) ==> strip_ws(chunk@) != status_bytes(st),
        },
{
    proof {
        assert(chunk@.subrange(0, chunk@.len() as int) =~= chunk@);
    }
    let hn = normalize(chunk, 0, chunk.len());
    let (kind, q1, chain, d1, chain_code, q2, chain_name, q3) = match read_status_front(&hn) {
        Some(p) => p,
        None => {
            return Err(WsError::UnexpectedMessageFormat);
        },
    };
    let (entity, q4, height, d2, service, q5, status, q6, ts, d3) = match read_status_back(
        &hn,
        q3,
    ) {
        Some(p) => p,
        None => {
            return Err(WsError::UnexpectedMessageFormat);
        },
    };
    let st = Status {
        kind,
        chain,
        chain_code,
        chain_name,
        entity,
        latest_block_height: height,
        service,
        status,
        timestamp: ts,
    };
    proof {
        lemma_status_stitch(
            hn@,
            q1 as int,
            d1 as int,
            q2 as int,
            q3 as int,
            q4 as int,
            d2 as int,
            q5 as int,
            q6 as int,
            d3 as int,
            st,
        );
    }
    Ok(st)
}

/// Stitches the parsed segments back into the whole record document.
#[verifier::rlimit(100)]
proof fn lemma_status_stitch(
    h: Seq<u8>,
    qq1: int,
    dd1: int,
    qq2: int,
    qq3: int,
    qq4: int,
    dd2: int,
    qq5: int,
    qq6: int,
    dd3: int,
    st: Status,
)
    requires
        9 <= qq1 <= qq1 + 10 <= dd1 <= dd1 + 15 <= qq2 <= qq2 + 16 <= qq3 <= qq3 + 12 <= qq4
            <= qq4 + 24 <= dd2 <= dd2 + 12 <= qq5 <= qq5 + 12 <= qq6 <= qq6 + 14 <= dd3,
        dd3 + 1 == h.len(),
        h.subrange(0, 9) == sm_type(),
        h.subrange(9, qq1) == vstd::utf8::encode_utf8(st.kind@),
        h.subrange(qq1, qq1 + 10) == sm_chain(),
        h.subrange(qq1 + 10, dd1) == dec_digits(st.chain),
        h.subrange(dd1, dd1 + 15) == sm_chain_code(),
        h.subrange(dd1 + 15, qq2) == vstd::utf8::encode_utf8(st.chain_code@),
        h.subrange(qq2, qq2 + 16) == sm_chain_name(),
        h.subrange(qq2 + 16, qq3) == vstd::utf8::encode_utf8(st.chain_name@),
        h.subrange(qq3, qq3 + 12) == sm_entity(),
        h.subrange(qq3 + 12, qq4) == vstd::utf8::encode_utf8(st.entity@),
        h.subrange(qq4, qq4 + 24) == sm_height(),
        h.subrange(qq4 + 24, dd2) == dec_digits(st.latest_block_height),
        h.subrange(dd2, dd2 + 12) == sm_service(),
        h.subrange(dd2 + 12, qq5) == vstd::utf8::encode_utf8(st.service@),
        h.subrange(qq5, qq5 + 12) == sm_status(),
        h.subrange(qq5 + 12, qq6) == vstd::utf8::encode_utf8(st.status@),
        h.subrange(qq6, qq6 + 14) == sm_timestamp(),
        h.subrange(qq6 + 14, dd3) == dec_digits(st.timestamp),
        h[dd3] == 125,
    ensures
        h == status_bytes(st),
{
    assert(h.subrange(0, qq1) =~= h.subrange(0, 9) + h.subrange(9, qq1));
    assert(h.subrange(0, qq1 + 10) =~= h.subrange(0, qq1) + h.subrange(qq1, qq1 + 10));
    assert(h.subrange(0, dd1) =~= h.subrange(0, qq1 + 10) + h.subrange(qq1 + 10, dd1));
    assert(h.subrange(0, dd1 + 15) =~= h.subrange(0, dd1) + h.subrange(dd1, dd1 + 15));
    assert(h.subrange(0, qq2) =~= h.subrange(0, dd1 + 15) + h.subrange(dd1 + 15, qq2));
    assert(h.subrange(0, qq2 + 16) =~= h.subrange(0, qq2) + h.subrange(qq2, qq2 + 16));
    assert(h.subrange(0, qq3) =~= h.subrange(0, qq2 + 16) + h.subrange(qq2 + 16, qq3));
    assert(h.subrange(0, qq3 + 12) =~= h.subrange(0, qq3) + h.subrange(qq3, qq3 + 12));
    assert(h.subrange(0, qq4) =~= h.subrange(0, qq3 + 12) + h.subrange(qq3 + 12, qq4));
    assert(h.subrange(0, qq4 + 24) =~= h.subrange(0, qq4) + h.subrange(qq4, qq4 + 24));
    assert(h.subrange(0, dd2) =~= h.subrange(0, qq4 + 24) + h.subrange(qq4 + 24, dd2));
    assert(h.subrange(0, dd2 + 12) =~= h.subrange(0, dd2) + h.subrange(dd2, dd2 + 12));
    assert(h.subrange(0, qq5) =~= h.subrange(0, dd2 + 12) + h.subrange(dd2 + 12, qq5));
    assert(h.subrange(0, qq5 + 12) =~= h.subrange(0, qq5) + h.subrange(qq5, qq5 + 12));
    assert(h.subrange(0, qq6) =~= h.subrange(0, qq5 + 12) + h.subrange(qq5 + 12, qq6));
    assert(h.subrange(0, qq6 + 14) =~= h.subrange(0, qq6) + h.subrange(qq6, qq6 + 14));
    assert(h.subrange(0, dd3) =~= h.subrange(0, qq6 + 14) + h.subrange(qq6 + 14, dd3));
    assert(h.subrange(dd3, dd3 + 1) =~= seq![125u8]);
    assert(h =~= h.subrange(0, dd3) + h.subrange(dd3, dd3 + 1));
    assert(h == status_bytes(st));
}

} // verus!