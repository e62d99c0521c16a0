//! Inbound frames: one socket message per frame, an ASCII JSON header
//! line, a newline, then the opaque body. The parser splits at the first
//! newline and reads the header; it tolerates JSON whitespace around the
//! header's tokens and reads it both ways exactly: an accepted header
//! renders back, spaces dropped, to the canonical header document, and a
//! canonical header document is always accepted.

use vstd::prelude::*;

use crate::envelope::{match_at, parse_number_run, parse_uuid, push_slice_range, scan_until, uuid_bytes, vec_eq};
use crate::error::WsError;
use crate::ids::{dec_digits, is_dec_digit};
use crate::registry::MsgId;

verus! {

/// The kind tag a frame header carries.
#[derive(Clone, Copy, Debug, PartialEq, Eq, Structural)]
pub enum Kind {
    Start,
    Continue,
    ContinueWithError,
    End,
    Error,
    Subscription,
}

/// A parsed frame header.
#[derive(Clone, Copy, Debug, PartialEq, Eq, Structural)]
pub struct FrameHeader {
    pub kind: Kind,
    pub id: MsgId,
    pub counter: u64,
    pub epoch: Option<u64>,
}

pub open spec fn kind_wire_spec(k: Kind) -> Seq<u8> {
    match k {
        Kind::Start => seq![83, 116, 97, 114, 116],  // Start
        Kind::Continue => seq![67, 111, 110, 116, 105, 110, 117, 101],  // Continue
        Kind::ContinueWithError => seq![
            67, 111, 110, 116, 105, 110, 117, 101, 87, 105, 116, 104, 69, 114, 114, 111, 114,
        ],  // ContinueWithError
        Kind::End => seq![69, 110, 100],  // End
        Kind::Error => seq![69, 114, 114, 111, 114],  // Error
        Kind::Subscription => seq![83, 117, 98, 115, 99, 114, 105, 112, 116, 105, 111, 110],  // Subscription
    }
}

pub open spec fn kind_unwire_spec(s: Seq<u8>) -> Option<Kind> {
    if s == kind_wire_spec(Kind::Start) {
        Some(Kind::Start)
    } else if s == kind_wire_spec(Kind::Continue) {
        Some(Kind::Continue)
    } else if s == kind_wire_spec(Kind::ContinueWithError) {
        Some(Kind::ContinueWithError)
    } else if s == kind_wire_spec(Kind::End) {
        Some(Kind::End)
    } else if s == kind_wire_spec(Kind::Error) {
        Some(Kind::Error)
    } else if s == kind_wire_spec(Kind::Subscription) {
        Some(Kind::Subscription)
    } else {
        None
    }
}

/// The wire name of a frame kind.
pub fn kind_wire(k: &Kind) -> (r: Vec<u8>)
    ensures
        r@ == kind_wire_spec(*k),
{
    match k {
        Kind::Start => {
            let v: Vec<u8> = vec![83, 116, 97, 114, 116];
            proof {
                assert(v@ =~= kind_wire_spec(Kind::Start));
            }
            v
        },
        Kind::Continue => {
            let v: Vec<u8> = vec![67, 111, 110, 116, 105, 110, 117, 101];
            proof {
                assert(v@ =~= kind_wire_spec(Kind::Continue));
            }
            v
        },
        Kind::ContinueWithError => {
            let v: Vec<u8> = vec![
                67, 111, 110, 116, 105, 110, 117, 101, 87, 105, 116, 104, 69, 114, 114, 111, 114,
            ];
            proof {
                assert(v@ =~= kind_wire_spec(Kind::ContinueWithError));
            }
            v
        },
        Kind::End => {
            let v: Vec<u8> = vec![69, 110, 100];
            proof {
                assert(v@ =~= kind_wire_spec(Kind::End));
            }
            v
        },
        Kind::Error => {
            let v: Vec<u8> = vec![69, 114, 114, 111, 114];
            proof {
                assert(v@ =~= kind_wire_spec(Kind::Error));
            }
            v
        },
        Kind::Subscription => {
            let v: Vec<u8> = vec![83, 117, 98, 115, 99, 114, 105, 112, 116, 105, 111, 110];
            proof {
                assert(v@ =~= kind_wire_spec(Kind::Subscription));
            }
            v
        },
    }
}

/// Maps a wire name back to its kind.
fn kind_unwire(s: &Vec<u8>) -> (r: Option<Kind>)
    ensures
        r == kind_unwire_spec(s@),
{
    if vec_eq(s, &kind_wire(&Kind::Start)) {
        return Some(Kind::Start);
    }
    if vec_eq(s, &kind_wire(&Kind::Continue)) {
        return Some(Kind::Continue);
    }
    if vec_eq(s, &kind_wire(&Kind::ContinueWithError)) {
        return Some(Kind::ContinueWithError);
    }
    if vec_eq(s, &kind_wire(&Kind::End)) {
        return Some(Kind::End);
    }
    if vec_eq(s, &kind_wire(&Kind::Error)) {
        return Some(Kind::Error);
    }
    if vec_eq(s, &kind_wire(&Kind::Subscription)) {
        return Some(Kind::Subscription);
    }
    None
}

proof fn lemma_kind_unwire_sound(s: Seq<u8>)
    ensures
        match kind_unwire_spec(s) {
            Some(k) => s == kind_wire_spec(k),
            None => true,
        },
{
}


/// Kind names are quote-free and nonempty.
proof fn lemma_kind_wire_plain(k: Kind)
    ensures
        crate::envelope::no_quote(kind_wire_spec(k)),
        kind_wire_spec(k).len() >= 1,
{
    let s = kind_wire_spec(k);
    match k {
        Kind::Start => assert(crate::envelope::no_quote(s)),
        Kind::Continue => assert(crate::envelope::no_quote(s)),
        Kind::ContinueWithError => assert(crate::envelope::no_quote(s)),
        Kind::End => assert(crate::envelope::no_quote(s)),
        Kind::Error => assert(crate::envelope::no_quote(s)),
        Kind::Subscription => assert(crate::envelope::no_quote(s)),
    }
}

/// The chained lookup finds every kind under its own name.
proof fn lemma_kind_unwire_complete(k: Kind)
    ensures
        kind_unwire_spec(kind_wire_spec(k)) == Some(k),
{
    match k {
        Kind::Start => {
            assert(kind_unwire_spec(kind_wire_spec(Kind::Start)) == Some(Kind::Start));
        },
        Kind::Continue => {
            assert(kind_wire_spec(Kind::Continue).len() != kind_wire_spec(Kind::Start).len());
            assert(kind_unwire_spec(kind_wire_spec(Kind::Continue)) == Some(Kind::Continue));
        },
        Kind::ContinueWithError => {
            assert(kind_wire_spec(Kind::ContinueWithError).len() != kind_wire_spec(
                Kind::Start,
            ).len());
            assert(kind_wire_spec(Kind::ContinueWithError).len() != kind_wire_spec(
                Kind::Continue,
            ).len());
            assert(kind_unwire_spec(kind_wire_spec(Kind::ContinueWithError)) == Some(
                Kind::ContinueWithError,
            ));
        },
        Kind::End => {
            assert(kind_wire_spec(Kind::End).len() != kind_wire_spec(Kind::Start).len());
            assert(kind_wire_spec(Kind::End).len() != kind_wire_spec(Kind::Continue).len());
            assert(kind_wire_spec(Kind::End).len() != kind_wire_spec(
                Kind::ContinueWithError,
            ).len());
            assert(kind_unwire_spec(kind_wire_spec(Kind::End)) == Some(Kind::End));
        },
        Kind::Error => {
            assert(kind_wire_spec(Kind::Error)[0] != kind_wire_spec(Kind::Start)[0]);
            assert(kind_wire_spec(Kind::Error).len() != kind_wire_spec(Kind::Continue).len());
            assert(kind_wire_spec(Kind::Error).len() != kind_wire_spec(
                Kind::ContinueWithError,
            ).len());
            assert(kind_wire_spec(Kind::Error).len() != kind_wire_spec(Kind::End).len());
            assert(kind_unwire_spec(kind_wire_spec(Kind::Error)) == Some(Kind::Error));
        },
        Kind::Subscription => {
            assert(kind_wire_spec(Kind::Subscription).len() != kind_wire_spec(
                Kind::Start,
            ).len());
            assert(kind_wire_spec(Kind::Subscription).len() != kind_wire_spec(
                Kind::Continue,
            ).len());
            assert(kind_wire_spec(Kind::Subscription).len() != kind_wire_spec(
                Kind::ContinueWithError,
            ).len());
            assert(kind_wire_spec(Kind::Subscription).len() != kind_wire_spec(Kind::End).len());
            assert(kind_wire_spec(Kind::Subscription).len() != kind_wire_spec(
                Kind::Error,
            ).len());
            assert(kind_unwire_spec(kind_wire_spec(Kind::Subscription)) == Some(
                Kind::Subscription,
            ));
        },
    }
}

pub open spec fn mark_hkind() -> Seq<u8> {
    seq![123, 34, 107, 105, 110, 100, 34, 58, 34]  // {"kind":"
}

pub open spec fn mark_hid() -> Seq<u8> {
    seq![34, 44, 34, 105, 100, 34, 58, 34]  // ","id":"
}

pub open spec fn mark_hcounter() -> Seq<u8> {
    seq![34, 44, 34, 99, 111, 117, 110, 116, 101, 114, 34, 58]  // ","counter":
}

pub open spec fn mark_hepoch() -> Seq<u8> {
    seq![44, 34, 101, 112, 111, 99, 104, 34, 58]  // ,"epoch":
}

/// The canonical (space-free) header document.
pub open spec fn header_bytes(h: FrameHeader) -> Seq<u8> {
    mark_hkind() + kind_wire_spec(h.kind) + mark_hid() + uuid_bytes(h.id.0) + mark_hcounter()
        + dec_digits(h.counter) + (match h.epoch {
        Some(e) => mark_hepoch() + dec_digits(e),
        None => Seq::empty(),
    }) + seq![125u8]
}

/// JSON whitespace outside strings; the newline cannot occur, the frame
/// was split at it.
pub open spec fn ws_byte(b: u8) -> bool {
    b == 32 || b == 9 || b == 13
}

/// `s` with whitespace outside string literals dropped.
pub open spec fn strip_ws_from(s: Seq<u8>, i: int, inq: bool) -> Seq<u8>
    decreases s.len() - i,
{
    if i < 0 || i >= s.len() {
        Seq::empty()
    } else if !inq && ws_byte(s[i]) {
        strip_ws_from(s, i + 1, inq)
    } else {
        seq![s[i]] + strip_ws_from(
            s,
            i + 1,
            if s[i] == 34 {
                !inq
            } else {
                inq
            },
        )
    }
}

pub open spec fn strip_ws(s: Seq<u8>) -> Seq<u8> {
    strip_ws_from(s, 0, false)
}

/// Copies `bytes[from..to]` dropping whitespace outside strings.
pub(crate) fn normalize(bytes: &Vec<u8>, from: usize, to: usize) -> (r: Vec<u8>)
    requires
        from <= to <= bytes@.len(),
    ensures
        r@ == strip_ws(bytes@.subrange(from as int, to as int)),
{
    let ghost s = bytes@.subrange(from as int, to as int);
    let mut out: Vec<u8> = Vec::new();
    let mut inq: bool = false;
    let mut i: usize = from;
    while i < to
        invariant
            from <= i <= to <= bytes@.len(),
            s == bytes@.subrange(from as int, to as int),
            strip_ws(s) == out@ + strip_ws_from(s, i - from, inq),
        decreases to - i,
    {
        let b = bytes[i];
        assert(s[i - from] == b);
        if inq || !(b == 32 || b == 9 || b == 13) {
            out.push(b);
            if b == 34 {
                inq = !inq;
            }
        }
        i = i + 1;
    }
    assert(strip_ws_from(s, to - from, inq) =~= Seq::<u8>::empty());
    out
}


/// How a canonical header document is laid out, for either epoch shape.
#[verifier::rlimit(100)]
proof fn lemma_header_layout(h: FrameHeader)
    ensures
        ({
            let kw = kind_wire_spec(h.kind);
            let cd = dec_digits(h.counter);
            let d = header_bytes(h);
            let j1 = 9 + kw.len() as int;
            let dend = j1 + 56 + cd.len() as int;
            &&& d.subrange(0, 9) == mark_hkind()
            &&& d.subrange(9, j1) == kw
            &&& (forall|k: int| 9 <= k < j1 ==> d[k] != 34)
            &&& d[j1] == 34
            &&& d.subrange(j1, j1 + 8) == mark_hid()
            &&& d.subrange(j1 + 8, j1 + 44) == uuid_bytes(h.id.0)
            &&& d.subrange(j1 + 44, j1 + 56) == mark_hcounter()
            &&& d.subrange(j1 + 56, dend) == cd
            &&& match h.epoch {
                None => d[dend] == 125 && d.len() == dend + 1,
                Some(e) => {
                    let ed = dec_digits(e);
                    &&& d.subrange(dend, dend + 9) == mark_hepoch()
                    &&& d[dend] == 44
                    &&& d.subrange(dend + 9, dend + 9 + ed.len() as int) == ed
                    &&& d[dend + 9 + ed.len() as int] == 125
                    &&& d.len() == dend + 10 + ed.len()
                },
            }
        }),
{
    lemma_kind_wire_plain(h.kind);
    crate::ids::lemma_dec_digits_are_digits(h.counter);
    crate::ids::lemma_hex_digits_are_digits(h.id.0, 32);
    assert(uuid_bytes(h.id.0).len() == 36);
    let kw = kind_wire_spec(h.kind);
    let cd = dec_digits(h.counter);
    let d = header_bytes(h);
    let j1 = 9 + kw.len() as int;
    let dend = j1 + 56 + cd.len() as int;
    match h.epoch {
        None => {
            assert(d =~= mark_hkind() + kw + mark_hid() + uuid_bytes(h.id.0) + mark_hcounter()
                + cd + seq![125u8]);
            assert(d.subrange(0, 9) =~= mark_hkind());
            assert(d.subrange(9, j1) =~= kw);
            assert(d.subrange(j1, j1 + 8) =~= mark_hid());
            assert(d.subrange(j1 + 8, j1 + 44) =~= uuid_bytes(h.id.0));
            assert(d.subrange(j1 + 44, j1 + 56) =~= mark_hcounter());
            assert(d.subrange(j1 + 56, dend) =~= cd);
        },
        Some(e) => {
            crate::ids::lemma_dec_digits_are_digits(e);
            let ed = dec_digits(e);
            assert(d =~= mark_hkind() + kw + mark_hid() + uuid_bytes(h.id.0) + mark_hcounter()
                + cd + mark_hepoch() + ed + seq![125u8]);
            assert(d.subrange(0, 9) =~= mark_hkind());
            assert(d.subrange(9, j1) =~= kw);
            assert(d.subrange(j1, j1 + 8) =~= mark_hid());
            assert(d.subrange(j1 + 8, j1 + 44) =~= uuid_bytes(h.id.0));
            assert(d.subrange(j1 + 44, j1 + 56) =~= mark_hcounter());
            assert(d.subrange(j1 + 56, dend) =~= cd);
            assert(d.subrange(dend, dend + 9) =~= mark_hepoch());
            assert(d.subrange(dend + 9, dend + 9 + ed.len() as int) =~= ed);
        },
    }
    assert forall|k: int| 9 <= k < j1 implies d[k] != 34 by {
        assert(d[k] == d.subrange(9, j1)[k - 9]);
        assert(crate::envelope::no_quote(kw));
    }
}


/// Under the hypothesis that the line is a canonical header document,
/// the scanned first quote pins every field's position.
proof fn lemma_header_pins(d: Seq<u8>, h: FrameHeader, j1: int)
    requires
        d == header_bytes(h),
        9 <= j1 < d.len(),
        d[j1] == 34,
        forall|k: int| 9 <= k < j1 ==> d[k] != 34,
    ensures
        ({
            let cd = dec_digits(h.counter);
            let dend = j1 + 56 + cd.len() as int;
            &&& j1 == 9 + kind_wire_spec(h.kind).len()
            &&& d.subrange(9, j1) == kind_wire_spec(h.kind)
            &&& d.subrange(j1, j1 + 8) == mark_hid()
            &&& d.subrange(j1 + 8, j1 + 44) == uuid_bytes(h.id.0)
            &&& d.subrange(j1 + 44, j1 + 56) == mark_hcounter()
            &&& d.subrange(j1 + 56, dend) == cd
            &&& dend <= d.len()
            &&& match h.epoch {
                None => d[dend] == 125 && d.len() == dend + 1,
                Some(e) => {
                    let ed = dec_digits(e);
                    &&& d.subrange(dend, dend + 9) == mark_hepoch()
                    &&& d[dend] == 44
                    &&& d.subrange(dend + 9, dend + 9 + ed.len() as int) == ed
                    &&& d[dend + 9 + ed.len() as int] == 125
                    &&& d.len() == dend + 10 + ed.len()
                },
            }
        }),
{
    lemma_header_layout(h);
    lemma_kind_wire_plain(h.kind);
    crate::envelope::lemma_quote_scan_pins(d, 9, 9 + kind_wire_spec(h.kind).len() as int, j1);
}

/// Reads the optional epoch and the closing brace, which must end the
/// line. Complete: the tail of a canonical header document is always
/// accepted, as its own epoch.
#[verifier::rlimit(100)]
fn parse_epoch_tail(hn: &Vec<u8>, dend: usize) -> (r: Option<Option<u64>>)
    requires
        dend <= hn@.len(),
    ensures
        match r {
            Some(ep) => match ep {
                None => dend < hn@.len() && hn@[dend as int] == 125 && hn@.len() == dend + 1,
                Some(e) => {
                    &&& hn@.subrange(dend as int, dend + 9) == mark_hepoch()
                    &&& hn@.subrange(dend + 9, hn@.len() - 1) == dec_digits(e)
                    &&& hn@[hn@.len() - 1] == 125
                    &&& hn@.len() == dend + 10 + dec_digits(e).len()
                },
            },
            None => true,
        },
        forall|h2: FrameHeader|
            #![trigger header_bytes(h2)]
            hn@ == header_bytes(h2) && dend == 9 + kind_wire_spec(h2.kind).len() + 56
                + dec_digits(h2.counter).len() ==> r == Some(h2.epoch),
{
    let n = hn.len();
    if dend < n && hn[dend] == 125 {
        if dend + 1 != n {
            proof {
                assert forall|h2: FrameHeader| hn@ == #[trigger] header_bytes(h2) && dend == 9
                    + kind_wire_spec(h2.kind).len() + 56 + dec_digits(
                    h2.counter,
                ).len() implies false by {
                    lemma_header_layout(h2);
                }
            }
            return None;
        }
        proof {
            assert forall|h2: FrameHeader| hn@ == #[trigger] header_bytes(h2) && dend == 9
                + kind_wire_spec(h2.kind).len() + 56 + dec_digits(
                h2.counter,
            ).len() implies Some(Option::<u64>::None) == Some(h2.epoch) by {
                lemma_header_layout(h2);
            }
        }
        return Some(None);
    }
    let me: Vec<u8> = vec![44, 34, 101, 112, 111, 99, 104, 34, 58];
    proof {
        assert(me@ =~= mark_hepoch());
    }
    if !match_at(hn, dend, &me) {
        proof {
            assert forall|h2: FrameHeader| hn@ == #[trigger] header_bytes(h2) && dend == 9
                + kind_wire_spec(h2.kind).len() + 56 + dec_digits(
                h2.counter,
            ).len() implies false by {
                lemma_header_layout(h2);
            }
        }
        return None;
    }
    let (e, dend2) = match parse_number_run(hn, dend + 9) {
        Some(p) => p,
        None => {
            proof {
                assert forall|h2: FrameHeader| hn@ == #[trigger] header_bytes(h2) && dend == 9
                    + kind_wire_spec(h2.kind).len() + 56 + dec_digits(
                    h2.counter,
                ).len() implies false by {
                    lemma_header_layout(h2);
                    match h2.epoch {
                        None => {},
                        Some(e2) => {
                            let ed = dec_digits(e2);
                            assert(hn@.subrange(dend + 9, dend + 9 + ed.len() as int) == ed);
                            assert(!is_dec_digit(hn@[dend + 9 + ed.len() as int]));
                        },
                    }
                }
            }
            return None;
        },
    };
    if dend2 >= n || hn[dend2] != 125 || dend2 + 1 != n {
        proof {
            assert forall|h2: FrameHeader| hn@ == #[trigger] header_bytes(h2) && dend == 9
                + kind_wire_spec(h2.kind).len() + 56 + dec_digits(
                h2.counter,
            ).len() implies false by {
                lemma_header_layout(h2);
                match h2.epoch {
                    None => {},
                    Some(e2) => {
                        let ed = dec_digits(e2);
                        assert(hn@.subrange(dend + 9, dend + 9 + ed.len() as int) == ed);
                        assert(!is_dec_digit(hn@[dend + 9 + ed.len() as int]));
                        assert(dend2 == dend + 9 + ed.len());
                    },
                }
            }
        }
        return None;
    }
    proof {
        assert(hn@.subrange(dend + 9, dend2 as int) == dec_digits(e));
        assert forall|h2: FrameHeader| hn@ == #[trigger] header_bytes(h2) && dend == 9
            + kind_wire_spec(h2.kind).len() + 56 + dec_digits(
            h2.counter,
        ).len() implies Some(Some(e)) == Some(h2.epoch) by {
            lemma_header_layout(h2);
            match h2.epoch {
                None => {},
                Some(e2) => {
                    let ed = dec_digits(e2);
                    assert(hn@.subrange(dend + 9, dend + 9 + ed.len() as int) == ed);
                    assert(!is_dec_digit(hn@[dend + 9 + ed.len() as int]));
                    assert(e == e2);
                },
            }
        }
    }
    Some(Some(e))
}

/// Reads the fixed prefix of the header document: the kind marker and
/// name, the identifier marker and identifier, and the counter marker.
/// On success the returned position is where the counter's digits start.
/// Complete: on a canonical header document the prefix is always read.
#[verifier::rlimit(100)]
fn parse_header_prefix(hn: &Vec<u8>) -> (r: Option<(Kind, u128, usize)>)
    ensures
        match r {
            Some(p) => {
                let j1 = p.2 - 56;
                &&& 9 <= j1
                &&& p.2 <= hn@.len()
                &&& hn@.subrange(0, 9) == mark_hkind()
                &&& hn@.subrange(9, j1 as int) == kind_wire_spec(p.0)
                &&& hn@.subrange(j1 as int, j1 + 8) == mark_hid()
                &&& hn@.subrange(j1 + 8, j1 + 44) == uuid_bytes(p.1)
                &&& hn@.subrange(j1 + 44, p.2 as int) == mark_hcounter()
            },
            None => true,
        },
        forall|h2: FrameHeader|
            #![trigger header_bytes(h2)]
            hn@ == header_bytes(h2) ==> (r matches Some(p) && p.0 == h2.kind && p.1 == h2.id.0
                && p.2 == 65 + kind_wire_spec(h2.kind).len()),
{
    let mk: Vec<u8> = vec![123, 34, 107, 105, 110, 100, 34, 58, 34];
    proof {
        assert(mk@ =~= mark_hkind());
    }
    if !match_at(hn, 0, &mk) {
        proof {
            assert forall|h2: FrameHeader| hn@ == #[trigger] header_bytes(h2) implies false by {
                lemma_header_layout(h2);
                lemma_kind_wire_plain(h2.kind);
            }
        }
        return None;
    }
    let j1 = match scan_until(hn, 9, 34) {
        Some(j) => j,
        None => {
            proof {
                assert forall|h2: FrameHeader| hn@ == #[trigger] header_bytes(
                    h2,
                ) implies false by {
                    lemma_header_layout(h2);
                    lemma_kind_wire_plain(h2.kind);
                    assert(hn@[9 + kind_wire_spec(h2.kind).len() as int] == 34);
                }
            }
            return None;
        },
    };
    let mut kseg: Vec<u8> = Vec::new();
    push_slice_range(&mut kseg, hn, 9, j1);
    let kind = match kind_unwire(&kseg) {
        Some(k) => k,
        None => {
            proof {
                assert forall|h2: FrameHeader| hn@ == #[trigger] header_bytes(
                    h2,
                ) implies false by {
                    lemma_header_pins(hn@, h2, j1 as int);
                    lemma_kind_unwire_complete(h2.kind);
                    assert(kseg@ == kind_wire_spec(h2.kind));
                }
            }
            return None;
        },
    };
    proof {
        lemma_kind_unwire_sound(kseg@);
    }
    let mid: Vec<u8> = vec![34, 44, 34, 105, 100, 34, 58, 34];
    proof {
        assert(mid@ =~= mark_hid());
    }
    if !match_at(hn, j1, &mid) {
        proof {
            assert forall|h2: FrameHeader| hn@ == #[trigger] header_bytes(h2) implies false by {
                lemma_header_pins(hn@, h2, j1 as int);
            }
        }
        return None;
    }
    let id = match parse_uuid(hn, j1 + 8) {
        Some(v) => v,
        None => {
            proof {
                assert forall|h2: FrameHeader| hn@ == #[trigger] header_bytes(
                    h2,
                ) implies false by {
                    lemma_header_pins(hn@, h2, j1 as int);
                    assert(hn@.subrange(j1 + 8, j1 + 44) == uuid_bytes(h2.id.0));
                }
            }
            return None;
        },
    };
    let mc: Vec<u8> = vec![34, 44, 34, 99, 111, 117, 110, 116, 101, 114, 34, 58];
    proof {
        assert(mc@ =~= mark_hcounter());
    }
    if !match_at(hn, j1 + 44, &mc) {
        proof {
            assert forall|h2: FrameHeader| hn@ == #[trigger] header_bytes(h2) implies false by {
                lemma_header_pins(hn@, h2, j1 as int);
            }
        }
        return None;
    }
    proof {
        assert forall|h2: FrameHeader| hn@ == #[trigger] header_bytes(h2) implies (kind
            == h2.kind && id == h2.id.0 && j1 + 56 == 65 + kind_wire_spec(
            h2.kind,
        ).len()) by {
            lemma_header_pins(hn@, h2, j1 as int);
            lemma_kind_unwire_complete(h2.kind);
            assert(kseg@ == kind_wire_spec(h2.kind));
            assert(hn@.subrange(j1 + 8, j1 + 44) == uuid_bytes(h2.id.0));
        }
    }
    Some((kind, id, j1 + 56))
}

/// Stitches the parsed header fields back into the whole line.
#[verifier::rlimit(100)]
proof fn lemma_header_stitch(d: Seq<u8>, jj: int, dend: int, h: FrameHeader)
    requires
        9 <= jj <= jj + 56 <= dend <= d.len(),
        d.subrange(0, 9) == mark_hkind(),
        d.subrange(9, jj) == kind_wire_spec(h.kind),
        d.subrange(jj, jj + 8) == mark_hid(),
        d.subrange(jj + 8, jj + 44) == uuid_bytes(h.id.0),
        d.subrange(jj + 44, jj + 56) == mark_hcounter(),
        d.subrange(jj + 56, dend) == dec_digits(h.counter),
        match h.epoch {
            None => dend < d.len() && d[dend] == 125 && d.len() == dend + 1,
            Some(e) => {
                &&& d.subrange(dend, dend + 9) == mark_hepoch()
                &&& d.subrange(dend + 9, d.len() - 1) == dec_digits(e)
                &&& d[d.len() - 1] == 125
                &&& d.len() == dend + 10 + dec_digits(e).len()
            },
        },
    ensures
        d == header_bytes(h),
{
    assert(d.subrange(0, jj) =~= d.subrange(0, 9) + d.subrange(9, jj));
    assert(d.subrange(0, jj + 8) =~= d.subrange(0, jj) + d.subrange(jj, jj + 8));
    assert(d.subrange(0, jj + 44) =~= d.subrange(0, jj + 8) + d.subrange(jj + 8, jj + 44));
    assert(d.subrange(0, jj + 56) =~= d.subrange(0, jj + 44) + d.subrange(jj + 44, jj + 56));
    assert(d.subrange(0, dend) =~= d.subrange(0, jj + 56) + d.subrange(jj + 56, dend));
    match h.epoch {
        None => {
            assert(d.subrange(dend, dend + 1) =~= seq![125u8]);
            assert(d =~= d.subrange(0, dend) + d.subrange(dend, dend + 1));
            assert(d == header_bytes(h));
        },
        Some(_) => {
            let nn = d.len() as int;
            assert(d.subrange(0, dend + 9) =~= d.subrange(0, dend) + d.subrange(
                dend,
                dend + 9,
            ));
            assert(d.subrange(0, nn - 1) =~= d.subrange(0, dend + 9) + d.subrange(
                dend + 9,
                nn - 1,
            ));
            assert(d.subrange(nn - 1, nn) =~= seq![125u8]);
            assert(d =~= d.subrange(0, nn - 1) + d.subrange(nn - 1, nn));
            assert(d == header_bytes(h));
        },
    }
}

/// Reads the space-free header document. Complete: a canonical header
/// document is always accepted, as itself.
#[verifier::rlimit(100)]
fn parse_header(hn: &Vec<u8>) -> (r: Option<FrameHeader>)
    ensures
        match r {
            Some(h) => hn@ == header_bytes(h),
            None => true,
        },
        forall|h: FrameHeader| #![trigger header_bytes(h)] hn@ == header_bytes(h) ==> r == Some(
            h,
        ),
{
    let (kind, id, cstart) = match parse_header_prefix(hn) {
        Some(p) => p,
        None => {
            return None;
        },
    };
    let (counter, dend) = match parse_number_run(hn, cstart) {
        Some(p) => p,
        None => {
            proof {
                assert forall|h2: FrameHeader| hn@ == #[trigger] header_bytes(
                    h2,
                ) implies false by {
                    lemma_header_layout(h2);
                    let cd = dec_digits(h2.counter);
                    let de = cstart + cd.len() as int;
                    assert(hn@.subrange(cstart as int, de) == cd);
                    assert(de == hn@.len() || !is_dec_digit(hn@[de]));
                }
            }
            return None;
        },
    };
    let epoch = match parse_epoch_tail(hn, dend) {
        Some(ep) => ep,
        None => {
            proof {
                assert forall|h2: FrameHeader| hn@ == #[trigger] header_bytes(
                    h2,
                ) implies false by {
                    lemma_header_layout(h2);
                    let cd = dec_digits(h2.counter);
                    let de = cstart + cd.len() as int;
                    assert(hn@.subrange(cstart as int, de) == cd);
                    assert(de == hn@.len() || !is_dec_digit(hn@[de]));
                    assert(dend == de);
                }
            }
            return None;
        },
    };
    let h = FrameHeader { kind, id: MsgId(id), counter, epoch };
    proof {
        lemma_header_stitch(hn@, cstart - 56, dend as int, h);
        assert forall|h2: FrameHeader| hn@ == #[trigger] header_bytes(h2) implies Some(h)
            == Some(h2) by {
            lemma_header_layout(h2);
            let cd = dec_digits(h2.counter);
            let de = cstart + cd.len() as int;
            assert(hn@.subrange(cstart as int, de) == cd);
            assert(de == hn@.len() || !is_dec_digit(hn@[de]));
            assert(counter == h2.counter && dend == de);
            assert(Some(epoch) == Some(h2.epoch));
        }
    }
    Some(h)
}

/// First position at or after `i` where `s` holds `b`.
pub open spec fn first_at(s: Seq<u8>, b: u8, i: int) -> Option<int>
    decreases s.len() - i,
{
    if i < 0 || i >= s.len() {
        None
    } else if s[i] == b {
        Some(i)
    } else {
        first_at(s, b, i + 1)
    }
}

proof fn lemma_first_at_some(s: Seq<u8>, b: u8, i: int, j: int)
    requires
        0 <= i <= j < s.len(),
        s[j] == b,
        forall|k: int| i <= k < j ==> s[k] != b,
    ensures
        first_at(s, b, i) == Some(j),
    decreases j - i,
{
    if i < j {
        lemma_first_at_some(s, b, i + 1, j);
    }
}

proof fn lemma_first_at_none(s: Seq<u8>, b: u8, i: int)
    requires
        0 <= i,
        forall|k: int| i <= k < s.len() ==> s[k] != b,
    ensures
        first_at(s, b, i) == None::<int>,
    decreases s.len() - i,
{
    if i < s.len() {
        lemma_first_at_none(s, b, i + 1);
    }
}

/// Splits one socket message into header and opaque body. A frame without
/// a newline is malformed; so is one whose header line does not read,
/// whitespace aside, as a canonical header document — and whenever it
/// does, the frame is accepted.
pub fn parse_frame(data: &Vec<u8>) -> (r: Result<(FrameHeader, Vec<u8>), WsError>)
    ensures
        match r {
            Ok(p) => {
                &&& first_at(data@, 10, 0) matches Some(nl) && strip_ws(
                    data@.subrange(0, nl),
                ) == header_bytes(p.0) && p.1@ == data@.subrange(nl + 1, data@.len() as int)
            },
            Err(e) => e matches WsError::UnexpectedMessageFormat,
        },
        first_at(data@, 10, 0) is None ==> r is Err,
        match first_at(data@, 10, 0) {
            Some(nl) => r is Err ==> forall|h: FrameHeader|
                #![trigger header_bytes(h)]
                strip_ws(data@.subrange(0, nl)) != header_bytes(h),
            None => true,
        },
{
    match scan_until(data, 0, 10) {
        None => {
            proof {
                lemma_first_at_none(data@, 10, 0);
            }
            Err(WsError::UnexpectedMessageFormat)
        },
        Some(nl) => {
            proof {
                lemma_first_at_some(data@, 10, 0, nl as int);
            }
            let hn = normalize(data, 0, nl);
            match parse_header(&hn) {
                None => Err(WsError::UnexpectedMessageFormat),
                Some(h) => {
                    let n = data.len();
                    let mut body: Vec<u8> = Vec::new();
                    push_slice_range(&mut body, data, nl + 1, n);
                    Ok((h, body))
                },
            }
        },
    }
}

} // verus!
