//! The connection worker's decision core. The worker task owns the socket
//! and the registry; the outer event loop only performs what these
//! functions decide: when to ping, when the connection is dead, where an
//! inbound frame goes, and what every live caller is told when the
//! connection fails.

use vstd::prelude::*;
use vstd::utf8::{decode_utf8, valid_utf8};

use crate::envelope::{encode_envelope, envelope_bytes, match_at, push_slice_range, scan_until, Envelope};
use crate::error::{ResponseError, WsError};
use crate::frame::{normalize, parse_frame, strip_ws, FrameHeader, Kind};
use crate::registry::{MsgId, Registry};

verus! {

/// Heartbeat period: a ping is sent on this cadence.
pub const HEARTBEAT_MS: u64 = 5000;

/// Read-idle limit: a tick later than this after the last inbound message
/// is a dead connection.
pub const READ_IDLE_LIMIT_MS: u64 = 9000;

/// What a heartbeat tick decides.
#[derive(Clone, Copy, Debug, PartialEq, Eq, Structural)]
pub enum TickAction {
    SendPing,
    TimedOut,
}

/// One inbound socket message, shorn of the transport library's types.
#[derive(Clone, Debug)]
pub enum SocketMessage {
    Text,
    Binary(Vec<u8>),
    Ping(Vec<u8>),
    Pong,
    RawFrame,
    Close,
}

/// What the event loop must do with one inbound message.
pub enum InboundAction<S> {
    /// Nothing: a protocol hello, a raw frame, an unsolicited pong.
    Ignore,
    /// Answer a ping with a pong carrying the same payload.
    ReplyPong(Vec<u8>),
    /// Hand one item to the sink registered under `id`, which stays
    /// registered; an absent entry means the caller is gone and the item
    /// is dropped.
    Deliver { id: MsgId, item: Result<Vec<u8>, WsError> },
    /// A graceful end: the entry is out of the registry, dropping the
    /// sink closes the caller's stream.
    Closed { removed: Option<S> },
    /// A terminal error: the entry is out of the registry; the item goes
    /// to the removed sink, then the sink is dropped.
    Terminal { removed: Option<S>, item: Result<Vec<u8>, WsError> },
    /// The connection is no longer usable.
    Fatal(WsError),
}

/// Whether a tick at `now_ms` finds the connection dead.
pub open spec fn tick_times_out(now_ms: u64, last_inbound_ms: u64) -> bool {
    now_ms - last_inbound_ms > READ_IDLE_LIMIT_MS
}

/// The canonical document of a structured server error.
pub open spec fn response_error_bytes(re: ResponseError) -> Seq<u8> {
    mark_code() + vstd::utf8::encode_utf8(re.code@) + mark_message() + vstd::utf8::encode_utf8(
        re.message@,
    ) + seq![34u8, 125u8]
}

pub open spec fn mark_code() -> Seq<u8> {
    seq![123, 34, 99, 111, 100, 101, 34, 58, 34]  // {"code":"
}

pub open spec fn mark_message() -> Seq<u8> {
    seq![34, 44, 34, 109, 101, 115, 115, 97, 103, 101, 34, 58, 34]  // ","message":"
}

/// What may be handed to a caller for a non-terminal error frame body:
/// a structured error exactly when the body reads as one, plain text
/// exactly when it is valid UTF-8 that is not brace-led, a format error
/// only when neither reading exists.
pub open spec fn cwe_item(body: Seq<u8>, item: Result<Vec<u8>, WsError>) -> bool {
    match item {
        Result::Ok(_) => false,
        Result::Err(e) => match e {
            WsError::ErrorResponse(re) => body.len() > 0 && body[0] == 123 && strip_ws(body)
                == response_error_bytes(re) && crate::envelope::no_quote(
                vstd::utf8::encode_utf8(re.code@),
            ) && crate::envelope::no_quote(vstd::utf8::encode_utf8(re.message@)),
            WsError::ErrorMsg(s) => (body.len() == 0 || body[0] != 123) && valid_utf8(body)
                && s@ == decode_utf8(body),
            WsError::UnexpectedMessageFormat => body.len() > 0 && (if body[0] == 123 {
                forall|re: ResponseError|
                    #![trigger response_error_bytes(re)]
                    crate::envelope::no_quote(vstd::utf8::encode_utf8(re.code@))
                        && crate::envelope::no_quote(vstd::utf8::encode_utf8(re.message@))
                        ==> strip_ws(body) != response_error_bytes(re)
            } else {
                !valid_utf8(body)
            }),
            _ => false,
        },
    }
}

/// A structured-error document with quote-free fields names one error:
/// equal documents carry the same code and the same message.
pub proof fn lemma_response_error_unambiguous(a: ResponseError, b: ResponseError)
    requires
        crate::envelope::no_quote(vstd::utf8::encode_utf8(a.code@)),
        crate::envelope::no_quote(vstd::utf8::encode_utf8(a.message@)),
        crate::envelope::no_quote(vstd::utf8::encode_utf8(b.code@)),
        crate::envelope::no_quote(vstd::utf8::encode_utf8(b.message@)),
        response_error_bytes(a) == response_error_bytes(b),
    ensures
        a.code@ == b.code@,
        a.message@ == b.message@,
{
    let ca = vstd::utf8::encode_utf8(a.code@);
    let ma = vstd::utf8::encode_utf8(a.message@);
    let cb = vstd::utf8::encode_utf8(b.code@);
    let mb = vstd::utf8::encode_utf8(b.message@);
    assert(response_error_bytes(a) =~= mark_code() + (ca + seq![34u8] + (mark_message().skip(1)
        + (ma + seq![34u8] + seq![125u8]))));
    assert(response_error_bytes(b) =~= mark_code() + (cb + seq![34u8] + (mark_message().skip(1)
        + (mb + seq![34u8] + seq![125u8]))));
    crate::envelope::lemma_strip_prefix(
        mark_code(),
        ca + seq![34u8] + (mark_message().skip(1) + (ma + seq![34u8] + seq![125u8])),
        cb + seq![34u8] + (mark_message().skip(1) + (mb + seq![34u8] + seq![125u8])),
    );
    crate::envelope::lemma_quote_token_unique(
        ca,
        mark_message().skip(1) + (ma + seq![34u8] + seq![125u8]),
        cb,
        mark_message().skip(1) + (mb + seq![34u8] + seq![125u8]),
    );
    crate::envelope::lemma_strip_prefix(
        mark_message().skip(1),
        ma + seq![34u8] + seq![125u8],
        mb + seq![34u8] + seq![125u8],
    );
    crate::envelope::lemma_quote_token_unique(ma, seq![125u8], mb, seq![125u8]);
    vstd::utf8::encode_utf8_decode_utf8(a.code@);
    vstd::utf8::encode_utf8_decode_utf8(b.code@);
    vstd::utf8::encode_utf8_decode_utf8(a.message@);
    vstd::utf8::encode_utf8_decode_utf8(b.message@);
}

/// What may be handed to a caller for a terminal error frame body.
pub open spec fn terminal_item(body: Seq<u8>, item: Result<Vec<u8>, WsError>) -> bool {
    match item {
        Result::Ok(_) => false,
        Result::Err(e) => match e {
            WsError::ErrorMsg(s) => valid_utf8(body) && s@ == decode_utf8(body),
            WsError::UnexpectedMessageFormat => !valid_utf8(body),
            _ => false,
        },
    }
}

/// Relies on `String::from_utf8`: the bytes back as text exactly when
/// they are valid UTF-8, as vstd's own UTF-8 model states it.
#[verifier::external_body]
pub(crate) fn utf8_to_string(bytes: Vec<u8>) -> (r: Option<String>)
    ensures
        match r {
            Some(s) => valid_utf8(bytes@) && s@ == decode_utf8(bytes@),
            None => !valid_utf8(bytes@),
        },
{
    String::from_utf8(bytes).ok()
}


/// How a structured-error document with quote-free fields is laid out.
#[verifier::rlimit(100)]
proof fn lemma_response_layout(re: ResponseError)
    requires
        crate::envelope::no_quote(vstd::utf8::encode_utf8(re.code@)),
        crate::envelope::no_quote(vstd::utf8::encode_utf8(re.message@)),
    ensures
        ({
            let cb = vstd::utf8::encode_utf8(re.code@);
            let mb = vstd::utf8::encode_utf8(re.message@);
            let d = response_error_bytes(re);
            &&& d.len() == 24 + cb.len() + mb.len()
            &&& d.subrange(0, 9) == mark_code()
            &&& d.subrange(9, 9 + cb.len() as int) == cb
            &&& (forall|k: int| 9 <= k < 9 + cb.len() ==> d[k] != 34)
            &&& d[9 + cb.len() as int] == 34
            &&& d.subrange(9 + cb.len() as int, 22 + cb.len() as int) == mark_message()
            &&& d.subrange(22 + cb.len() as int, 22 + cb.len() + mb.len() as int) == mb
            &&& (forall|k: int| 22 + cb.len() <= k < 22 + cb.len() + mb.len() ==> d[k] != 34)
            &&& d[22 + cb.len() + mb.len() as int] == 34
            &&& d[23 + cb.len() + mb.len() as int] == 125
        }),
{
    let cb = vstd::utf8::encode_utf8(re.code@);
    let mb = vstd::utf8::encode_utf8(re.message@);
    let d = response_error_bytes(re);
    assert(d =~= mark_code() + cb + mark_message() + mb + seq![34u8, 125u8]);
    assert(d.subrange(0, 9) =~= mark_code());
    assert(d.subrange(9, 9 + cb.len() as int) =~= cb);
    assert(d.subrange(9 + cb.len() as int, 22 + cb.len() as int) =~= mark_message());
    assert(d.subrange(22 + cb.len() as int, 22 + cb.len() + mb.len() as int) =~= mb);
    assert forall|k: int| 9 <= k < 9 + cb.len() implies d[k] != 34 by {
        assert(d[k] == d.subrange(9, 9 + cb.len() as int)[k - 9]);
    }
    assert forall|k: int| 22 + cb.len() <= k < 22 + cb.len() + mb.len() implies d[k] != 34 by {
        assert(d[k] == d.subrange(22 + cb.len() as int, 22 + cb.len() + mb.len() as int)[k - 22
            - cb.len()]);
    }
}

/// Reads a structured server error: a flat object with `code` and
/// `message` string fields, whitespace tolerated, escapes not read.
/// Complete for quote-free fields: whenever the body reads, spaces
/// aside, as such a document, it is accepted.
#[verifier::rlimit(100)]
pub fn parse_response_error(body: &Vec<u8>) -> (r: Option<ResponseError>)
    ensures
        match r {
            Some(re) => strip_ws(body@) == response_error_bytes(re) && crate::envelope::no_quote(
                vstd::utf8::encode_utf8(re.code@),
            ) && crate::envelope::no_quote(vstd::utf8::encode_utf8(re.message@)),
            None => forall|re: ResponseError|
                #![trigger response_error_bytes(re)]
                crate::envelope::no_quote(vstd::utf8::encode_utf8(re.code@))
                    && crate::envelope::no_quote(vstd::utf8::encode_utf8(re.message@))
                    ==> strip_ws(body@) != response_error_bytes(re),
        },
{
    proof {
        assert(body@.subrange(0, body@.len() as int) =~= body@);
    }
    let hn = normalize(body, 0, body.len());
    let n = hn.len();
    let mk: Vec<u8> = vec![123, 34, 99, 111, 100, 101, 34, 58, 34];
    proof {
        assert(mk@ =~= mark_code());
    }
    if !match_at(&hn, 0, &mk) {
        proof {
            assert forall|re: ResponseError|
                crate::envelope::no_quote(vstd::utf8::encode_utf8(re.code@))
                    && crate::envelope::no_quote(vstd::utf8::encode_utf8(re.message@))
                    && strip_ws(body@) == #[trigger] response_error_bytes(re) implies false by {
                lemma_response_layout(re);
            }
        }
        return None;
    }
    let c1 = match scan_until(&hn, 9, 34) {
        Some(j) => j,
        None => {
            proof {
                assert forall|re: ResponseError|
                    crate::envelope::no_quote(vstd::utf8::encode_utf8(re.code@))
                        && crate::envelope::no_quote(vstd::utf8::encode_utf8(re.message@))
                        && strip_ws(body@) == #[trigger] response_error_bytes(re) implies false by {
                    lemma_response_layout(re);
                    let cb = vstd::utf8::encode_utf8(re.code@);
                    assert(hn@[9 + cb.len() as int] == 34);
                }
            }
            return None;
        },
    };
    let mut code_b: Vec<u8> = Vec::new();
    push_slice_range(&mut code_b, &hn, 9, c1);
    let mm: Vec<u8> = vec![34, 44, 34, 109, 101, 115, 115, 97, 103, 101, 34, 58, 34];
    proof {
        assert(mm@ =~= mark_message());
    }
    if !match_at(&hn, c1, &mm) {
        proof {
            assert forall|re: ResponseError|
                crate::envelope::no_quote(vstd::utf8::encode_utf8(re.code@))
                    && crate::envelope::no_quote(vstd::utf8::encode_utf8(re.message@))
                    && strip_ws(body@) == #[trigger] response_error_bytes(re) implies false by {
                lemma_response_layout(re);
                let cb = vstd::utf8::encode_utf8(re.code@);
                crate::envelope::lemma_quote_scan_pins(hn@, 9, 9 + cb.len() as int, c1 as int);
            }
        }
        return None;
    }
    let c2 = match scan_until(&hn, c1 + 13, 34) {
        Some(j) => j,
        None => {
            proof {
                assert forall|re: ResponseError|
                    crate::envelope::no_quote(vstd::utf8::encode_utf8(re.code@))
                        && crate::envelope::no_quote(vstd::utf8::encode_utf8(re.message@))
                        && strip_ws(body@) == #[trigger] response_error_bytes(re) implies false by {
                    lemma_response_layout(re);
                    let cb = vstd::utf8::encode_utf8(re.code@);
                    let mb = vstd::utf8::encode_utf8(re.message@);
                    crate::envelope::lemma_quote_scan_pins(hn@, 9, 9 + cb.len() as int, c1 as int);
                    assert(hn@[22 + cb.len() + mb.len() as int] == 34);
                }
            }
            return None;
        },
    };
    let mut msg_b: Vec<u8> = Vec::new();
    push_slice_range(&mut msg_b, &hn, c1 + 13, c2);
    if n - c2 != 2 || hn[c2 + 1] != 125 {
        proof {
            assert forall|re: ResponseError|
                crate::envelope::no_quote(vstd::utf8::encode_utf8(re.code@))
                    && crate::envelope::no_quote(vstd::utf8::encode_utf8(re.message@))
                    && strip_ws(body@) == #[trigger] response_error_bytes(re) implies false by {
                lemma_response_layout(re);
                let cb = vstd::utf8::encode_utf8(re.code@);
                let mb = vstd::utf8::encode_utf8(re.message@);
                crate::envelope::lemma_quote_scan_pins(hn@, 9, 9 + cb.len() as int, c1 as int);
                crate::envelope::lemma_quote_scan_pins(
                    hn@,
                    c1 + 13,
                    22 + cb.len() + mb.len() as int,
                    c2 as int,
                );
                assert(hn@[23 + cb.len() + mb.len() as int] == 125);
            }
        }
        return None;
    }
    let ghost cb = code_b@;
    let ghost mb = msg_b@;
    let code = match utf8_to_string(code_b) {
        Some(s) => s,
        None => {
            proof {
                assert forall|re: ResponseError|
                    crate::envelope::no_quote(vstd::utf8::encode_utf8(re.code@))
                        && crate::envelope::no_quote(vstd::utf8::encode_utf8(re.message@))
                        && strip_ws(body@) == #[trigger] response_error_bytes(re) implies false by {
                    lemma_response_layout(re);
                    let cb2 = vstd::utf8::encode_utf8(re.code@);
                    crate::envelope::lemma_quote_scan_pins(hn@, 9, 9 + cb2.len() as int, c1 as int);
                    assert(cb =~= hn@.subrange(9, c1 as int));
                    assert(cb == cb2);
                    vstd::utf8::encode_utf8_valid_utf8(re.code@);
                }
            }
            return None;
        },
    };
    let message = match utf8_to_string(msg_b) {
        Some(s) => s,
        None => {
            proof {
                assert forall|re: ResponseError|
                    crate::envelope::no_quote(vstd::utf8::encode_utf8(re.code@))
                        && crate::envelope::no_quote(vstd::utf8::encode_utf8(re.message@))
                        && strip_ws(body@) == #[trigger] response_error_bytes(re) implies false by {
                    lemma_response_layout(re);
                    let cb2 = vstd::utf8::encode_utf8(re.code@);
                    let mb2 = vstd::utf8::encode_utf8(re.message@);
                    crate::envelope::lemma_quote_scan_pins(hn@, 9, 9 + cb2.len() as int, c1 as int);
                    crate::envelope::lemma_quote_scan_pins(
                        hn@,
                        c1 + 13,
                        22 + cb2.len() + mb2.len() as int,
                        c2 as int,
                    );
                    assert(mb =~= hn@.subrange(c1 + 13, c2 as int));
                    assert(mb == mb2);
                    vstd::utf8::encode_utf8_valid_utf8(re.message@);
                }
            }
            return None;
        },
    };
    let re = ResponseError { code, message };
    proof {
        vstd::utf8::decode_utf8_encode_utf8(cb);
        vstd::utf8::decode_utf8_encode_utf8(mb);
        let cc = c1 as int;
        assert(hn@.subrange(0, 9) == mark_code());
        assert(hn@.subrange(9, cc) == cb);
        assert(hn@.subrange(cc, cc + 13) == mark_message());
        assert(hn@.subrange(cc + 13, c2 as int) == mb);
        assert(hn@.subrange(c2 as int, c2 + 2) =~= seq![34u8, 125u8]);
        assert(hn@.subrange(0, cc) =~= hn@.subrange(0, 9) + hn@.subrange(9, cc));
        assert(hn@.subrange(0, cc + 13) =~= hn@.subrange(0, cc) + hn@.subrange(cc, cc + 13));
        assert(hn@.subrange(0, c2 as int) =~= hn@.subrange(0, cc + 13) + hn@.subrange(
            cc + 13,
            c2 as int,
        ));
        assert(hn@ =~= hn@.subrange(0, c2 as int) + hn@.subrange(c2 as int, c2 + 2));
        assert(hn@ == response_error_bytes(re));
        assert forall|k: int| 0 <= k < cb.len() implies cb[k] != 34 by {
            assert(cb[k] == hn@.subrange(9, cc)[k]);
            assert(hn@[9 + k] != 34);
        }
        assert forall|k: int| 0 <= k < mb.len() implies mb[k] != 34 by {
            assert(mb[k] == hn@.subrange(cc + 13, c2 as int)[k]);
            assert(hn@[cc + 13 + k] != 34);
        }
    }
    Some(re)
}

/// The connection worker's state, socket aside: the registry and the
/// moment the last inbound message arrived.
pub struct WorkerCore<S> {
    pub registry: Registry<S>,
    pub last_inbound_ms: u64,
}

impl<S> WorkerCore<S> {
    pub open spec fn wf(&self) -> bool {
        self.registry.wf()
    }

    pub fn new(now_ms: u64) -> (r: Self)
        ensures
            r.wf(),
            r.registry@ == Map::<u128, S>::empty(),
            r.last_inbound_ms == now_ms,
    {
        WorkerCore { registry: Registry::new(), last_inbound_ms: now_ms }
    }

    /// A heartbeat tick: dead past the read-idle limit, otherwise ping.
    pub fn on_tick(&self, now_ms: u64) -> (r: TickAction)
        requires
            now_ms >= self.last_inbound_ms,
        ensures
            r == TickAction::TimedOut <==> tick_times_out(now_ms, self.last_inbound_ms),
            r == TickAction::SendPing <==> !tick_times_out(now_ms, self.last_inbound_ms),
    {
        if now_ms - self.last_inbound_ms > READ_IDLE_LIMIT_MS {
            TickAction::TimedOut
        } else {
            TickAction::SendPing
        }
    }

    /// Notes an inbound message's arrival time.
    pub fn note_inbound(&mut self, now_ms: u64)
        ensures
            final(self).last_inbound_ms == now_ms,
            final(self).registry == old(self).registry,
    {
        self.last_inbound_ms = now_ms;
    }

    /// An outbound request: registers the sink, replacing any prior entry
    /// under the same identifier, and hands back the envelope document to
    /// transmit and whether a prior sink was displaced (worth a warning).
    pub fn on_operation(&mut self, env: &Envelope, sink: S) -> (r: (Vec<u8>, bool))
        requires
            old(self).wf(),
        ensures
            final(self).wf(),
            final(self).registry@ == old(self).registry@.insert(env.id, sink),
            final(self).last_inbound_ms == old(self).last_inbound_ms,
            r.0@ == envelope_bytes(*env),
            r.1 == old(self).registry@.contains_key(env.id),
    {
        let payload = encode_envelope(env);
        let prior = self.registry.insert(MsgId(env.id), sink);
        let replaced = match prior {
            Some(_) => true,
            None => false,
        };
        (payload, replaced)
    }

    /// Routes one parsed frame.
    pub fn on_frame(&mut self, header: FrameHeader, body: Vec<u8>) -> (r: InboundAction<S>)
        requires
            old(self).wf(),
        ensures
            final(self).wf(),
            final(self).last_inbound_ms == old(self).last_inbound_ms,
            match header.kind {
                Kind::Start => r is Ignore && final(self).registry@ == old(self).registry@,
                Kind::Continue => final(self).registry@ == old(self).registry@ && (r matches
                    InboundAction::Deliver { id, item } && id == header.id && item == Ok::<
                    Vec<u8>,
                    WsError,
                >(body)),
                Kind::ContinueWithError => final(self).registry@ == old(self).registry@ && (r
                    matches InboundAction::Deliver { id, item } && id == header.id && cwe_item(
                    body@,
                    item,
                )),
                Kind::End => final(self).registry@ == old(self).registry@.remove(header.id.0)
                    && (r matches InboundAction::Closed { removed } && (match removed {
                    Some(s) => old(self).registry@.contains_key(header.id.0) && s == old(
                        self,
                    ).registry@[header.id.0],
                    None => !old(self).registry@.contains_key(header.id.0),
                })),
                Kind::Error => final(self).registry@ == old(self).registry@.remove(header.id.0)
                    && (r matches InboundAction::Terminal { removed, item } && terminal_item(
                    body@,
                    item,
                ) && (match removed {
                    Some(s) => old(self).registry@.contains_key(header.id.0) && s == old(
                        self,
                    ).registry@[header.id.0],
                    None => !old(self).registry@.contains_key(header.id.0),
                })),
                Kind::Subscription => final(self).registry@ == old(self).registry@ && (r
                    matches InboundAction::Deliver { id, item } && id == header.id && item
                    matches Err(WsError::UnexpectedMessageFormat)),
            },
    {
        match header.kind {
            Kind::Start => InboundAction::Ignore,
            Kind::Continue => InboundAction::Deliver { id: header.id, item: Ok(body) },
            Kind::ContinueWithError => {
                let item: Result<Vec<u8>, WsError> = if body.len() > 0 && body[0] == 123 {
                    match parse_response_error(&body) {
                        Some(re) => Err(WsError::ErrorResponse(re)),
                        None => Err(WsError::UnexpectedMessageFormat),
                    }
                } else {
                    let ghost bb = body@;
                    match utf8_to_string(body) {
                        Some(s) => Err(WsError::ErrorMsg(s)),
                        None => {
                            proof {
                                if bb.len() == 0 {
                                    assert(valid_utf8(bb));
                                }
                            }
                            Err(WsError::UnexpectedMessageFormat)
                        },
                    }
                };
                InboundAction::Deliver { id: header.id, item }
            },
            Kind::End => {
                let removed = self.registry.remove(header.id);
                InboundAction::Closed { removed }
            },
            Kind::Error => {
                let removed = self.registry.remove(header.id);
                let item: Result<Vec<u8>, WsError> = match utf8_to_string(body) {
                    Some(s) => Err(WsError::ErrorMsg(s)),
                    None => Err(WsError::UnexpectedMessageFormat),
                };
                InboundAction::Terminal { removed, item }
            },
            Kind::Subscription => InboundAction::Deliver {
                id: header.id,
                item: Err(WsError::UnexpectedMessageFormat),
            },
        }
    }

    /// Handles one socket message: the protocol's fixed reactions, and
    /// frame routing for a binary message.
    pub fn on_message(&mut self, msg: SocketMessage) -> (r: InboundAction<S>)
        requires
            old(self).wf(),
        ensures
            final(self).wf(),
            final(self).last_inbound_ms == old(self).last_inbound_ms,
            match msg {
                SocketMessage::Text => (r matches InboundAction::Fatal(
                    e,
                ) && e matches WsError::UnexpectedMessage) && final(self).registry@ == old(
                    self,
                ).registry@,
                SocketMessage::RawFrame => r is Ignore && final(self).registry@ == old(
                    self,
                ).registry@,
                SocketMessage::Pong => r is Ignore && final(self).registry@ == old(
                    self,
                ).registry@,
                SocketMessage::Ping(p) => (r matches InboundAction::ReplyPong(q) && q == p)
                    && final(self).registry@ == old(self).registry@,
                SocketMessage::Close => (r matches InboundAction::Fatal(
                    e,
                ) && e matches WsError::UnexpectedClose) && final(self).registry@ == old(
                    self,
                ).registry@,
                SocketMessage::Binary(_) => (r matches InboundAction::Fatal(e) ==> (e matches
                    WsError::UnexpectedMessageFormat && final(self).registry@ == old(
                    self,
                ).registry@)),
            },
    {
        match msg {
            SocketMessage::Text => InboundAction::Fatal(WsError::UnexpectedMessage),
            SocketMessage::RawFrame => InboundAction::Ignore,
            SocketMessage::Pong => InboundAction::Ignore,
            SocketMessage::Ping(p) => InboundAction::ReplyPong(p),
            SocketMessage::Close => InboundAction::Fatal(WsError::UnexpectedClose),
            SocketMessage::Binary(buf) => {
                match parse_frame(&buf) {
                    Ok((header, body)) => self.on_frame(header, body),
                    Err(e) => InboundAction::Fatal(e),
                }
            },
        }
    }

    /// Empties the registry for a fatal failure: every live caller's sink
    /// is handed out paired with a final plain-text error naming the
    /// cause.
    pub fn fail_all(&mut self, reason: &str) -> (r: Vec<(MsgId, S, WsError)>)
        requires
            old(self).wf(),
        ensures
            final(self).wf(),
            final(self).registry@ == Map::<u128, S>::empty(),
            r@.len() == old(self).registry.spec_len(),
            forall|i: int|
                0 <= i < r@.len() ==> old(self).registry@.contains_key(#[trigger] r@[i].0.0)
                    && old(self).registry@[r@[i].0.0] == r@[i].1,
            forall|i: int|
                0 <= i < r@.len() ==> ((#[trigger] r@[i].2) matches WsError::ErrorMsg(s)
                    && s@ == reason@),
            forall|i: int, j: int| 0 <= i < j < r@.len() ==> r@[i].0.0 != r@[j].0.0,
    {
        let drained = self.registry.drain();
        let mut out: Vec<(MsgId, S, WsError)> = Vec::new();
        let mut rest = drained;
        loop
            invariant
                old(self).wf(),
                forall|i: int|
                    0 <= i < out@.len() ==> old(self).registry@.contains_key(
                        #[trigger] out@[i].0.0,
                    ) && old(self).registry@[out@[i].0.0] == out@[i].1,
                forall|i: int|
                    0 <= i < rest@.len() ==> old(self).registry@.contains_key(
                        #[trigger] rest@[i].0.0,
                    ) && old(self).registry@[rest@[i].0.0] == rest@[i].1,
                forall|i: int|
                    0 <= i < out@.len() ==> ((#[trigger] out@[i].2) matches WsError::ErrorMsg(s)
                        && s@ == reason@),
                forall|i: int, j: int| 0 <= i < j < out@.len() ==> out@[i].0.0 != out@[j].0.0,
                forall|i: int, j: int|
                    0 <= i < out@.len() && 0 <= j < rest@.len() ==> (#[trigger] out@[i].0.0)
                        != (#[trigger] rest@[j].0.0),
                forall|i: int, j: int| 0 <= i < j < rest@.len() ==> rest@[i].0.0 != rest@[j].0.0,
                out@.len() + rest@.len() == old(self).registry.spec_len(),
            ensures
                rest@.len() == 0,
            decreases rest@.len(),
        {
            match rest.pop() {
                Some((id, sink)) => {
                    let s = String::from_str(reason);
                    out.push((id, sink, WsError::ErrorMsg(s)));
                },
                None => {
                    break;
                },
            }
        }
        out
    }
}

} // verus!
