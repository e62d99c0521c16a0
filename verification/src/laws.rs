//! The transport's promised behaviors, stated over the library's own
//! models and proved once and for all.

use vstd::prelude::*;

use crate::frame::Kind;
use crate::requests::comma_join;
use crate::worker::{tick_times_out, HEARTBEAT_MS, READ_IDLE_LIMIT_MS};

verus! {

/// A tick within the read-idle limit keeps the connection alive: it
/// pings rather than fails.
pub proof fn lemma_heartbeat_live(last_inbound_ms: u64, tick_ms: u64)
    requires
        tick_ms >= last_inbound_ms,
        tick_ms - last_inbound_ms <= READ_IDLE_LIMIT_MS,
    ensures
        !tick_times_out(tick_ms, last_inbound_ms),
{
}

/// With silence from the server, a tick at the read-idle limit exactly
/// still passes, and the following tick, one heartbeat later, fails.
pub proof fn lemma_heartbeat_boundary(last_inbound_ms: u64, tick_ms: u64)
    requires
        tick_ms >= last_inbound_ms,
        tick_ms - last_inbound_ms == READ_IDLE_LIMIT_MS,
        tick_ms + HEARTBEAT_MS <= u64::MAX,
    ensures
        !tick_times_out(tick_ms, last_inbound_ms),
        tick_times_out((tick_ms + HEARTBEAT_MS) as u64, last_inbound_ms),
{
}

/// Registering an envelope's sink leaves exactly one entry for its
/// identifier — the sink just registered — and touches no other
/// identifier.
pub proof fn lemma_registered_exactly_once<S>(reg: Map<u128, S>, id: u128, sink: S)
    ensures
        reg.insert(id, sink).contains_key(id),
        reg.insert(id, sink)[id] == sink,
        forall|k: u128|
            k != id ==> (reg.insert(id, sink).contains_key(k) <==> reg.contains_key(k)),
        forall|k: u128|
            k != id && reg.contains_key(k) ==> reg.insert(id, sink)[k] == reg[k],
{
}

/// Terminal frames are absorbing: once the entry is removed nothing can
/// reach that identifier again, and every other subscription is
/// untouched.
pub proof fn lemma_terminal_absorbing<S>(reg: Map<u128, S>, id: u128)
    ensures
        !reg.remove(id).contains_key(id),
        forall|k: u128| k != id ==> (reg.remove(id).contains_key(k) <==> reg.contains_key(k)),
        forall|k: u128| k != id && reg.contains_key(k) ==> reg.remove(id)[k] == reg[k],
{
}

/// A duplicate registration replaces the prior sink: after it, frames
/// for the identifier reach only the most recent sink.
pub proof fn lemma_duplicate_insert_replaces<S>(reg: Map<u128, S>, id: u128, first: S, second: S)
    ensures
        reg.insert(id, first).insert(id, second).contains_key(id),
        reg.insert(id, first).insert(id, second)[id] == second,
{
}

/// A frame that yields a data item at the caller: a `Continue` with a
/// nonempty body.
pub open spec fn is_data_frame(f: (Kind, Seq<u8>)) -> bool {
    f.0 == Kind::Continue && f.1.len() > 0
}

/// The bodies a caller's stream yields for a run of frames: the worker
/// turns each `Continue` into a data item and the facade drops the empty
/// ones.
pub open spec fn delivered_bodies(frames: Seq<(Kind, Seq<u8>)>) -> Seq<Seq<u8>>
    decreases frames.len(),
{
    if frames.len() == 0 {
        Seq::empty()
    } else {
        let rest = delivered_bodies(frames.drop_last());
        if is_data_frame(frames.last()) {
            rest.push(frames.last().1)
        } else {
            rest
        }
    }
}

/// For one subscription, the sequence of bodies the caller sees equals
/// the sequence of `Continue` bodies the server sent, in order, with the
/// empty ones removed.
pub proof fn lemma_delivered_bodies(frames: Seq<(Kind, Seq<u8>)>)
    ensures
        delivered_bodies(frames) == frames.filter(
            |f: (Kind, Seq<u8>)| is_data_frame(f),
        ).map_values(|f: (Kind, Seq<u8>)| f.1),
    decreases frames.len(),
{
    reveal(Seq::<(Kind, Seq<u8>)>::filter);
    let p = |f: (Kind, Seq<u8>)| is_data_frame(f);
    let g = |f: (Kind, Seq<u8>)| f.1;
    if frames.len() == 0 {
        assert(frames.filter(p).map_values(g) =~= Seq::<Seq<u8>>::empty());
        assert(delivered_bodies(frames) =~= Seq::<Seq<u8>>::empty());
    } else {
        lemma_delivered_bodies(frames.drop_last());
        let dl = frames.drop_last();
        if p(frames.last()) {
            assert(frames.filter(p) == dl.filter(p).push(frames.last()));
            assert(dl.filter(p).push(frames.last()).map_values(g) =~= dl.filter(p).map_values(
                g,
            ).push(frames.last().1));
        } else {
            assert(frames.filter(p) == dl.filter(p));
        }
    }
}

/// Position of the last separator byte.
pub open spec fn last_comma(s: Seq<u8>) -> Option<int>
    decreases s.len(),
{
    if s.len() == 0 {
        None
    } else if s.last() == 44 {
        Some(s.len() - 1)
    } else {
        last_comma(s.drop_last())
    }
}

/// The comma-separated field read back as its items.
pub open spec fn comma_split(s: Seq<u8>) -> Seq<Seq<u8>>
    decreases s.len(),
{
    match last_comma(s) {
        None => seq![s],
        Some(i) => if 0 <= i < s.len() {
            comma_split(s.subrange(0, i)) + seq![s.subrange(i + 1, s.len() as int)]
        } else {
            seq![s]
        },
    }
}

pub open spec fn comma_free(s: Seq<u8>) -> bool {
    forall|i: int| 0 <= i < s.len() ==> s[i] != 44
}

proof fn lemma_last_comma_none(s: Seq<u8>)
    requires
        comma_free(s),
    ensures
        last_comma(s) is None,
    decreases s.len(),
{
    if s.len() > 0 {
        assert(forall|i: int| 0 <= i < s.len() - 1 ==> s.drop_last()[i] == #[trigger] s[i]);
        lemma_last_comma_none(s.drop_last());
    }
}

proof fn lemma_last_comma_at(a: Seq<u8>, b: Seq<u8>)
    requires
        comma_free(b),
    ensures
        last_comma(a + seq![44u8] + b) == Some(a.len() as int),
    decreases b.len(),
{
    let s = a + seq![44u8] + b;
    if b.len() == 0 {
        assert(s.last() == 44);
        assert(s.len() - 1 == a.len());
    } else {
        assert(s.last() == b.last());
        assert(b.last() != 44);
        assert(s.drop_last() =~= a + seq![44u8] + b.drop_last());
        assert(forall|i: int| 0 <= i < b.len() - 1 ==> b.drop_last()[i] == #[trigger] b[i]);
        lemma_last_comma_at(a, b.drop_last());
    }
}

/// A set-valued filter with `N` entries, each nonempty and free of the
/// separator, joins to a comma-separated field that splits back to the
/// same `N` entries in the same order.
pub proof fn lemma_comma_round_trip(items: Seq<Seq<u8>>)
    requires
        items.len() >= 1,
        forall|i: int| 0 <= i < items.len() ==> (#[trigger] items[i]).len() > 0,
        forall|i: int| 0 <= i < items.len() ==> comma_free(#[trigger] items[i]),
    ensures
        comma_split(comma_join(items)) == items,
    decreases items.len(),
{
    if items.len() == 1 {
        lemma_last_comma_none(items[0]);
        assert(comma_split(comma_join(items)) =~= items);
    } else {
        let dl = items.drop_last();
        let j = comma_join(items);
        assert(j == comma_join(dl) + seq![44u8] + items.last());
        lemma_last_comma_at(comma_join(dl), items.last());
        assert(j.subrange(0, comma_join(dl).len() as int) =~= comma_join(dl));
        assert(j.subrange(comma_join(dl).len() as int + 1, j.len() as int) =~= items.last());
        assert(forall|i: int| 0 <= i < items.len() - 1 ==> dl[i] == #[trigger] items[i]);
        lemma_comma_round_trip(dl);
        assert(comma_split(j) =~= items);
    }
}

} // verus!
