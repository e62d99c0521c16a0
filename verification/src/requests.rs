//! The typed request records and their flattening into envelope
//! parameters: set-valued filters become comma-separated strings and are
//! omitted when empty, unset numeric filters are omitted, block endpoints
//! always travel.

use vstd::prelude::*;

use crate::chain::{chain_wire, ChainId};
use crate::envelope::{Bound, Param, ParamValue};
use crate::ids::{dec_digits, push_dec};

verus! {

/// What one flattened parameter should hold: a text, block-endpoint or
/// numeric value under a field name.
pub enum PSpec {
    T(Seq<u8>, Seq<u8>),
    B(Seq<u8>, Bound),
    U(Seq<u8>, u64),
}

pub open spec fn param_matches(p: Param, d: PSpec) -> bool {
    match d {
        PSpec::T(k, t) => p.key@ == k && (p.value matches ParamValue::Text(tv) && tv@ == t),
        PSpec::B(k, b) => p.key@ == k && p.value == ParamValue::Block(b),
        PSpec::U(k, n) => p.key@ == k && p.value == ParamValue::Uint(n),
    }
}

pub open spec fn params_match(ps: Seq<Param>, ds: Seq<PSpec>) -> bool {
    ps.len() == ds.len() && forall|i: int| 0 <= i < ps.len() ==> param_matches(
        #[trigger] ps[i],
        ds[i],
    )
}

pub proof fn lemma_params_match_concat(a: Seq<Param>, b: Seq<Param>, da: Seq<PSpec>, db: Seq<PSpec>)
    requires
        params_match(a, da),
        params_match(b, db),
    ensures
        params_match(a + b, da + db),
{
    assert forall|i: int| 0 <= i < (a + b).len() implies param_matches(
        #[trigger] (a + b)[i],
        (da + db)[i],
    ) by {
        if i < a.len() {
            assert((a + b)[i] == a[i]);
            assert((da + db)[i] == da[i]);
        } else {
            assert((a + b)[i] == b[i - a.len()]);
            assert((da + db)[i] == db[i - a.len()]);
        }
    }
}

/// The items joined with commas.
pub open spec fn comma_join(items: Seq<Seq<u8>>) -> Seq<u8>
    decreases items.len(),
{
    if items.len() == 0 {
        Seq::empty()
    } else if items.len() == 1 {
        items[0]
    } else {
        comma_join(items.drop_last()) + seq![44u8] + items.last()
    }
}

pub open spec fn chains_text(cs: Seq<ChainId>) -> Seq<u8> {
    comma_join(cs.map_values(|c: ChainId| chain_wire(c)))
}

pub open spec fn strs_text(ss: Seq<String>) -> Seq<u8> {
    comma_join(ss.map_values(|s: String| vstd::utf8::encode_utf8(s@)))
}

pub open spec fn nums_text(ns: Seq<u64>) -> Seq<u8> {
    comma_join(ns.map_values(|n: u64| dec_digits(n)))
}

pub open spec fn chains_descr(key: Seq<u8>, cs: Seq<ChainId>) -> Seq<PSpec> {
    if cs.len() == 0 {
        Seq::empty()
    } else {
        seq![PSpec::T(key, chains_text(cs))]
    }
}

pub open spec fn strs_descr(key: Seq<u8>, ss: Seq<String>) -> Seq<PSpec> {
    if ss.len() == 0 {
        Seq::empty()
    } else {
        seq![PSpec::T(key, strs_text(ss))]
    }
}

pub open spec fn nums_descr(key: Seq<u8>, ns: Seq<u64>) -> Seq<PSpec> {
    if ns.len() == 0 {
        Seq::empty()
    } else {
        seq![PSpec::T(key, nums_text(ns))]
    }
}

pub open spec fn bound_descr(key: Seq<u8>, b: Bound) -> Seq<PSpec> {
    seq![PSpec::B(key, b)]
}

pub open spec fn opt_descr(key: Seq<u8>, o: Option<u64>) -> Seq<PSpec> {
    match o {
        Some(n) => seq![PSpec::U(key, n)],
        None => Seq::empty(),
    }
}

pub open spec fn opt8_descr(key: Seq<u8>, o: Option<u8>) -> Seq<PSpec> {
    match o {
        Some(n) => seq![PSpec::U(key, n as u64)],
        None => Seq::empty(),
    }
}

/// Comma-joins the wire names of a chain set.
fn join_chains(cs: &Vec<ChainId>) -> (r: Vec<u8>)
    ensures
        r@ == chains_text(cs@),
{
    let ghost f = |c: ChainId| chain_wire(c);
    let mut out: Vec<u8> = Vec::new();
    let mut i: usize = 0;
    while i < cs.len()
        invariant
            0 <= i <= cs@.len(),
            out@ == comma_join(cs@.subrange(0, i as int).map_values(|c: ChainId| chain_wire(c))),
        decreases cs@.len() - i,
    {
        if i > 0 {
            out.push(44);
        }
        let mut nb = cs[i].name_bytes();
        out.append(&mut nb);
        proof {
            let pre = cs@.subrange(0, i as int).map_values(|c: ChainId| chain_wire(c));
            let cur = cs@.subrange(0, i + 1).map_values(|c: ChainId| chain_wire(c));
            assert(cur =~= pre.push(chain_wire(cs@[i as int])));
            assert(cur.drop_last() =~= pre);
            if i == 0 {
                assert(out@ =~= comma_join(cur));
            } else {
                assert(out@ =~= comma_join(cur));
            }
        }
        i = i + 1;
    }
    proof {
        assert(cs@.subrange(0, cs@.len() as int) =~= cs@);
    }
    out
}

/// Comma-joins a set of strings, byte for byte.
fn join_strs(ss: &Vec<String>) -> (r: Vec<u8>)
    ensures
        r@ == strs_text(ss@),
{
    let mut out: Vec<u8> = Vec::new();
    let mut i: usize = 0;
    while i < ss.len()
        invariant
            0 <= i <= ss@.len(),
            out@ == comma_join(
                ss@.subrange(0, i as int).map_values(|s: String| vstd::utf8::encode_utf8(s@)),
            ),
        decreases ss@.len() - i,
    {
        if i > 0 {
            out.push(44);
        }
        let mut nb = ss[i].as_str().as_bytes_vec();
        out.append(&mut nb);
        proof {
            let pre = ss@.subrange(0, i as int).map_values(
                |s: String| vstd::utf8::encode_utf8(s@),
            );
            let cur = ss@.subrange(0, i + 1).map_values(|s: String| vstd::utf8::encode_utf8(s@));
            assert(cur =~= pre.push(vstd::utf8::encode_utf8(ss@[i as int]@)));
            assert(cur.drop_last() =~= pre);
            assert(out@ =~= comma_join(cur));
        }
        i = i + 1;
    }
    proof {
        assert(ss@.subrange(0, ss@.len() as int) =~= ss@);
    }
    out
}

/// Comma-joins a set of numbers in decimal.
fn join_nums(ns: &Vec<u64>) -> (r: Vec<u8>)
    ensures
        r@ == nums_text(ns@),
{
    let mut out: Vec<u8> = Vec::new();
    let mut i: usize = 0;
    while i < ns.len()
        invariant
            0 <= i <= ns@.len(),
            out@ == comma_join(ns@.subrange(0, i as int).map_values(|n: u64| dec_digits(n))),
        decreases ns@.len() - i,
    {
        if i > 0 {
            out.push(44);
        }
        push_dec(&mut out, ns[i]);
        proof {
            let pre = ns@.subrange(0, i as int).map_values(|n: u64| dec_digits(n));
            let cur = ns@.subrange(0, i + 1).map_values(|n: u64| dec_digits(n));
            assert(cur =~= pre.push(dec_digits(ns@[i as int])));
            assert(cur.drop_last() =~= pre);
            assert(out@ =~= comma_join(cur));
        }
        i = i + 1;
    }
    proof {
        assert(ns@.subrange(0, ns@.len() as int) =~= ns@);
    }
    out
}

/// Appends the chain-set parameter, omitted when the set is empty.
fn add_chains(out: &mut Vec<Param>, key: Vec<u8>, cs: &Vec<ChainId>)
    ensures
        final(out)@.len() == old(out)@.len() + chains_descr(key@, cs@).len(),
        final(out)@.subrange(0, old(out)@.len() as int) == old(out)@,
        params_match(
            final(out)@.subrange(old(out)@.len() as int, final(out)@.len() as int),
            chains_descr(key@, cs@),
        ),
{
    if cs.len() > 0 {
        let text = join_chains(cs);
        out.push(Param { key, value: ParamValue::Text(text) });
        proof {
            assert(final(out)@.subrange(0, old(out)@.len() as int) =~= old(out)@);
            assert(final(out)@.subrange(old(out)@.len() as int, final(out)@.len() as int)
                =~= seq![final(out)@.last()]);
        }
    } else {
        proof {
            assert(final(out)@.subrange(0, old(out)@.len() as int) =~= old(out)@);
            assert(final(out)@.subrange(old(out)@.len() as int, final(out)@.len() as int)
                =~= Seq::<Param>::empty());
        }
    }
}

/// Appends a string-set filter, omitted when the set is empty.
fn add_strs(out: &mut Vec<Param>, key: Vec<u8>, ss: &Vec<String>)
    ensures
        final(out)@.len() == old(out)@.len() + strs_descr(key@, ss@).len(),
        final(out)@.subrange(0, old(out)@.len() as int) == old(out)@,
        params_match(
            final(out)@.subrange(old(out)@.len() as int, final(out)@.len() as int),
            strs_descr(key@, ss@),
        ),
{
    if ss.len() > 0 {
        let text = join_strs(ss);
        out.push(Param { key, value: ParamValue::Text(text) });
        proof {
            assert(final(out)@.subrange(0, old(out)@.len() as int) =~= old(out)@);
            assert(final(out)@.subrange(old(out)@.len() as int, final(out)@.len() as int)
                =~= seq![final(out)@.last()]);
        }
    } else {
        proof {
            assert(final(out)@.subrange(0, old(out)@.len() as int) =~= old(out)@);
            assert(final(out)@.subrange(old(out)@.len() as int, final(out)@.len() as int)
                =~= Seq::<Param>::empty());
        }
    }
}

/// Appends a number-set filter, omitted when the set is empty.
fn add_nums(out: &mut Vec<Param>, key: Vec<u8>, ns: &Vec<u64>)
    ensures
        final(out)@.len() == old(out)@.len() + nums_descr(key@, ns@).len(),
        final(out)@.subrange(0, old(out)@.len() as int) == old(out)@,
        params_match(
            final(out)@.subrange(old(out)@.len() as int, final(out)@.len() as int),
            nums_descr(key@, ns@),
        ),
{
    if ns.len() > 0 {
        let text = join_nums(ns);
        out.push(Param { key, value: ParamValue::Text(text) });
        proof {
            assert(final(out)@.subrange(0, old(out)@.len() as int) =~= old(out)@);
            assert(final(out)@.subrange(old(out)@.len() as int, final(out)@.len() as int)
                =~= seq![final(out)@.last()]);
        }
    } else {
        proof {
            assert(final(out)@.subrange(0, old(out)@.len() as int) =~= old(out)@);
            assert(final(out)@.subrange(old(out)@.len() as int, final(out)@.len() as int)
                =~= Seq::<Param>::empty());
        }
    }
}

/// Appends a block-endpoint parameter; block endpoints always travel.
fn add_bound(out: &mut Vec<Param>, key: Vec<u8>, b: &Bound)
    ensures
        final(out)@.len() == old(out)@.len() + 1,
        final(out)@.subrange(0, old(out)@.len() as int) == old(out)@,
        params_match(
            final(out)@.subrange(old(out)@.len() as int, final(out)@.len() as int),
            bound_descr(key@, *b),
        ),
{
    out.push(Param { key, value: ParamValue::Block(*b) });
    proof {
        assert(final(out)@.subrange(0, old(out)@.len() as int) =~= old(out)@);
        assert(final(out)@.subrange(old(out)@.len() as int, final(out)@.len() as int)
            =~= seq![final(out)@.last()]);
    }
}

/// Appends an optional numeric filter, omitted when unset.
fn add_opt(out: &mut Vec<Param>, key: Vec<u8>, o: &Option<u64>)
    ensures
        final(out)@.len() == old(out)@.len() + opt_descr(key@, *o).len(),
        final(out)@.subrange(0, old(out)@.len() as int) == old(out)@,
        params_match(
            final(out)@.subrange(old(out)@.len() as int, final(out)@.len() as int),
            opt_descr(key@, *o),
        ),
{
    match o {
        Some(n) => {
            out.push(Param { key, value: ParamValue::Uint(*n) });
            proof {
                assert(final(out)@.subrange(0, old(out)@.len() as int) =~= old(out)@);
                assert(final(out)@.subrange(old(out)@.len() as int, final(out)@.len() as int)
                    =~= seq![final(out)@.last()]);
            }
        },
        None => {
            proof {
                assert(final(out)@.subrange(0, old(out)@.len() as int) =~= old(out)@);
                assert(final(out)@.subrange(old(out)@.len() as int, final(out)@.len() as int)
                    =~= Seq::<Param>::empty());
            }
        },
    }
}

/// Appends an optional small numeric filter, omitted when unset.
fn add_opt8(out: &mut Vec<Param>, key: Vec<u8>, o: &Option<u8>)
    ensures
        final(out)@.len() == old(out)@.len() + opt8_descr(key@, *o).len(),
        final(out)@.subrange(0, old(out)@.len() as int) == old(out)@,
        params_match(
            final(out)@.subrange(old(out)@.len() as int, final(out)@.len() as int),
            opt8_descr(key@, *o),
        ),
{
    match o {
        Some(n) => {
            out.push(Param { key, value: ParamValue::Uint(*n as u64) });
            proof {
                assert(final(out)@.subrange(0, old(out)@.len() as int) =~= old(out)@);
                assert(final(out)@.subrange(old(out)@.len() as int, final(out)@.len() as int)
                    =~= seq![final(out)@.last()]);
            }
        },
        None => {
            proof {
                assert(final(out)@.subrange(0, old(out)@.len() as int) =~= old(out)@);
                assert(final(out)@.subrange(old(out)@.len() as int, final(out)@.len() as int)
                    =~= Seq::<Param>::empty());
            }
        },
    }
}

/// The block a token-standard query reads from when none is given.
pub fn default_src20_from_block() -> (r: Bound)
    ensures
        r == Bound::Exact(0),
{
    Bound::Exact(0)
}

// field-name byte constants
pub open spec fn k_address__in() -> Seq<u8> {
    seq![97, 100, 100, 114, 101, 115, 115, 95, 95, 105, 110]  // address__in
}

pub open spec fn k_amount__gte() -> Seq<u8> {
    seq![97, 109, 111, 117, 110, 116, 95, 95, 103, 116, 101]  // amount__gte
}

pub open spec fn k_amount__lte() -> Seq<u8> {
    seq![97, 109, 111, 117, 110, 116, 95, 95, 108, 116, 101]  // amount__lte
}

pub open spec fn k_asset0_address__in() -> Seq<u8> {
    seq![97, 115, 115, 101, 116, 48, 95, 97, 100, 100, 114, 101, 115, 115, 95, 95, 105, 110]  // asset0_address__in
}

pub open spec fn k_asset1_address__in() -> Seq<u8> {
    seq![97, 115, 115, 101, 116, 49, 95, 97, 100, 100, 114, 101, 115, 115, 95, 95, 105, 110]  // asset1_address__in
}

pub open spec fn k_asset__in() -> Seq<u8> {
    seq![97, 115, 115, 101, 116, 95, 95, 105, 110]  // asset__in
}

pub open spec fn k_asset_id__in() -> Seq<u8> {
    seq![97, 115, 115, 101, 116, 95, 105, 100, 95, 95, 105, 110]  // asset_id__in
}

pub open spec fn k_assets__in() -> Seq<u8> {
    seq![97, 115, 115, 101, 116, 115, 95, 95, 105, 110]  // assets__in
}

pub open spec fn k_base_asset__in() -> Seq<u8> {
    seq![98, 97, 115, 101, 95, 97, 115, 115, 101, 116, 95, 95, 105, 110]  // base_asset__in
}

pub open spec fn k_chains() -> Seq<u8> {
    seq![99, 104, 97, 105, 110, 115]  // chains
}

pub open spec fn k_contract_id__in() -> Seq<u8> {
    seq![99, 111, 110, 116, 114, 97, 99, 116, 95, 105, 100, 95, 95, 105, 110]  // contract_id__in
}

pub open spec fn k_da_block_number__gte() -> Seq<u8> {
    seq![100, 97, 95, 98, 108, 111, 99, 107, 95, 110, 117, 109, 98, 101, 114, 95, 95, 103, 116, 101]  // da_block_number__gte
}

pub open spec fn k_da_block_number__lte() -> Seq<u8> {
    seq![100, 97, 95, 98, 108, 111, 99, 107, 95, 110, 117, 109, 98, 101, 114, 95, 95, 108, 116, 101]  // da_block_number__lte
}

pub open spec fn k_decimals__gte() -> Seq<u8> {
    seq![100, 101, 99, 105, 109, 97, 108, 115, 95, 95, 103, 116, 101]  // decimals__gte
}

pub open spec fn k_decimals__lte() -> Seq<u8> {
    seq![100, 101, 99, 105, 109, 97, 108, 115, 95, 95, 108, 116, 101]  // decimals__lte
}

pub open spec fn k_event_type__in() -> Seq<u8> {
    seq![101, 118, 101, 110, 116, 95, 116, 121, 112, 101, 95, 95, 105, 110]  // event_type__in
}

pub open spec fn k_from_block() -> Seq<u8> {
    seq![102, 114, 111, 109, 95, 98, 108, 111, 99, 107]  // from_block
}

pub open spec fn k_id__in() -> Seq<u8> {
    seq![105, 100, 95, 95, 105, 110]  // id__in
}

pub open spec fn k_input_contract_contract_id__in() -> Seq<u8> {
    seq![105, 110, 112, 117, 116, 95, 99, 111, 110, 116, 114, 97, 99, 116, 95, 99, 111, 110, 116, 114, 97, 99, 116, 95, 105, 100, 95, 95, 105, 110]  // input_contract_contract_id__in
}

pub open spec fn k_key__in() -> Seq<u8> {
    seq![107, 101, 121, 95, 95, 105, 110]  // key__in
}

pub open spec fn k_limit_type__in() -> Seq<u8> {
    seq![108, 105, 109, 105, 116, 95, 116, 121, 112, 101, 95, 95, 105, 110]  // limit_type__in
}

pub open spec fn k_market_id__in() -> Seq<u8> {
    seq![109, 97, 114, 107, 101, 116, 95, 105, 100, 95, 95, 105, 110]  // market_id__in
}

pub open spec fn k_message_type__in() -> Seq<u8> {
    seq![109, 101, 115, 115, 97, 103, 101, 95, 116, 121, 112, 101, 95, 95, 105, 110]  // message_type__in
}

pub open spec fn k_metadata_contract_id__in() -> Seq<u8> {
    seq![109, 101, 116, 97, 100, 97, 116, 97, 95, 99, 111, 110, 116, 114, 97, 99, 116, 95, 105, 100, 95, 95, 105, 110]  // metadata_contract_id__in
}

pub open spec fn k_mint_amount__gte() -> Seq<u8> {
    seq![109, 105, 110, 116, 95, 97, 109, 111, 117, 110, 116, 95, 95, 103, 116, 101]  // mint_amount__gte
}

pub open spec fn k_mint_amount__lte() -> Seq<u8> {
    seq![109, 105, 110, 116, 95, 97, 109, 111, 117, 110, 116, 95, 95, 108, 116, 101]  // mint_amount__lte
}

pub open spec fn k_mint_asset_id__in() -> Seq<u8> {
    seq![109, 105, 110, 116, 95, 97, 115, 115, 101, 116, 95, 105, 100, 95, 95, 105, 110]  // mint_asset_id__in
}

pub open spec fn k_name__in() -> Seq<u8> {
    seq![110, 97, 109, 101, 95, 95, 105, 110]  // name__in
}

pub open spec fn k_order_id__in() -> Seq<u8> {
    seq![111, 114, 100, 101, 114, 95, 105, 100, 95, 95, 105, 110]  // order_id__in
}

pub open spec fn k_order_type__in() -> Seq<u8> {
    seq![111, 114, 100, 101, 114, 95, 116, 121, 112, 101, 95, 95, 105, 110]  // order_type__in
}

pub open spec fn k_pool_address__in() -> Seq<u8> {
    seq![112, 111, 111, 108, 95, 97, 100, 100, 114, 101, 115, 115, 95, 95, 105, 110]  // pool_address__in
}

pub open spec fn k_quote_asset__in() -> Seq<u8> {
    seq![113, 117, 111, 116, 101, 95, 97, 115, 115, 101, 116, 95, 95, 105, 110]  // quote_asset__in
}

pub open spec fn k_ra__in() -> Seq<u8> {
    seq![114, 97, 95, 95, 105, 110]  // ra__in
}

pub open spec fn k_rb__in() -> Seq<u8> {
    seq![114, 98, 95, 95, 105, 110]  // rb__in
}

pub open spec fn k_receipt_type__in() -> Seq<u8> {
    seq![114, 101, 99, 101, 105, 112, 116, 95, 116, 121, 112, 101, 95, 95, 105, 110]  // receipt_type__in
}

pub open spec fn k_recipient__in() -> Seq<u8> {
    seq![114, 101, 99, 105, 112, 105, 101, 110, 116, 95, 95, 105, 110]  // recipient__in
}

pub open spec fn k_sender__in() -> Seq<u8> {
    seq![115, 101, 110, 100, 101, 114, 95, 95, 105, 110]  // sender__in
}

pub open spec fn k_symbol__in() -> Seq<u8> {
    seq![115, 121, 109, 98, 111, 108, 95, 95, 105, 110]  // symbol__in
}

pub open spec fn k_to_block() -> Seq<u8> {
    seq![116, 111, 95, 98, 108, 111, 99, 107]  // to_block
}

pub open spec fn k_transaction_type__in() -> Seq<u8> {
    seq![116, 114, 97, 110, 115, 97, 99, 116, 105, 111, 110, 95, 116, 121, 112, 101, 95, 95, 105, 110]  // transaction_type__in
}

pub open spec fn k_unspent_at() -> Seq<u8> {
    seq![117, 110, 115, 112, 101, 110, 116, 95, 97, 116]  // unspent_at
}

pub open spec fn k_user__in() -> Seq<u8> {
    seq![117, 115, 101, 114, 95, 95, 105, 110]  // user__in
}

#[derive(Clone, Debug)]
pub struct GetFuelBlocksRequest {
    pub chains: Vec<ChainId>,
    pub from_block: Bound,
    pub to_block: Bound,
    pub da_block_number__gte: Option<u64>,
    pub da_block_number__lte: Option<u64>,
}

impl GetFuelBlocksRequest {
    /// The flat parameter mapping this request serializes to.
    pub open spec fn descr(&self) -> Seq<PSpec> {
        chains_descr(k_chains(), self.chains@) + bound_descr(k_from_block(), self.from_block) + bound_descr(k_to_block(), self.to_block) + opt_descr(k_da_block_number__gte(), self.da_block_number__gte) + opt_descr(k_da_block_number__lte(), self.da_block_number__lte)
    }

    /// Flattens the request into envelope parameters.
    #[verifier::rlimit(100)]
    pub fn params(&self) -> (r: Vec<Param>)
        ensures
            params_match(r@, self.descr()),
    {
        let mut out: Vec<Param> = Vec::new();
        let ghost mut ds: Seq<PSpec> = Seq::empty();
        let ghost pre = out@;
        let kb: Vec<u8> = vec![99, 104, 97, 105, 110, 115];
        proof {
            assert(kb@ =~= k_chains());
        }
        add_chains(&mut out, kb, &self.chains);
        proof {
            let seg = out@.subrange(pre.len() as int, out@.len() as int);
            assert(out@ =~= pre + seg);
            lemma_params_match_concat(pre, seg, ds, chains_descr(k_chains(), self.chains@));
            ds = ds + chains_descr(k_chains(), self.chains@);
            assert(params_match(out@, ds));
        }
        let ghost pre = out@;
        let kb: Vec<u8> = vec![102, 114, 111, 109, 95, 98, 108, 111, 99, 107];
        proof {
            assert(kb@ =~= k_from_block());
        }
        add_bound(&mut out, kb, &self.from_block);
        proof {
            let seg = out@.subrange(pre.len() as int, out@.len() as int);
            assert(out@ =~= pre + seg);
            lemma_params_match_concat(pre, seg, ds, bound_descr(k_from_block(), self.from_block));
            ds = ds + bound_descr(k_from_block(), self.from_block);
            assert(params_match(out@, ds));
        }
        let ghost pre = out@;
        let kb: Vec<u8> = vec![116, 111, 95, 98, 108, 111, 99, 107];
        proof {
            assert(kb@ =~= k_to_block());
        }
        add_bound(&mut out, kb, &self.to_block);
        proof {
            let seg = out@.subrange(pre.len() as int, out@.len() as int);
            assert(out@ =~= pre + seg);
            lemma_params_match_concat(pre, seg, ds, bound_descr(k_to_block(), self.to_block));
            ds = ds + bound_descr(k_to_block(), self.to_block);
            assert(params_match(out@, ds));
        }
        let ghost pre = out@;
        let kb: Vec<u8> = vec![100, 97, 95, 98, 108, 111, 99, 107, 95, 110, 117, 109, 98, 101, 114, 95, 95, 103, 116, 101];
        proof {
            assert(kb@ =~= k_da_block_number__gte());
        }
        add_opt(&mut out, kb, &self.da_block_number__gte);
        proof {
            let seg = out@.subrange(pre.len() as int, out@.len() as int);
            assert(out@ =~= pre + seg);
            lemma_params_match_concat(pre, seg, ds, opt_descr(k_da_block_number__gte(), self.da_block_number__gte));
            ds = ds + opt_descr(k_da_block_number__gte(), self.da_block_number__gte);
            assert(params_match(out@, ds));
        }
        let ghost pre = out@;
        let kb: Vec<u8> = vec![100, 97, 95, 98, 108, 111, 99, 107, 95, 110, 117, 109, 98, 101, 114, 95, 95, 108, 116, 101];
        proof {
            assert(kb@ =~= k_da_block_number__lte());
        }
        add_opt(&mut out, kb, &self.da_block_number__lte);
        proof {
            let seg = out@.subrange(pre.len() as int, out@.len() as int);
            assert(out@ =~= pre + seg);
            lemma_params_match_concat(pre, seg, ds, opt_descr(k_da_block_number__lte(), self.da_block_number__lte));
            ds = ds + opt_descr(k_da_block_number__lte(), self.da_block_number__lte);
            assert(params_match(out@, ds));
        }
        proof {
            assert(ds =~= self.descr());
        }
        out
    }
}

impl Default for GetFuelBlocksRequest {
    /// The request over the default chain set and the default block
    /// range, with every filter unset.
    fn default() -> (r: Self)
        ensures
            r.chains@ == seq![ChainId::FUEL],
            r.from_block == Bound::Latest,
            r.to_block == Bound::Latest,
            r.da_block_number__gte is None,
            r.da_block_number__lte is None,
    {
        GetFuelBlocksRequest {
            chains: crate::chain::default_chains(),
            from_block: Bound::Latest,
            to_block: Bound::Latest,
            da_block_number__gte: None,
            da_block_number__lte: None,
        }
    }
}

#[derive(Clone, Debug)]
pub struct GetFuelLogsRequest {
    pub chains: Vec<ChainId>,
    pub from_block: Bound,
    pub to_block: Bound,
    pub id__in: Vec<String>,
    pub ra__in: Vec<u64>,
    pub rb__in: Vec<u64>,
}

impl GetFuelLogsRequest {
    /// The flat parameter mapping this request serializes to.
    pub open spec fn descr(&self) -> Seq<PSpec> {
        chains_descr(k_chains(), self.chains@) + bound_descr(k_from_block(), self.from_block) + bound_descr(k_to_block(), self.to_block) + strs_descr(k_id__in(), self.id__in@) + nums_descr(k_ra__in(), self.ra__in@) + nums_descr(k_rb__in(), self.rb__in@)
    }

    /// Flattens the request into envelope parameters.
    #[verifier::rlimit(100)]
    pub fn params(&self) -> (r: Vec<Param>)
        ensures
            params_match(r@, self.descr()),
    {
        let mut out: Vec<Param> = Vec::new();
        let ghost mut ds: Seq<PSpec> = Seq::empty();
        let ghost pre = out@;
        let kb: Vec<u8> = vec![99, 104, 97, 105, 110, 115];
        proof {
            assert(kb@ =~= k_chains());
        }
        add_chains(&mut out, kb, &self.chains);
        proof {
            let seg = out@.subrange(pre.len() as int, out@.len() as int);
            assert(out@ =~= pre + seg);
            lemma_params_match_concat(pre, seg, ds, chains_descr(k_chains(), self.chains@));
            ds = ds + chains_descr(k_chains(), self.chains@);
            assert(params_match(out@, ds));
        }
        let ghost pre = out@;
        let kb: Vec<u8> = vec![102, 114, 111, 109, 95, 98, 108, 111, 99, 107];
        proof {
            assert(kb@ =~= k_from_block());
        }
        add_bound(&mut out, kb, &self.from_block);
        proof {
            let seg = out@.subrange(pre.len() as int, out@.len() as int);
            assert(out@ =~= pre + seg);
            lemma_params_match_concat(pre, seg, ds, bound_descr(k_from_block(), self.from_block));
            ds = ds + bound_descr(k_from_block(), self.from_block);
            assert(params_match(out@, ds));
        }
        let ghost pre = out@;
        let kb: Vec<u8> = vec![116, 111, 95, 98, 108, 111, 99, 107];
        proof {
            assert(kb@ =~= k_to_block());
        }
        add_bound(&mut out, kb, &self.to_block);
        proof {
            let seg = out@.subrange(pre.len() as int, out@.len() as int);
            assert(out@ =~= pre + seg);
            lemma_params_match_concat(pre, seg, ds, bound_descr(k_to_block(), self.to_block));
            ds = ds + bound_descr(k_to_block(), self.to_block);
            assert(params_match(out@, ds));
        }
        let ghost pre = out@;
        let kb: Vec<u8> = vec![105, 100, 95, 95, 105, 110];
        proof {
            assert(kb@ =~= k_id__in());
        }
        add_strs(&mut out, kb, &self.id__in);
        proof {
            let seg = out@.subrange(pre.len() as int, out@.len() as int);
            assert(out@ =~= pre + seg);
            lemma_params_match_concat(pre, seg, ds, strs_descr(k_id__in(), self.id__in@));
            ds = ds + strs_descr(k_id__in(), self.id__in@);
            assert(params_match(out@, ds));
        }
        let ghost pre = out@;
        let kb: Vec<u8> = vec![114, 97, 95, 95, 105, 110];
        proof {
            assert(kb@ =~= k_ra__in());
        }
        add_nums(&mut out, kb, &self.ra__in);
        proof {
            let seg = out@.subrange(pre.len() as int, out@.len() as int);
            assert(out@ =~= pre + seg);
            lemma_params_match_concat(pre, seg, ds, nums_descr(k_ra__in(), self.ra__in@));
            ds = ds + nums_descr(k_ra__in(), self.ra__in@);
            assert(params_match(out@, ds));
        }
        let ghost pre = out@;
        let kb: Vec<u8> = vec![114, 98, 95, 95, 105, 110];
        proof {
            assert(kb@ =~= k_rb__in());
        }
        add_nums(&mut out, kb, &self.rb__in);
        proof {
            let seg = out@.subrange(pre.len() as int, out@.len() as int);
            assert(out@ =~= pre + seg);
            lemma_params_match_concat(pre, seg, ds, nums_descr(k_rb__in(), self.rb__in@));
            ds = ds + nums_descr(k_rb__in(), self.rb__in@);
            assert(params_match(out@, ds));
        }
        proof {
            assert(ds =~= self.descr());
        }
        out
    }
}

impl Default for GetFuelLogsRequest {
    /// The request over the default chain set and the default block
    /// range, with every filter unset.
    fn default() -> (r: Self)
        ensures
            r.chains@ == seq![ChainId::FUEL],
            r.from_block == Bound::Latest,
            r.to_block == Bound::Latest,
            r.id__in@ == Seq::<String>::empty(),
            r.ra__in@ == Seq::<u64>::empty(),
            r.rb__in@ == Seq::<u64>::empty(),
    {
        GetFuelLogsRequest {
            chains: crate::chain::default_chains(),
            from_block: Bound::Latest,
            to_block: Bound::Latest,
            id__in: Vec::new(),
            ra__in: Vec::new(),
            rb__in: Vec::new(),
        }
    }
}

#[derive(Clone, Debug)]
pub struct GetFuelTxsRequest {
    pub chains: Vec<ChainId>,
    pub from_block: Bound,
    pub to_block: Bound,
    pub transaction_type__in: Vec<String>,
    pub metadata_contract_id__in: Vec<String>,
    pub input_contract_contract_id__in: Vec<String>,
    pub mint_asset_id__in: Vec<String>,
    pub mint_amount__lte: Option<u64>,
    pub mint_amount__gte: Option<u64>,
}

impl GetFuelTxsRequest {
    /// The flat parameter mapping this request serializes to.
    pub open spec fn descr(&self) -> Seq<PSpec> {
        chains_descr(k_chains(), self.chains@) + bound_descr(k_from_block(), self.from_block) + bound_descr(k_to_block(), self.to_block) + strs_descr(k_transaction_type__in(), self.transaction_type__in@) + strs_descr(k_metadata_contract_id__in(), self.metadata_contract_id__in@) + strs_descr(k_input_contract_contract_id__in(), self.input_contract_contract_id__in@) + strs_descr(k_mint_asset_id__in(), self.mint_asset_id__in@) + opt_descr(k_mint_amount__lte(), self.mint_amount__lte) + opt_descr(k_mint_amount__gte(), self.mint_amount__gte)
    }

    /// Flattens the request into envelope parameters.
    #[verifier::rlimit(100)]
    pub fn params(&self) -> (r: Vec<Param>)
        ensures
            params_match(r@, self.descr()),
    {
        let mut out: Vec<Param> = Vec::new();
        let ghost mut ds: Seq<PSpec> = Seq::empty();
        let ghost pre = out@;
        let kb: Vec<u8> = vec![99, 104, 97, 105, 110, 115];
        proof {
            assert(kb@ =~= k_chains());
        }
        add_chains(&mut out, kb, &self.chains);
        proof {
            let seg = out@.subrange(pre.len() as int, out@.len() as int);
            assert(out@ =~= pre + seg);
            lemma_params_match_concat(pre, seg, ds, chains_descr(k_chains(), self.chains@));
            ds = ds + chains_descr(k_chains(), self.chains@);
            assert(params_match(out@, ds));
        }
        let ghost pre = out@;
        let kb: Vec<u8> = vec![102, 114, 111, 109, 95, 98, 108, 111, 99, 107];
        proof {
            assert(kb@ =~= k_from_block());
        }
        add_bound(&mut out, kb, &self.from_block);
        proof {
            let seg = out@.subrange(pre.len() as int, out@.len() as int);
            assert(out@ =~= pre + seg);
            lemma_params_match_concat(pre, seg, ds, bound_descr(k_from_block(), self.from_block));
            ds = ds + bound_descr(k_from_block(), self.from_block);
            assert(params_match(out@, ds));
        }
        let ghost pre = out@;
        let kb: Vec<u8> = vec![116, 111, 95, 98, 108, 111, 99, 107];
        proof {
            assert(kb@ =~= k_to_block());
        }
        add_bound(&mut out, kb, &self.to_block);
        proof {
            let seg = out@.subrange(pre.len() as int, out@.len() as int);
            assert(out@ =~= pre + seg);
            lemma_params_match_concat(pre, seg, ds, bound_descr(k_to_block(), self.to_block));
            ds = ds + bound_descr(k_to_block(), self.to_block);
            assert(params_match(out@, ds));
        }
        let ghost pre = out@;
        let kb: Vec<u8> = vec![116, 114, 97, 110, 115, 97, 99, 116, 105, 111, 110, 95, 116, 121, 112, 101, 95, 95, 105, 110];
        proof {
            assert(kb@ =~= k_transaction_type__in());
        }
        add_strs(&mut out, kb, &self.transaction_type__in);
        proof {
            let seg = out@.subrange(pre.len() as int, out@.len() as int);
            assert(out@ =~= pre + seg);
            lemma_params_match_concat(pre, seg, ds, strs_descr(k_transaction_type__in(), self.transaction_type__in@));
            ds = ds + strs_descr(k_transaction_type__in(), self.transaction_type__in@);
            assert(params_match(out@, ds));
        }
        let ghost pre = out@;
        let kb: Vec<u8> = vec![109, 101, 116, 97, 100, 97, 116, 97, 95, 99, 111, 110, 116, 114, 97, 99, 116, 95, 105, 100, 95, 95, 105, 110];
        proof {
            assert(kb@ =~= k_metadata_contract_id__in());
        }
        add_strs(&mut out, kb, &self.metadata_contract_id__in);
        proof {
            let seg = out@.subrange(pre.len() as int, out@.len() as int);
            assert(out@ =~= pre + seg);
            lemma_params_match_concat(pre, seg, ds, strs_descr(k_metadata_contract_id__in(), self.metadata_contract_id__in@));
            ds = ds + strs_descr(k_metadata_contract_id__in(), self.metadata_contract_id__in@);
            assert(params_match(out@, ds));
        }
        let ghost pre = out@;
        let kb: Vec<u8> = vec![105, 110, 112, 117, 116, 95, 99, 111, 110, 116, 114, 97, 99, 116, 95, 99, 111, 110, 116, 114, 97, 99, 116, 95, 105, 100, 95, 95, 105, 110];
        proof {
            assert(kb@ =~= k_input_contract_contract_id__in());
        }
        add_strs(&mut out, kb, &self.input_contract_contract_id__in);
        proof {
            let seg = out@.subrange(pre.len() as int, out@.len() as int);
            assert(out@ =~= pre + seg);
            lemma_params_match_concat(pre, seg, ds, strs_descr(k_input_contract_contract_id__in(), self.input_contract_contract_id__in@));
            ds = ds + strs_descr(k_input_contract_contract_id__in(), self.input_contract_contract_id__in@);
            assert(params_match(out@, ds));
        }
        let ghost pre = out@;
        let kb: Vec<u8> = vec![109, 105, 110, 116, 95, 97, 115, 115, 101, 116, 95, 105, 100, 95, 95, 105, 110];
        proof {
            assert(kb@ =~= k_mint_asset_id__in());
        }
        add_strs(&mut out, kb, &self.mint_asset_id__in);
        proof {
            let seg = out@.subrange(pre.len() as int, out@.len() as int);
            assert(out@ =~= pre + seg);
            lemma_params_match_concat(pre, seg, ds, strs_descr(k_mint_asset_id__in(), self.mint_asset_id__in@));
            ds = ds + strs_descr(k_mint_asset_id__in(), self.mint_asset_id__in@);
            assert(params_match(out@, ds));
        }
        let ghost pre = out@;
        let kb: Vec<u8> = vec![109, 105, 110, 116, 95, 97, 109, 111, 117, 110, 116, 95, 95, 108, 116, 101];
        proof {
            assert(kb@ =~= k_mint_amount__lte());
        }
        add_opt(&mut out, kb, &self.mint_amount__lte);
        proof {
            let seg = out@.subrange(pre.len() as int, out@.len() as int);
            assert(out@ =~= pre + seg);
            lemma_params_match_concat(pre, seg, ds, opt_descr(k_mint_amount__lte(), self.mint_amount__lte));
            ds = ds + opt_descr(k_mint_amount__lte(), self.mint_amount__lte);
            assert(params_match(out@, ds));
        }
        let ghost pre = out@;
        let kb: Vec<u8> = vec![109, 105, 110, 116, 95, 97, 109, 111, 117, 110, 116, 95, 95, 103, 116, 101];
        proof {
            assert(kb@ =~= k_mint_amount__gte());
        }
        add_opt(&mut out, kb, &self.mint_amount__gte);
        proof {
            let seg = out@.subrange(pre.len() as int, out@.len() as int);
            assert(out@ =~= pre + seg);
            lemma_params_match_concat(pre, seg, ds, opt_descr(k_mint_amount__gte(), self.mint_amount__gte));
            ds = ds + opt_descr(k_mint_amount__gte(), self.mint_amount__gte);
            assert(params_match(out@, ds));
        }
        proof {
            assert(ds =~= self.descr());
        }
        out
    }
}

impl Default for GetFuelTxsRequest {
    /// The request over the default chain set and the default block
    /// range, with every filter unset.
    fn default() -> (r: Self)
        ensures
            r.chains@ == seq![ChainId::FUEL],
            r.from_block == Bound::Latest,
            r.to_block == Bound::Latest,
            r.transaction_type__in@ == Seq::<String>::empty(),
            r.metadata_contract_id__in@ == Seq::<String>::empty(),
            r.input_contract_contract_id__in@ == Seq::<String>::empty(),
            r.mint_asset_id__in@ == Seq::<String>::empty(),
            r.mint_amount__lte is None,
            r.mint_amount__gte is None,
    {
        GetFuelTxsRequest {
            chains: crate::chain::default_chains(),
            from_block: Bound::Latest,
            to_block: Bound::Latest,
            transaction_type__in: Vec::new(),
            metadata_contract_id__in: Vec::new(),
            input_contract_contract_id__in: Vec::new(),
            mint_asset_id__in: Vec::new(),
            mint_amount__lte: None,
            mint_amount__gte: None,
        }
    }
}

#[derive(Clone, Debug)]
pub struct GetFuelReceiptsRequest {
    pub chains: Vec<ChainId>,
    pub from_block: Bound,
    pub to_block: Bound,
    pub receipt_type__in: Vec<String>,
}

impl GetFuelReceiptsRequest {
    /// The flat parameter mapping this request serializes to.
    pub open spec fn descr(&self) -> Seq<PSpec> {
        chains_descr(k_chains(), self.chains@) + bound_descr(k_from_block(), self.from_block) + bound_descr(k_to_block(), self.to_block) + strs_descr(k_receipt_type__in(), self.receipt_type__in@)
    }

    /// Flattens the request into envelope parameters.
    #[verifier::rlimit(100)]
    pub fn params(&self) -> (r: Vec<Param>)
        ensures
            params_match(r@, self.descr()),
    {
        let mut out: Vec<Param> = Vec::new();
        let ghost mut ds: Seq<PSpec> = Seq::empty();
        let ghost pre = out@;
        let kb: Vec<u8> = vec![99, 104, 97, 105, 110, 115];
        proof {
            assert(kb@ =~= k_chains());
        }
        add_chains(&mut out, kb, &self.chains);
        proof {
            let seg = out@.subrange(pre.len() as int, out@.len() as int);
            assert(out@ =~= pre + seg);
            lemma_params_match_concat(pre, seg, ds, chains_descr(k_chains(), self.chains@));
            ds = ds + chains_descr(k_chains(), self.chains@);
            assert(params_match(out@, ds));
        }
        let ghost pre = out@;
        let kb: Vec<u8> = vec![102, 114, 111, 109, 95, 98, 108, 111, 99, 107];
        proof {
            assert(kb@ =~= k_from_block());
        }
        add_bound(&mut out, kb, &self.from_block);
        proof {
            let seg = out@.subrange(pre.len() as int, out@.len() as int);
            assert(out@ =~= pre + seg);
            lemma_params_match_concat(pre, seg, ds, bound_descr(k_from_block(), self.from_block));
            ds = ds + bound_descr(k_from_block(), self.from_block);
            assert(params_match(out@, ds));
        }
        let ghost pre = out@;
        let kb: Vec<u8> = vec![116, 111, 95, 98, 108, 111, 99, 107];
        proof {
            assert(kb@ =~= k_to_block());
        }
        add_bound(&mut out, kb, &self.to_block);
        proof {
            let seg = out@.subrange(pre.len() as int, out@.len() as int);
            assert(out@ =~= pre + seg);
            lemma_params_match_concat(pre, seg, ds, bound_descr(k_to_block(), self.to_block));
            ds = ds + bound_descr(k_to_block(), self.to_block);
            assert(params_match(out@, ds));
        }
        let ghost pre = out@;
        let kb: Vec<u8> = vec![114, 101, 99, 101, 105, 112, 116, 95, 116, 121, 112, 101, 95, 95, 105, 110];
        proof {
            assert(kb@ =~= k_receipt_type__in());
        }
        add_strs(&mut out, kb, &self.receipt_type__in);
        proof {
            let seg = out@.subrange(pre.len() as int, out@.len() as int);
            assert(out@ =~= pre + seg);
            lemma_params_match_concat(pre, seg, ds, strs_descr(k_receipt_type__in(), self.receipt_type__in@));
            ds = ds + strs_descr(k_receipt_type__in(), self.receipt_type__in@);
            assert(params_match(out@, ds));
        }
        proof {
            assert(ds =~= self.descr());
        }
        out
    }
}

impl Default for GetFuelReceiptsRequest {
    /// The request over the default chain set and the default block
    /// range, with every filter unset.
    fn default() -> (r: Self)
        ensures
            r.chains@ == seq![ChainId::FUEL],
            r.from_block == Bound::Latest,
            r.to_block == Bound::Latest,
            r.receipt_type__in@ == Seq::<String>::empty(),
    {
        GetFuelReceiptsRequest {
            chains: crate::chain::default_chains(),
            from_block: Bound::Latest,
            to_block: Bound::Latest,
            receipt_type__in: Vec::new(),
        }
    }
}

#[derive(Clone, Debug)]
pub struct GetFuelMessagesRequest {
    pub chains: Vec<ChainId>,
    pub from_block: Bound,
    pub to_block: Bound,
    pub da_block_number__gte: Option<u64>,
    pub da_block_number__lte: Option<u64>,
    pub sender__in: Vec<String>,
    pub recipient__in: Vec<String>,
    pub amount__gte: Option<u64>,
    pub amount__lte: Option<u64>,
    pub message_type__in: Vec<String>,
}

impl GetFuelMessagesRequest {
    /// The flat parameter mapping this request serializes to.
    pub open spec fn descr(&self) -> Seq<PSpec> {
        chains_descr(k_chains(), self.chains@) + bound_descr(k_from_block(), self.from_block) + bound_descr(k_to_block(), self.to_block) + opt_descr(k_da_block_number__gte(), self.da_block_number__gte) + opt_descr(k_da_block_number__lte(), self.da_block_number__lte) + strs_descr(k_sender__in(), self.sender__in@) + strs_descr(k_recipient__in(), self.recipient__in@) + opt_descr(k_amount__gte(), self.amount__gte) + opt_descr(k_amount__lte(), self.amount__lte) + strs_descr(k_message_type__in(), self.message_type__in@)
    }

    /// Flattens the request into envelope parameters.
    #[verifier::rlimit(100)]
    pub fn params(&self) -> (r: Vec<Param>)
        ensures
            params_match(r@, self.descr()),
    {
        let mut out: Vec<Param> = Vec::new();
        let ghost mut ds: Seq<PSpec> = Seq::empty();
        let ghost pre = out@;
        let kb: Vec<u8> = vec![99, 104, 97, 105, 110, 115];
        proof {
            assert(kb@ =~= k_chains());
        }
        add_chains(&mut out, kb, &self.chains);
        proof {
            let seg = out@.subrange(pre.len() as int, out@.len() as int);
            assert(out@ =~= pre + seg);
            lemma_params_match_concat(pre, seg, ds, chains_descr(k_chains(), self.chains@));
            ds = ds + chains_descr(k_chains(), self.chains@);
            assert(params_match(out@, ds));
        }
        let ghost pre = out@;
        let kb: Vec<u8> = vec![102, 114, 111, 109, 95, 98, 108, 111, 99, 107];
        proof {
            assert(kb@ =~= k_from_block());
        }
        add_bound(&mut out, kb, &self.from_block);
        proof {
            let seg = out@.subrange(pre.len() as int, out@.len() as int);
            assert(out@ =~= pre + seg);
            lemma_params_match_concat(pre, seg, ds, bound_descr(k_from_block(), self.from_block));
            ds = ds + bound_descr(k_from_block(), self.from_block);
            assert(params_match(out@, ds));
        }
        let ghost pre = out@;
        let kb: Vec<u8> = vec![116, 111, 95, 98, 108, 111, 99, 107];
        proof {
            assert(kb@ =~= k_to_block());
        }
        add_bound(&mut out, kb, &self.to_block);
        proof {
            let seg = out@.subrange(pre.len() as int, out@.len() as int);
            assert(out@ =~= pre + seg);
            lemma_params_match_concat(pre, seg, ds, bound_descr(k_to_block(), self.to_block));
            ds = ds + bound_descr(k_to_block(), self.to_block);
            assert(params_match(out@, ds));
        }
        let ghost pre = out@;
        let kb: Vec<u8> = vec![100, 97, 95, 98, 108, 111, 99, 107, 95, 110, 117, 109, 98, 101, 114, 95, 95, 103, 116, 101];
        proof {
            assert(kb@ =~= k_da_block_number__gte());
        }
        add_opt(&mut out, kb, &self.da_block_number__gte);
        proof {
            let seg = out@.subrange(pre.len() as int, out@.len() as int);
            assert(out@ =~= pre + seg);
            lemma_params_match_concat(pre, seg, ds, opt_descr(k_da_block_number__gte(), self.da_block_number__gte));
            ds = ds + opt_descr(k_da_block_number__gte(), self.da_block_number__gte);
            assert(params_match(out@, ds));
        }
        let ghost pre = out@;
        let kb: Vec<u8> = vec![100, 97, 95, 98, 108, 111, 99, 107, 95, 110, 117, 109, 98, 101, 114, 95, 95, 108, 116, 101];
        proof {
            assert(kb@ =~= k_da_block_number__lte());
        }
        add_opt(&mut out, kb, &self.da_block_number__lte);
        proof {
            let seg = out@.subrange(pre.len() as int, out@.len() as int);
            assert(out@ =~= pre + seg);
            lemma_params_match_concat(pre, seg, ds, opt_descr(k_da_block_number__lte(), self.da_block_number__lte));
            ds = ds + opt_descr(k_da_block_number__lte(), self.da_block_number__lte);
            assert(params_match(out@, ds));
        }
        let ghost pre = out@;
        let kb: Vec<u8> = vec![115, 101, 110, 100, 101, 114, 95, 95, 105, 110];
        proof {
            assert(kb@ =~= k_sender__in());
        }
        add_strs(&mut out, kb, &self.sender__in);
        proof {
            let seg = out@.subrange(pre.len() as int, out@.len() as int);
            assert(out@ =~= pre + seg);
            lemma_params_match_concat(pre, seg, ds, strs_descr(k_sender__in(), self.sender__in@));
            ds = ds + strs_descr(k_sender__in(), self.sender__in@);
            assert(params_match(out@, ds));
        }
        let ghost pre = out@;
        let kb: Vec<u8> = vec![114, 101, 99, 105, 112, 105, 101, 110, 116, 95, 95, 105, 110];
        proof {
            assert(kb@ =~= k_recipient__in());
        }
        add_strs(&mut out, kb, &self.recipient__in);
        proof {
            let seg = out@.subrange(pre.len() as int, out@.len() as int);
            assert(out@ =~= pre + seg);
            lemma_params_match_concat(pre, seg, ds, strs_descr(k_recipient__in(), self.recipient__in@));
            ds = ds + strs_descr(k_recipient__in(), self.recipient__in@);
            assert(params_match(out@, ds));
        }
        let ghost pre = out@;
        let kb: Vec<u8> = vec![97, 109, 111, 117, 110, 116, 95, 95, 103, 116, 101];
        proof {
            assert(kb@ =~= k_amount__gte());
        }
        add_opt(&mut out, kb, &self.amount__gte);
        proof {
            let seg = out@.subrange(pre.len() as int, out@.len() as int);
            assert(out@ =~= pre + seg);
            lemma_params_match_concat(pre, seg, ds, opt_descr(k_amount__gte(), self.amount__gte));
            ds = ds + opt_descr(k_amount__gte(), self.amount__gte);
            assert(params_match(out@, ds));
        }
        let ghost pre = out@;
        let kb: Vec<u8> = vec![97, 109, 111, 117, 110, 116, 95, 95, 108, 116, 101];
        proof {
            assert(kb@ =~= k_amount__lte());
        }
        add_opt(&mut out, kb, &self.amount__lte);
        proof {
            let seg = out@.subrange(pre.len() as int, out@.len() as int);
            assert(out@ =~= pre + seg);
            lemma_params_match_concat(pre, seg, ds, opt_descr(k_amount__lte(), self.amount__lte));
            ds = ds + opt_descr(k_amount__lte(), self.amount__lte);
            assert(params_match(out@, ds));
        }
        let ghost pre = out@;
        let kb: Vec<u8> = vec![109, 101, 115, 115, 97, 103, 101, 95, 116, 121, 112, 101, 95, 95, 105, 110];
        proof {
            assert(kb@ =~= k_message_type__in());
        }
        add_strs(&mut out, kb, &self.message_type__in);
        proof {
            let seg = out@.subrange(pre.len() as int, out@.len() as int);
            assert(out@ =~= pre + seg);
            lemma_params_match_concat(pre, seg, ds, strs_descr(k_message_type__in(), self.message_type__in@));
            ds = ds + strs_descr(k_message_type__in(), self.message_type__in@);
            assert(params_match(out@, ds));
        }
        proof {
            assert(ds =~= self.descr());
        }
        out
    }
}

impl Default for GetFuelMessagesRequest {
    /// The request over the default chain set and the default block
    /// range, with every filter unset.
    fn default() -> (r: Self)
        ensures
            r.chains@ == seq![ChainId::FUEL],
            r.from_block == Bound::Latest,
            r.to_block == Bound::Latest,
            r.da_block_number__gte is None,
            r.da_block_number__lte is None,
            r.sender__in@ == Seq::<String>::empty(),
            r.recipient__in@ == Seq::<String>::empty(),
            r.amount__gte is None,
            r.amount__lte is None,
            r.message_type__in@ == Seq::<String>::empty(),
    {
        GetFuelMessagesRequest {
            chains: crate::chain::default_chains(),
            from_block: Bound::Latest,
            to_block: Bound::Latest,
            da_block_number__gte: None,
            da_block_number__lte: None,
            sender__in: Vec::new(),
            recipient__in: Vec::new(),
            amount__gte: None,
            amount__lte: None,
            message_type__in: Vec::new(),
        }
    }
}

#[derive(Clone, Debug)]
pub struct GetSparkMarketRequest {
    pub chains: Vec<ChainId>,
    pub from_block: Bound,
    pub to_block: Bound,
    pub event_type__in: Vec<String>,
    pub base_asset__in: Vec<String>,
    pub quote_asset__in: Vec<String>,
    pub market_id__in: Vec<String>,
}

impl GetSparkMarketRequest {
    /// The flat parameter mapping this request serializes to.
    pub open spec fn descr(&self) -> Seq<PSpec> {
        chains_descr(k_chains(), self.chains@) + bound_descr(k_from_block(), self.from_block) + bound_descr(k_to_block(), self.to_block) + strs_descr(k_event_type__in(), self.event_type__in@) + strs_descr(k_base_asset__in(), self.base_asset__in@) + strs_descr(k_quote_asset__in(), self.quote_asset__in@) + strs_descr(k_market_id__in(), self.market_id__in@)
    }

    /// Flattens the request into envelope parameters.
    #[verifier::rlimit(100)]
    pub fn params(&self) -> (r: Vec<Param>)
        ensures
            params_match(r@, self.descr()),
    {
        let mut out: Vec<Param> = Vec::new();
        let ghost mut ds: Seq<PSpec> = Seq::empty();
        let ghost pre = out@;
        let kb: Vec<u8> = vec![99, 104, 97, 105, 110, 115];
        proof {
            assert(kb@ =~= k_chains());
        }
        add_chains(&mut out, kb, &self.chains);
        proof {
            let seg = out@.subrange(pre.len() as int, out@.len() as int);
            assert(out@ =~= pre + seg);
            lemma_params_match_concat(pre, seg, ds, chains_descr(k_chains(), self.chains@));
            ds = ds + chains_descr(k_chains(), self.chains@);
            assert(params_match(out@, ds));
        }
        let ghost pre = out@;
        let kb: Vec<u8> = vec![102, 114, 111, 109, 95, 98, 108, 111, 99, 107];
        proof {
            assert(kb@ =~= k_from_block());
        }
        add_bound(&mut out, kb, &self.from_block);
        proof {
            let seg = out@.subrange(pre.len() as int, out@.len() as int);
            assert(out@ =~= pre + seg);
            lemma_params_match_concat(pre, seg, ds, bound_descr(k_from_block(), self.from_block));
            ds = ds + bound_descr(k_from_block(), self.from_block);
            assert(params_match(out@, ds));
        }
        let ghost pre = out@;
        let kb: Vec<u8> = vec![116, 111, 95, 98, 108, 111, 99, 107];
        proof {
            assert(kb@ =~= k_to_block());
        }
        add_bound(&mut out, kb, &self.to_block);
        proof {
            let seg = out@.subrange(pre.len() as int, out@.len() as int);
            assert(out@ =~= pre + seg);
            lemma_params_match_concat(pre, seg, ds, bound_descr(k_to_block(), self.to_block));
            ds = ds + bound_descr(k_to_block(), self.to_block);
            assert(params_match(out@, ds));
        }
        let ghost pre = out@;
        let kb: Vec<u8> = vec![101, 118, 101, 110, 116, 95, 116, 121, 112, 101, 95, 95, 105, 110];
        proof {
            assert(kb@ =~= k_event_type__in());
        }
        add_strs(&mut out, kb, &self.event_type__in);
        proof {
            let seg = out@.subrange(pre.len() as int, out@.len() as int);
            assert(out@ =~= pre + seg);
            lemma_params_match_concat(pre, seg, ds, strs_descr(k_event_type__in(), self.event_type__in@));
            ds = ds + strs_descr(k_event_type__in(), self.event_type__in@);
            assert(params_match(out@, ds));
        }
        let ghost pre = out@;
        let kb: Vec<u8> = vec![98, 97, 115, 101, 95, 97, 115, 115, 101, 116, 95, 95, 105, 110];
        proof {
            assert(kb@ =~= k_base_asset__in());
        }
        add_strs(&mut out, kb, &self.base_asset__in);
        proof {
            let seg = out@.subrange(pre.len() as int, out@.len() as int);
            assert(out@ =~= pre + seg);
            lemma_params_match_concat(pre, seg, ds, strs_descr(k_base_asset__in(), self.base_asset__in@));
            ds = ds + strs_descr(k_base_asset__in(), self.base_asset__in@);
            assert(params_match(out@, ds));
        }
        let ghost pre = out@;
        let kb: Vec<u8> = vec![113, 117, 111, 116, 101, 95, 97, 115, 115, 101, 116, 95, 95, 105, 110];
        proof {
            assert(kb@ =~= k_quote_asset__in());
        }
        add_strs(&mut out, kb, &self.quote_asset__in);
        proof {
            let seg = out@.subrange(pre.len() as int, out@.len() as int);
            assert(out@ =~= pre + seg);
            lemma_params_match_concat(pre, seg, ds, strs_descr(k_quote_asset__in(), self.quote_asset__in@));
            ds = ds + strs_descr(k_quote_asset__in(), self.quote_asset__in@);
            assert(params_match(out@, ds));
        }
        let ghost pre = out@;
        let kb: Vec<u8> = vec![109, 97, 114, 107, 101, 116, 95, 105, 100, 95, 95, 105, 110];
        proof {
            assert(kb@ =~= k_market_id__in());
        }
        add_strs(&mut out, kb, &self.market_id__in);
        proof {
            let seg = out@.subrange(pre.len() as int, out@.len() as int);
            assert(out@ =~= pre + seg);
            lemma_params_match_concat(pre, seg, ds, strs_descr(k_market_id__in(), self.market_id__in@));
            ds = ds + strs_descr(k_market_id__in(), self.market_id__in@);
            assert(params_match(out@, ds));
        }
        proof {
            assert(ds =~= self.descr());
        }
        out
    }
}

impl Default for GetSparkMarketRequest {
    /// The request over the default chain set and the default block
    /// range, with every filter unset.
    fn default() -> (r: Self)
        ensures
            r.chains@ == seq![ChainId::FUEL],
            r.from_block == Bound::Latest,
            r.to_block == Bound::Latest,
            r.event_type__in@ == Seq::<String>::empty(),
            r.base_asset__in@ == Seq::<String>::empty(),
            r.quote_asset__in@ == Seq::<String>::empty(),
            r.market_id__in@ == Seq::<String>::empty(),
    {
        GetSparkMarketRequest {
            chains: crate::chain::default_chains(),
            from_block: Bound::Latest,
            to_block: Bound::Latest,
            event_type__in: Vec::new(),
            base_asset__in: Vec::new(),
            quote_asset__in: Vec::new(),
            market_id__in: Vec::new(),
        }
    }
}

#[derive(Clone, Debug)]
pub struct GetSparkOrderRequest {
    pub chains: Vec<ChainId>,
    pub from_block: Bound,
    pub to_block: Bound,
    pub order_id__in: Vec<String>,
    pub order_type__in: Vec<String>,
    pub event_type__in: Vec<String>,
    pub limit_type__in: Vec<String>,
    pub user__in: Vec<String>,
    pub asset__in: Vec<String>,
    pub market_id__in: Vec<String>,
    pub address__in: Vec<String>,
}

impl GetSparkOrderRequest {
    /// The flat parameter mapping this request serializes to.
    pub open spec fn descr(&self) -> Seq<PSpec> {
        chains_descr(k_chains(), self.chains@) + bound_descr(k_from_block(), self.from_block) + bound_descr(k_to_block(), self.to_block) + strs_descr(k_order_id__in(), self.order_id__in@) + strs_descr(k_order_type__in(), self.order_type__in@) + strs_descr(k_event_type__in(), self.event_type__in@) + strs_descr(k_limit_type__in(), self.limit_type__in@) + strs_descr(k_user__in(), self.user__in@) + strs_descr(k_asset__in(), self.asset__in@) + strs_descr(k_market_id__in(), self.market_id__in@) + strs_descr(k_address__in(), self.address__in@)
    }

    /// Flattens the request into envelope parameters.
    #[verifier::rlimit(100)]
    pub fn params(&self) -> (r: Vec<Param>)
        ensures
            params_match(r@, self.descr()),
    {
        let mut out: Vec<Param> = Vec::new();
        let ghost mut ds: Seq<PSpec> = Seq::empty();
        let ghost pre = out@;
        let kb: Vec<u8> = vec![99, 104, 97, 105, 110, 115];
        proof {
            assert(kb@ =~= k_chains());
        }
        add_chains(&mut out, kb, &self.chains);
        proof {
            let seg = out@.subrange(pre.len() as int, out@.len() as int);
            assert(out@ =~= pre + seg);
            lemma_params_match_concat(pre, seg, ds, chains_descr(k_chains(), self.chains@));
            ds = ds + chains_descr(k_chains(), self.chains@);
            assert(params_match(out@, ds));
        }
        let ghost pre = out@;
        let kb: Vec<u8> = vec![102, 114, 111, 109, 95, 98, 108, 111, 99, 107];
        proof {
            assert(kb@ =~= k_from_block());
        }
        add_bound(&mut out, kb, &self.from_block);
        proof {
            let seg = out@.subrange(pre.len() as int, out@.len() as int);
            assert(out@ =~= pre + seg);
            lemma_params_match_concat(pre, seg, ds, bound_descr(k_from_block(), self.from_block));
            ds = ds + bound_descr(k_from_block(), self.from_block);
            assert(params_match(out@, ds));
        }
        let ghost pre = out@;
        let kb: Vec<u8> = vec![116, 111, 95, 98, 108, 111, 99, 107];
        proof {
            assert(kb@ =~= k_to_block());
        }
        add_bound(&mut out, kb, &self.to_block);
        proof {
            let seg = out@.subrange(pre.len() as int, out@.len() as int);
            assert(out@ =~= pre + seg);
            lemma_params_match_concat(pre, seg, ds, bound_descr(k_to_block(), self.to_block));
            ds = ds + bound_descr(k_to_block(), self.to_block);
            assert(params_match(out@, ds));
        }
        let ghost pre = out@;
        let kb: Vec<u8> = vec![111, 114, 100, 101, 114, 95, 105, 100, 95, 95, 105, 110];
        proof {
            assert(kb@ =~= k_order_id__in());
        }
        add_strs(&mut out, kb, &self.order_id__in);
        proof {
            let seg = out@.subrange(pre.len() as int, out@.len() as int);
            assert(out@ =~= pre + seg);
            lemma_params_match_concat(pre, seg, ds, strs_descr(k_order_id__in(), self.order_id__in@));
            ds = ds + strs_descr(k_order_id__in(), self.order_id__in@);
            assert(params_match(out@, ds));
        }
        let ghost pre = out@;
        let kb: Vec<u8> = vec![111, 114, 100, 101, 114, 95, 116, 121, 112, 101, 95, 95, 105, 110];
        proof {
            assert(kb@ =~= k_order_type__in());
        }
        add_strs(&mut out, kb, &self.order_type__in);
        proof {
            let seg = out@.subrange(pre.len() as int, out@.len() as int);
            assert(out@ =~= pre + seg);
            lemma_params_match_concat(pre, seg, ds, strs_descr(k_order_type__in(), self.order_type__in@));
            ds = ds + strs_descr(k_order_type__in(), self.order_type__in@);
            assert(params_match(out@, ds));
        }
        let ghost pre = out@;
        let kb: Vec<u8> = vec![101, 118, 101, 110, 116, 95, 116, 121, 112, 101, 95, 95, 105, 110];
        proof {
            assert(kb@ =~= k_event_type__in());
        }
        add_strs(&mut out, kb, &self.event_type__in);
        proof {
            let seg = out@.subrange(pre.len() as int, out@.len() as int);
            assert(out@ =~= pre + seg);
            lemma_params_match_concat(pre, seg, ds, strs_descr(k_event_type__in(), self.event_type__in@));
            ds = ds + strs_descr(k_event_type__in(), self.event_type__in@);
            assert(params_match(out@, ds));
        }
        let ghost pre = out@;
        let kb: Vec<u8> = vec![108, 105, 109, 105, 116, 95, 116, 121, 112, 101, 95, 95, 105, 110];
        proof {
            assert(kb@ =~= k_limit_type__in());
        }
        add_strs(&mut out, kb, &self.limit_type__in);
        proof {
            let seg = out@.subrange(pre.len() as int, out@.len() as int);
            assert(out@ =~= pre + seg);
            lemma_params_match_concat(pre, seg, ds, strs_descr(k_limit_type__in(), self.limit_type__in@));
            ds = ds + strs_descr(k_limit_type__in(), self.limit_type__in@);
            assert(params_match(out@, ds));
        }
        let ghost pre = out@;
        let kb: Vec<u8> = vec![117, 115, 101, 114, 95, 95, 105, 110];
        proof {
            assert(kb@ =~= k_user__in());
        }
        add_strs(&mut out, kb, &self.user__in);
        proof {
            let seg = out@.subrange(pre.len() as int, out@.len() as int);
            assert(out@ =~= pre + seg);
            lemma_params_match_concat(pre, seg, ds, strs_descr(k_user__in(), self.user__in@));
            ds = ds + strs_descr(k_user__in(), self.user__in@);
            assert(params_match(out@, ds));
        }
        let ghost pre = out@;
        let kb: Vec<u8> = vec![97, 115, 115, 101, 116, 95, 95, 105, 110];
        proof {
            assert(kb@ =~= k_asset__in());
        }
        add_strs(&mut out, kb, &self.asset__in);
        proof {
            let seg = out@.subrange(pre.len() as int, out@.len() as int);
            assert(out@ =~= pre + seg);
            lemma_params_match_concat(pre, seg, ds, strs_descr(k_asset__in(), self.asset__in@));
            ds = ds + strs_descr(k_asset__in(), self.asset__in@);
            assert(params_match(out@, ds));
        }
        let ghost pre = out@;
        let kb: Vec<u8> = vec![109, 97, 114, 107, 101, 116, 95, 105, 100, 95, 95, 105, 110];
        proof {
            assert(kb@ =~= k_market_id__in());
        }
        add_strs(&mut out, kb, &self.market_id__in);
        proof {
            let seg = out@.subrange(pre.len() as int, out@.len() as int);
            assert(out@ =~= pre + seg);
            lemma_params_match_concat(pre, seg, ds, strs_descr(k_market_id__in(), self.market_id__in@));
            ds = ds + strs_descr(k_market_id__in(), self.market_id__in@);
            assert(params_match(out@, ds));
        }
        let ghost pre = out@;
        let kb: Vec<u8> = vec![97, 100, 100, 114, 101, 115, 115, 95, 95, 105, 110];
        proof {
            assert(kb@ =~= k_address__in());
        }
        add_strs(&mut out, kb, &self.address__in);
        proof {
            let seg = out@.subrange(pre.len() as int, out@.len() as int);
            assert(out@ =~= pre + seg);
            lemma_params_match_concat(pre, seg, ds, strs_descr(k_address__in(), self.address__in@));
            ds = ds + strs_descr(k_address__in(), self.address__in@);
            assert(params_match(out@, ds));
        }
        proof {
            assert(ds =~= self.descr());
        }
        out
    }
}

impl Default for GetSparkOrderRequest {
    /// The request over the default chain set and the default block
    /// range, with every filter unset.
    fn default() -> (r: Self)
        ensures
            r.chains@ == seq![ChainId::FUEL],
            r.from_block == Bound::Latest,
            r.to_block == Bound::Latest,
            r.order_id__in@ == Seq::<String>::empty(),
            r.order_type__in@ == Seq::<String>::empty(),
            r.event_type__in@ == Seq::<String>::empty(),
            r.limit_type__in@ == Seq::<String>::empty(),
            r.user__in@ == Seq::<String>::empty(),
            r.asset__in@ == Seq::<String>::empty(),
            r.market_id__in@ == Seq::<String>::empty(),
            r.address__in@ == Seq::<String>::empty(),
    {
        GetSparkOrderRequest {
            chains: crate::chain::default_chains(),
            from_block: Bound::Latest,
            to_block: Bound::Latest,
            order_id__in: Vec::new(),
            order_type__in: Vec::new(),
            event_type__in: Vec::new(),
            limit_type__in: Vec::new(),
            user__in: Vec::new(),
            asset__in: Vec::new(),
            market_id__in: Vec::new(),
            address__in: Vec::new(),
        }
    }
}

#[derive(Clone, Debug)]
pub struct GetUtxoRequest {
    pub chains: Vec<ChainId>,
    pub from_block: Bound,
    pub to_block: Bound,
    pub unspent_at: Bound,
    pub address__in: Vec<String>,
}

impl GetUtxoRequest {
    /// The flat parameter mapping this request serializes to.
    pub open spec fn descr(&self) -> Seq<PSpec> {
        chains_descr(k_chains(), self.chains@) + bound_descr(k_from_block(), self.from_block) + bound_descr(k_to_block(), self.to_block) + bound_descr(k_unspent_at(), self.unspent_at) + strs_descr(k_address__in(), self.address__in@)
    }

    /// Flattens the request into envelope parameters.
    #[verifier::rlimit(100)]
    pub fn params(&self) -> (r: Vec<Param>)
        ensures
            params_match(r@, self.descr()),
    {
        let mut out: Vec<Param> = Vec::new();
        let ghost mut ds: Seq<PSpec> = Seq::empty();
        let ghost pre = out@;
        let kb: Vec<u8> = vec![99, 104, 97, 105, 110, 115];
        proof {
            assert(kb@ =~= k_chains());
        }
        add_chains(&mut out, kb, &self.chains);
        proof {
            let seg = out@.subrange(pre.len() as int, out@.len() as int);
            assert(out@ =~= pre + seg);
            lemma_params_match_concat(pre, seg, ds, chains_descr(k_chains(), self.chains@));
            ds = ds + chains_descr(k_chains(), self.chains@);
            assert(params_match(out@, ds));
        }
        let ghost pre = out@;
        let kb: Vec<u8> = vec![102, 114, 111, 109, 95, 98, 108, 111, 99, 107];
        proof {
            assert(kb@ =~= k_from_block());
        }
        add_bound(&mut out, kb, &self.from_block);
        proof {
            let seg = out@.subrange(pre.len() as int, out@.len() as int);
            assert(out@ =~= pre + seg);
            lemma_params_match_concat(pre, seg, ds, bound_descr(k_from_block(), self.from_block));
            ds = ds + bound_descr(k_from_block(), self.from_block);
            assert(params_match(out@, ds));
        }
        let ghost pre = out@;
        let kb: Vec<u8> = vec![116, 111, 95, 98, 108, 111, 99, 107];
        proof {
            assert(kb@ =~= k_to_block());
        }
        add_bound(&mut out, kb, &self.to_block);
        proof {
            let seg = out@.subrange(pre.len() as int, out@.len() as int);
            assert(out@ =~= pre + seg);
            lemma_params_match_concat(pre, seg, ds, bound_descr(k_to_block(), self.to_block));
            ds = ds + bound_descr(k_to_block(), self.to_block);
            assert(params_match(out@, ds));
        }
        let ghost pre = out@;
        let kb: Vec<u8> = vec![117, 110, 115, 112, 101, 110, 116, 95, 97, 116];
        proof {
            assert(kb@ =~= k_unspent_at());
        }
        add_bound(&mut out, kb, &self.unspent_at);
        proof {
            let seg = out@.subrange(pre.len() as int, out@.len() as int);
            assert(out@ =~= pre + seg);
            lemma_params_match_concat(pre, seg, ds, bound_descr(k_unspent_at(), self.unspent_at));
            ds = ds + bound_descr(k_unspent_at(), self.unspent_at);
            assert(params_match(out@, ds));
        }
        let ghost pre = out@;
        let kb: Vec<u8> = vec![97, 100, 100, 114, 101, 115, 115, 95, 95, 105, 110];
        proof {
            assert(kb@ =~= k_address__in());
        }
        add_strs(&mut out, kb, &self.address__in);
        proof {
            let seg = out@.subrange(pre.len() as int, out@.len() as int);
            assert(out@ =~= pre + seg);
            lemma_params_match_concat(pre, seg, ds, strs_descr(k_address__in(), self.address__in@));
            ds = ds + strs_descr(k_address__in(), self.address__in@);
            assert(params_match(out@, ds));
        }
        proof {
            assert(ds =~= self.descr());
        }
        out
    }
}

impl Default for GetUtxoRequest {
    /// The request over the default chain set and the default block
    /// range, with every filter unset.
    fn default() -> (r: Self)
        ensures
            r.chains@ == seq![ChainId::FUEL],
            r.from_block == Bound::Latest,
            r.to_block == Bound::Latest,
            r.unspent_at == Bound::Latest,
            r.address__in@ == Seq::<String>::empty(),
    {
        GetUtxoRequest {
            chains: crate::chain::default_chains(),
            from_block: Bound::Latest,
            to_block: Bound::Latest,
            unspent_at: Bound::Latest,
            address__in: Vec::new(),
        }
    }
}

#[derive(Clone, Debug)]
pub struct GetSrc20 {
    pub chains: Vec<ChainId>,
    pub from_block: Bound,
    pub to_block: Bound,
    pub contract_id__in: Vec<String>,
    pub asset_id__in: Vec<String>,
    pub symbol__in: Vec<String>,
    pub name__in: Vec<String>,
    pub decimals__gte: Option<u8>,
    pub decimals__lte: Option<u8>,
}

impl GetSrc20 {
    /// The flat parameter mapping this request serializes to.
    pub open spec fn descr(&self) -> Seq<PSpec> {
        chains_descr(k_chains(), self.chains@) + bound_descr(k_from_block(), self.from_block) + bound_descr(k_to_block(), self.to_block) + strs_descr(k_contract_id__in(), self.contract_id__in@) + strs_descr(k_asset_id__in(), self.asset_id__in@) + strs_descr(k_symbol__in(), self.symbol__in@) + strs_descr(k_name__in(), self.name__in@) + opt8_descr(k_decimals__gte(), self.decimals__gte) + opt8_descr(k_decimals__lte(), self.decimals__lte)
    }

    /// Flattens the request into envelope parameters.
    #[verifier::rlimit(100)]
    pub fn params(&self) -> (r: Vec<Param>)
        ensures
            params_match(r@, self.descr()),
    {
        let mut out: Vec<Param> = Vec::new();
        let ghost mut ds: Seq<PSpec> = Seq::empty();
        let ghost pre = out@;
        let kb: Vec<u8> = vec![99, 104, 97, 105, 110, 115];
        proof {
            assert(kb@ =~= k_chains());
        }
        add_chains(&mut out, kb, &self.chains);
        proof {
            let seg = out@.subrange(pre.len() as int, out@.len() as int);
            assert(out@ =~= pre + seg);
            lemma_params_match_concat(pre, seg, ds, chains_descr(k_chains(), self.chains@));
            ds = ds + chains_descr(k_chains(), self.chains@);
            assert(params_match(out@, ds));
        }
        let ghost pre = out@;
        let kb: Vec<u8> = vec![102, 114, 111, 109, 95, 98, 108, 111, 99, 107];
        proof {
            assert(kb@ =~= k_from_block());
        }
        add_bound(&mut out, kb, &self.from_block);
        proof {
            let seg = out@.subrange(pre.len() as int, out@.len() as int);
            assert(out@ =~= pre + seg);
            lemma_params_match_concat(pre, seg, ds, bound_descr(k_from_block(), self.from_block));
            ds = ds + bound_descr(k_from_block(), self.from_block);
            assert(params_match(out@, ds));
        }
        let ghost pre = out@;
        let kb: Vec<u8> = vec![116, 111, 95, 98, 108, 111, 99, 107];
        proof {
            assert(kb@ =~= k_to_block());
        }
        add_bound(&mut out, kb, &self.to_block);
        proof {
            let seg = out@.subrange(pre.len() as int, out@.len() as int);
            assert(out@ =~= pre + seg);
            lemma_params_match_concat(pre, seg, ds, bound_descr(k_to_block(), self.to_block));
            ds = ds + bound_descr(k_to_block(), self.to_block);
            assert(params_match(out@, ds));
        }
        let ghost pre = out@;
        let kb: Vec<u8> = vec![99, 111, 110, 116, 114, 97, 99, 116, 95, 105, 100, 95, 95, 105, 110];
        proof {
            assert(kb@ =~= k_contract_id__in());
        }
        add_strs(&mut out, kb, &self.contract_id__in);
        proof {
            let seg = out@.subrange(pre.len() as int, out@.len() as int);
            assert(out@ =~= pre + seg);
            lemma_params_match_concat(pre, seg, ds, strs_descr(k_contract_id__in(), self.contract_id__in@));
            ds = ds + strs_descr(k_contract_id__in(), self.contract_id__in@);
            assert(params_match(out@, ds));
        }
        let ghost pre = out@;
        let kb: Vec<u8> = vec![97, 115, 115, 101, 116, 95, 105, 100, 95, 95, 105, 110];
        proof {
            assert(kb@ =~= k_asset_id__in());
        }
        add_strs(&mut out, kb, &self.asset_id__in);
        proof {
            let seg = out@.subrange(pre.len() as int, out@.len() as int);
            assert(out@ =~= pre + seg);
            lemma_params_match_concat(pre, seg, ds, strs_descr(k_asset_id__in(), self.asset_id__in@));
            ds = ds + strs_descr(k_asset_id__in(), self.asset_id__in@);
            assert(params_match(out@, ds));
        }
        let ghost pre = out@;
        let kb: Vec<u8> = vec![115, 121, 109, 98, 111, 108, 95, 95, 105, 110];
        proof {
            assert(kb@ =~= k_symbol__in());
        }
        add_strs(&mut out, kb, &self.symbol__in);
        proof {
            let seg = out@.subrange(pre.len() as int, out@.len() as int);
            assert(out@ =~= pre + seg);
            lemma_params_match_concat(pre, seg, ds, strs_descr(k_symbol__in(), self.symbol__in@));
            ds = ds + strs_descr(k_symbol__in(), self.symbol__in@);
            assert(params_match(out@, ds));
        }
        let ghost pre = out@;
        let kb: Vec<u8> = vec![110, 97, 109, 101, 95, 95, 105, 110];
        proof {
            assert(kb@ =~= k_name__in());
        }
        add_strs(&mut out, kb, &self.name__in);
        proof {
            let seg = out@.subrange(pre.len() as int, out@.len() as int);
            assert(out@ =~= pre + seg);
            lemma_params_match_concat(pre, seg, ds, strs_descr(k_name__in(), self.name__in@));
            ds = ds + strs_descr(k_name__in(), self.name__in@);
            assert(params_match(out@, ds));
        }
        let ghost pre = out@;
        let kb: Vec<u8> = vec![100, 101, 99, 105, 109, 97, 108, 115, 95, 95, 103, 116, 101];
        proof {
            assert(kb@ =~= k_decimals__gte());
        }
        add_opt8(&mut out, kb, &self.decimals__gte);
        proof {
            let seg = out@.subrange(pre.len() as int, out@.len() as int);
            assert(out@ =~= pre + seg);
            lemma_params_match_concat(pre, seg, ds, opt8_descr(k_decimals__gte(), self.decimals__gte));
            ds = ds + opt8_descr(k_decimals__gte(), self.decimals__gte);
            assert(params_match(out@, ds));
        }
        let ghost pre = out@;
        let kb: Vec<u8> = vec![100, 101, 99, 105, 109, 97, 108, 115, 95, 95, 108, 116, 101];
        proof {
            assert(kb@ =~= k_decimals__lte());
        }
        add_opt8(&mut out, kb, &self.decimals__lte);
        proof {
            let seg = out@.subrange(pre.len() as int, out@.len() as int);
            assert(out@ =~= pre + seg);
            lemma_params_match_concat(pre, seg, ds, opt8_descr(k_decimals__lte(), self.decimals__lte));
            ds = ds + opt8_descr(k_decimals__lte(), self.decimals__lte);
            assert(params_match(out@, ds));
        }
        proof {
            assert(ds =~= self.descr());
        }
        out
    }
}

impl Default for GetSrc20 {
    /// The request over the default chain set and the default block
    /// range, with every filter unset.
    fn default() -> (r: Self)
        ensures
            r.chains@ == seq![ChainId::FUEL],
            r.from_block == Bound::Exact(0),
            r.to_block == Bound::Latest,
            r.contract_id__in@ == Seq::<String>::empty(),
            r.asset_id__in@ == Seq::<String>::empty(),
            r.symbol__in@ == Seq::<String>::empty(),
            r.name__in@ == Seq::<String>::empty(),
            r.decimals__gte is None,
            r.decimals__lte is None,
    {
        GetSrc20 {
            chains: crate::chain::default_chains(),
            from_block: default_src20_from_block(),
            to_block: Bound::Latest,
            contract_id__in: Vec::new(),
            asset_id__in: Vec::new(),
            symbol__in: Vec::new(),
            name__in: Vec::new(),
            decimals__gte: None,
            decimals__lte: None,
        }
    }
}

#[derive(Clone, Debug)]
pub struct GetSrc7 {
    pub chains: Vec<ChainId>,
    pub from_block: Bound,
    pub to_block: Bound,
    pub asset__in: Vec<String>,
    pub key__in: Vec<String>,
    pub sender__in: Vec<String>,
}

impl GetSrc7 {
    /// The flat parameter mapping this request serializes to.
    pub open spec fn descr(&self) -> Seq<PSpec> {
        chains_descr(k_chains(), self.chains@) + bound_descr(k_from_block(), self.from_block) + bound_descr(k_to_block(), self.to_block) + strs_descr(k_asset__in(), self.asset__in@) + strs_descr(k_key__in(), self.key__in@) + strs_descr(k_sender__in(), self.sender__in@)
    }

    /// Flattens the request into envelope parameters.
    #[verifier::rlimit(100)]
    pub fn params(&self) -> (r: Vec<Param>)
        ensures
            params_match(r@, self.descr()),
    {
        let mut out: Vec<Param> = Vec::new();
        let ghost mut ds: Seq<PSpec> = Seq::empty();
        let ghost pre = out@;
        let kb: Vec<u8> = vec![99, 104, 97, 105, 110, 115];
        proof {
            assert(kb@ =~= k_chains());
        }
        add_chains(&mut out, kb, &self.chains);
        proof {
            let seg = out@.subrange(pre.len() as int, out@.len() as int);
            assert(out@ =~= pre + seg);
            lemma_params_match_concat(pre, seg, ds, chains_descr(k_chains(), self.chains@));
            ds = ds + chains_descr(k_chains(), self.chains@);
            assert(params_match(out@, ds));
        }
        let ghost pre = out@;
        let kb: Vec<u8> = vec![102, 114, 111, 109, 95, 98, 108, 111, 99, 107];
        proof {
            assert(kb@ =~= k_from_block());
        }
        add_bound(&mut out, kb, &self.from_block);
        proof {
            let seg = out@.subrange(pre.len() as int, out@.len() as int);
            assert(out@ =~= pre + seg);
            lemma_params_match_concat(pre, seg, ds, bound_descr(k_from_block(), self.from_block));
            ds = ds + bound_descr(k_from_block(), self.from_block);
            assert(params_match(out@, ds));
        }
        let ghost pre = out@;
        let kb: Vec<u8> = vec![116, 111, 95, 98, 108, 111, 99, 107];
        proof {
            assert(kb@ =~= k_to_block());
        }
        add_bound(&mut out, kb, &self.to_block);
        proof {
            let seg = out@.subrange(pre.len() as int, out@.len() as int);
            assert(out@ =~= pre + seg);
            lemma_params_match_concat(pre, seg, ds, bound_descr(k_to_block(), self.to_block));
            ds = ds + bound_descr(k_to_block(), self.to_block);
            assert(params_match(out@, ds));
        }
        let ghost pre = out@;
        let kb: Vec<u8> = vec![97, 115, 115, 101, 116, 95, 95, 105, 110];
        proof {
            assert(kb@ =~= k_asset__in());
        }
        add_strs(&mut out, kb, &self.asset__in);
        proof {
            let seg = out@.subrange(pre.len() as int, out@.len() as int);
            assert(out@ =~= pre + seg);
            lemma_params_match_concat(pre, seg, ds, strs_descr(k_asset__in(), self.asset__in@));
            ds = ds + strs_descr(k_asset__in(), self.asset__in@);
            assert(params_match(out@, ds));
        }
        let ghost pre = out@;
        let kb: Vec<u8> = vec![107, 101, 121, 95, 95, 105, 110];
        proof {
            assert(kb@ =~= k_key__in());
        }
        add_strs(&mut out, kb, &self.key__in);
        proof {
            let seg = out@.subrange(pre.len() as int, out@.len() as int);
            assert(out@ =~= pre + seg);
            lemma_params_match_concat(pre, seg, ds, strs_descr(k_key__in(), self.key__in@));
            ds = ds + strs_descr(k_key__in(), self.key__in@);
            assert(params_match(out@, ds));
        }
        let ghost pre = out@;
        let kb: Vec<u8> = vec![115, 101, 110, 100, 101, 114, 95, 95, 105, 110];
        proof {
            assert(kb@ =~= k_sender__in());
        }
        add_strs(&mut out, kb, &self.sender__in);
        proof {
            let seg = out@.subrange(pre.len() as int, out@.len() as int);
            assert(out@ =~= pre + seg);
            lemma_params_match_concat(pre, seg, ds, strs_descr(k_sender__in(), self.sender__in@));
            ds = ds + strs_descr(k_sender__in(), self.sender__in@);
            assert(params_match(out@, ds));
        }
        proof {
            assert(ds =~= self.descr());
        }
        out
    }
}

impl Default for GetSrc7 {
    /// The request over the default chain set and the default block
    /// range, with every filter unset.
    fn default() -> (r: Self)
        ensures
            r.chains@ == seq![ChainId::FUEL],
            r.from_block == Bound::Exact(0),
            r.to_block == Bound::Latest,
            r.asset__in@ == Seq::<String>::empty(),
            r.key__in@ == Seq::<String>::empty(),
            r.sender__in@ == Seq::<String>::empty(),
    {
        GetSrc7 {
            chains: crate::chain::default_chains(),
            from_block: default_src20_from_block(),
            to_block: Bound::Latest,
            asset__in: Vec::new(),
            key__in: Vec::new(),
            sender__in: Vec::new(),
        }
    }
}

#[derive(Clone, Debug)]
pub struct GetMiraPoolsRequest {
    pub chains: Vec<ChainId>,
    pub from_block: Bound,
    pub to_block: Bound,
    pub pool_address__in: Vec<String>,
    pub asset0_address__in: Vec<String>,
    pub asset1_address__in: Vec<String>,
    pub assets__in: Vec<String>,
}

impl GetMiraPoolsRequest {
    /// The flat parameter mapping this request serializes to.
    pub open spec fn descr(&self) -> Seq<PSpec> {
        chains_descr(k_chains(), self.chains@) + bound_descr(k_from_block(), self.from_block) + bound_descr(k_to_block(), self.to_block) + strs_descr(k_pool_address__in(), self.pool_address__in@) + strs_descr(k_asset0_address__in(), self.asset0_address__in@) + strs_descr(k_asset1_address__in(), self.asset1_address__in@) + strs_descr(k_assets__in(), self.assets__in@)
    }

    /// Flattens the request into envelope parameters.
    #[verifier::rlimit(100)]
    pub fn params(&self) -> (r: Vec<Param>)
        ensures
            params_match(r@, self.descr()),
    {
        let mut out: Vec<Param> = Vec::new();
        let ghost mut ds: Seq<PSpec> = Seq::empty();
        let ghost pre = out@;
        let kb: Vec<u8> = vec![99, 104, 97, 105, 110, 115];
        proof {
            assert(kb@ =~= k_chains());
        }
        add_chains(&mut out, kb, &self.chains);
        proof {
            let seg = out@.subrange(pre.len() as int, out@.len() as int);
            assert(out@ =~= pre + seg);
            lemma_params_match_concat(pre, seg, ds, chains_descr(k_chains(), self.chains@));
            ds = ds + chains_descr(k_chains(), self.chains@);
            assert(params_match(out@, ds));
        }
        let ghost pre = out@;
        let kb: Vec<u8> = vec![102, 114, 111, 109, 95, 98, 108, 111, 99, 107];
        proof {
            assert(kb@ =~= k_from_block());
        }
        add_bound(&mut out, kb, &self.from_block);
        proof {
            let seg = out@.subrange(pre.len() as int, out@.len() as int);
            assert(out@ =~= pre + seg);
            lemma_params_match_concat(pre, seg, ds, bound_descr(k_from_block(), self.from_block));
            ds = ds + bound_descr(k_from_block(), self.from_block);
            assert(params_match(out@, ds));
        }
        let ghost pre = out@;
        let kb: Vec<u8> = vec![116, 111, 95, 98, 108, 111, 99, 107];
        proof {
            assert(kb@ =~= k_to_block());
        }
        add_bound(&mut out, kb, &self.to_block);
        proof {
            let seg = out@.subrange(pre.len() as int, out@.len() as int);
            assert(out@ =~= pre + seg);
            lemma_params_match_concat(pre, seg, ds, bound_descr(k_to_block(), self.to_block));
            ds = ds + bound_descr(k_to_block(), self.to_block);
            assert(params_match(out@, ds));
        }
        let ghost pre = out@;
        let kb: Vec<u8> = vec![112, 111, 111, 108, 95, 97, 100, 100, 114, 101, 115, 115, 95, 95, 105, 110];
        proof {
            assert(kb@ =~= k_pool_address__in());
        }
        add_strs(&mut out, kb, &self.pool_address__in);
        proof {
            let seg = out@.subrange(pre.len() as int, out@.len() as int);
            assert(out@ =~= pre + seg);
            lemma_params_match_concat(pre, seg, ds, strs_descr(k_pool_address__in(), self.pool_address__in@));
            ds = ds + strs_descr(k_pool_address__in(), self.pool_address__in@);
            assert(params_match(out@, ds));
        }
        let ghost pre = out@;
        let kb: Vec<u8> = vec![97, 115, 115, 101, 116, 48, 95, 97, 100, 100, 114, 101, 115, 115, 95, 95, 105, 110];
        proof {
            assert(kb@ =~= k_asset0_address__in());
        }
        add_strs(&mut out, kb, &self.asset0_address__in);
        proof {
            let seg = out@.subrange(pre.len() as int, out@.len() as int);
            assert(out@ =~= pre + seg);
            lemma_params_match_concat(pre, seg, ds, strs_descr(k_asset0_address__in(), self.asset0_address__in@));
            ds = ds + strs_descr(k_asset0_address__in(), self.asset0_address__in@);
            assert(params_match(out@, ds));
        }
        let ghost pre = out@;
        let kb: Vec<u8> = vec![97, 115, 115, 101, 116, 49, 95, 97, 100, 100, 114, 101, 115, 115, 95, 95, 105, 110];
        proof {
            assert(kb@ =~= k_asset1_address__in());
        }
        add_strs(&mut out, kb, &self.asset1_address__in);
        proof {
            let seg = out@.subrange(pre.len() as int, out@.len() as int);
            assert(out@ =~= pre + seg);
            lemma_params_match_concat(pre, seg, ds, strs_descr(k_asset1_address__in(), self.asset1_address__in@));
            ds = ds + strs_descr(k_asset1_address__in(), self.asset1_address__in@);
            assert(params_match(out@, ds));
        }
        let ghost pre = out@;
        let kb: Vec<u8> = vec![97, 115, 115, 101, 116, 115, 95, 95, 105, 110];
        proof {
            assert(kb@ =~= k_assets__in());
        }
        add_strs(&mut out, kb, &self.assets__in);
        proof {
            let seg = out@.subrange(pre.len() as int, out@.len() as int);
            assert(out@ =~= pre + seg);
            lemma_params_match_concat(pre, seg, ds, strs_descr(k_assets__in(), self.assets__in@));
            ds = ds + strs_descr(k_assets__in(), self.assets__in@);
            assert(params_match(out@, ds));
        }
        proof {
            assert(ds =~= self.descr());
        }
        out
    }
}

#[derive(Clone, Debug)]
pub struct GetMiraLiquidityRequest {
    pub chains: Vec<ChainId>,
    pub from_block: Bound,
    pub to_block: Bound,
    pub pool_address__in: Vec<String>,
    pub asset0_address__in: Vec<String>,
    pub asset1_address__in: Vec<String>,
    pub assets__in: Vec<String>,
}

impl GetMiraLiquidityRequest {
    /// The flat parameter mapping this request serializes to.
    pub open spec fn descr(&self) -> Seq<PSpec> {
        chains_descr(k_chains(), self.chains@) + bound_descr(k_from_block(), self.from_block) + bound_descr(k_to_block(), self.to_block) + strs_descr(k_pool_address__in(), self.pool_address__in@) + strs_descr(k_asset0_address__in(), self.asset0_address__in@) + strs_descr(k_asset1_address__in(), self.asset1_address__in@) + strs_descr(k_assets__in(), self.assets__in@)
    }

    /// Flattens the request into envelope parameters.
    #[verifier::rlimit(100)]
    pub fn params(&self) -> (r: Vec<Param>)
        ensures
            params_match(r@, self.descr()),
    {
        let mut out: Vec<Param> = Vec::new();
        let ghost mut ds: Seq<PSpec> = Seq::empty();
        let ghost pre = out@;
        let kb: Vec<u8> = vec![99, 104, 97, 105, 110, 115];
        proof {
            assert(kb@ =~= k_chains());
        }
        add_chains(&mut out, kb, &self.chains);
        proof {
            let seg = out@.subrange(pre.len() as int, out@.len() as int);
            assert(out@ =~= pre + seg);
            lemma_params_match_concat(pre, seg, ds, chains_descr(k_chains(), self.chains@));
            ds = ds + chains_descr(k_chains(), self.chains@);
            assert(params_match(out@, ds));
        }
        let ghost pre = out@;
        let kb: Vec<u8> = vec![102, 114, 111, 109, 95, 98, 108, 111, 99, 107];
        proof {
            assert(kb@ =~= k_from_block());
        }
        add_bound(&mut out, kb, &self.from_block);
        proof {
            let seg = out@.subrange(pre.len() as int, out@.len() as int);
            assert(out@ =~= pre + seg);
            lemma_params_match_concat(pre, seg, ds, bound_descr(k_from_block(), self.from_block));
            ds = ds + bound_descr(k_from_block(), self.from_block);
            assert(params_match(out@, ds));
        }
        let ghost pre = out@;
        let kb: Vec<u8> = vec![116, 111, 95, 98, 108, 111, 99, 107];
        proof {
            assert(kb@ =~= k_to_block());
        }
        add_bound(&mut out, kb, &self.to_block);
        proof {
            let seg = out@.subrange(pre.len() as int, out@.len() as int);
            assert(out@ =~= pre + seg);
            lemma_params_match_concat(pre, seg, ds, bound_descr(k_to_block(), self.to_block));
            ds = ds + bound_descr(k_to_block(), self.to_block);
            assert(params_match(out@, ds));
        }
        let ghost pre = out@;
        let kb: Vec<u8> = vec![112, 111, 111, 108, 95, 97, 100, 100, 114, 101, 115, 115, 95, 95, 105, 110];
        proof {
            assert(kb@ =~= k_pool_address__in());
        }
        add_strs(&mut out, kb, &self.pool_address__in);
        proof {
            let seg = out@.subrange(pre.len() as int, out@.len() as int);
            assert(out@ =~= pre + seg);
            lemma_params_match_concat(pre, seg, ds, strs_descr(k_pool_address__in(), self.pool_address__in@));
            ds = ds + strs_descr(k_pool_address__in(), self.pool_address__in@);
            assert(params_match(out@, ds));
        }
        let ghost pre = out@;
        let kb: Vec<u8> = vec![97, 115, 115, 101, 116, 48, 95, 97, 100, 100, 114, 101, 115, 115, 95, 95, 105, 110];
        proof {
            assert(kb@ =~= k_asset0_address__in());
        }
        add_strs(&mut out, kb, &self.asset0_address__in);
        proof {
            let seg = out@.subrange(pre.len() as int, out@.len() as int);
            assert(out@ =~= pre + seg);
            lemma_params_match_concat(pre, seg, ds, strs_descr(k_asset0_address__in(), self.asset0_address__in@));
            ds = ds + strs_descr(k_asset0_address__in(), self.asset0_address__in@);
            assert(params_match(out@, ds));
        }
        let ghost pre = out@;
        let kb: Vec<u8> = vec![97, 115, 115, 101, 116, 49, 95, 97, 100, 100, 114, 101, 115, 115, 95, 95, 105, 110];
        proof {
            assert(kb@ =~= k_asset1_address__in());
        }
        add_strs(&mut out, kb, &self.asset1_address__in);
        proof {
            let seg = out@.subrange(pre.len() as int, out@.len() as int);
            assert(out@ =~= pre + seg);
            lemma_params_match_concat(pre, seg, ds, strs_descr(k_asset1_address__in(), self.asset1_address__in@));
            ds = ds + strs_descr(k_asset1_address__in(), self.asset1_address__in@);
            assert(params_match(out@, ds));
        }
        let ghost pre = out@;
        let kb: Vec<u8> = vec![97, 115, 115, 101, 116, 115, 95, 95, 105, 110];
        proof {
            assert(kb@ =~= k_assets__in());
        }
        add_strs(&mut out, kb, &self.assets__in);
        proof {
            let seg = out@.subrange(pre.len() as int, out@.len() as int);
            assert(out@ =~= pre + seg);
            lemma_params_match_concat(pre, seg, ds, strs_descr(k_assets__in(), self.assets__in@));
            ds = ds + strs_descr(k_assets__in(), self.assets__in@);
            assert(params_match(out@, ds));
        }
        proof {
            assert(ds =~= self.descr());
        }
        out
    }
}

#[derive(Clone, Debug)]
pub struct GetMiraSwapsRequest {
    pub chains: Vec<ChainId>,
    pub from_block: Bound,
    pub to_block: Bound,
    pub pool_address__in: Vec<String>,
    pub asset0_address__in: Vec<String>,
    pub asset1_address__in: Vec<String>,
    pub assets__in: Vec<String>,
}

impl GetMiraSwapsRequest {
    /// The flat parameter mapping this request serializes to.
    pub open spec fn descr(&self) -> Seq<PSpec> {
        chains_descr(k_chains(), self.chains@) + bound_descr(k_from_block(), self.from_block) + bound_descr(k_to_block(), self.to_block) + strs_descr(k_pool_address__in(), self.pool_address__in@) + strs_descr(k_asset0_address__in(), self.asset0_address__in@) + strs_descr(k_asset1_address__in(), self.asset1_address__in@) + strs_descr(k_assets__in(), self.assets__in@)
    }

    /// Flattens the request into envelope parameters.
    #[verifier::rlimit(100)]
    pub fn params(&self) -> (r: Vec<Param>)
        ensures
            params_match(r@, self.descr()),
    {
        let mut out: Vec<Param> = Vec::new();
        let ghost mut ds: Seq<PSpec> = Seq::empty();
        let ghost pre = out@;
        let kb: Vec<u8> = vec![99, 104, 97, 105, 110, 115];
        proof {
            assert(kb@ =~= k_chains());
        }
        add_chains(&mut out, kb, &self.chains);
        proof {
            let seg = out@.subrange(pre.len() as int, out@.len() as int);
            assert(out@ =~= pre + seg);
            lemma_params_match_concat(pre, seg, ds, chains_descr(k_chains(), self.chains@));
            ds = ds + chains_descr(k_chains(), self.chains@);
            assert(params_match(out@, ds));
        }
        let ghost pre = out@;
        let kb: Vec<u8> = vec![102, 114, 111, 109, 95, 98, 108, 111, 99, 107];
        proof {
            assert(kb@ =~= k_from_block());
        }
        add_bound(&mut out, kb, &self.from_block);
        proof {
            let seg = out@.subrange(pre.len() as int, out@.len() as int);
            assert(out@ =~= pre + seg);
            lemma_params_match_concat(pre, seg, ds, bound_descr(k_from_block(), self.from_block));
            ds = ds + bound_descr(k_from_block(), self.from_block);
            assert(params_match(out@, ds));
        }
        let ghost pre = out@;
        let kb: Vec<u8> = vec![116, 111, 95, 98, 108, 111, 99, 107];
        proof {
            assert(kb@ =~= k_to_block());
        }
        add_bound(&mut out, kb, &self.to_block);
        proof {
            let seg = out@.subrange(pre.len() as int, out@.len() as int);
            assert(out@ =~= pre + seg);
            lemma_params_match_concat(pre, seg, ds, bound_descr(k_to_block(), self.to_block));
            ds = ds + bound_descr(k_to_block(), self.to_block);
            assert(params_match(out@, ds));
        }
        let ghost pre = out@;
        let kb: Vec<u8> = vec![112, 111, 111, 108, 95, 97, 100, 100, 114, 101, 115, 115, 95, 95, 105, 110];
        proof {
            assert(kb@ =~= k_pool_address__in());
        }
        add_strs(&mut out, kb, &self.pool_address__in);
        proof {
            let seg = out@.subrange(pre.len() as int, out@.len() as int);
            assert(out@ =~= pre + seg);
            lemma_params_match_concat(pre, seg, ds, strs_descr(k_pool_address__in(), self.pool_address__in@));
            ds = ds + strs_descr(k_pool_address__in(), self.pool_address__in@);
            assert(params_match(out@, ds));
        }
        let ghost pre = out@;
        let kb: Vec<u8> = vec![97, 115, 115, 101, 116, 48, 95, 97, 100, 100, 114, 101, 115, 115, 95, 95, 105, 110];
        proof {
            assert(kb@ =~= k_asset0_address__in());
        }
        add_strs(&mut out, kb, &self.asset0_address__in);
        proof {
            let seg = out@.subrange(pre.len() as int, out@.len() as int);
            assert(out@ =~= pre + seg);
            lemma_params_match_concat(pre, seg, ds, strs_descr(k_asset0_address__in(), self.asset0_address__in@));
            ds = ds + strs_descr(k_asset0_address__in(), self.asset0_address__in@);
            assert(params_match(out@, ds));
        }
        let ghost pre = out@;
        let kb: Vec<u8> = vec![97, 115, 115, 101, 116, 49, 95, 97, 100, 100, 114, 101, 115, 115, 95, 95, 105, 110];
        proof {
            assert(kb@ =~= k_asset1_address__in());
        }
        add_strs(&mut out, kb, &self.asset1_address__in);
        proof {
            let seg = out@.subrange(pre.len() as int, out@.len() as int);
            assert(out@ =~= pre + seg);
            lemma_params_match_concat(pre, seg, ds, strs_descr(k_asset1_address__in(), self.asset1_address__in@));
            ds = ds + strs_descr(k_asset1_address__in(), self.asset1_address__in@);
            assert(params_match(out@, ds));
        }
        let ghost pre = out@;
        let kb: Vec<u8> = vec![97, 115, 115, 101, 116, 115, 95, 95, 105, 110];
        proof {
            assert(kb@ =~= k_assets__in());
        }
        add_strs(&mut out, kb, &self.assets__in);
        proof {
            let seg = out@.subrange(pre.len() as int, out@.len() as int);
            assert(out@ =~= pre + seg);
            lemma_params_match_concat(pre, seg, ds, strs_descr(k_assets__in(), self.assets__in@));
            ds = ds + strs_descr(k_assets__in(), self.assets__in@);
            assert(params_match(out@, ds));
        }
        proof {
            assert(ds =~= self.descr());
        }
        out
    }
}

} // verus!
