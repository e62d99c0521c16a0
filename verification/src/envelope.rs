//! The outbound request envelope and its wire form: one JSON document per
//! socket message, with the operation's parameters flattened into the
//! top-level object. The encoder is exact — `encode` produces precisely
//! `envelope_bytes` — and the decoder is sound: whenever it accepts a
//! document it returns an envelope that encodes back to the same bytes.

use vstd::prelude::*;

use crate::ids::{
    all_dec_digits, dec_digits, hex_digits, is_dec_digit, parse_dec, parse_hex, push_dec,
    push_hex,
};

verus! {

/// A server operation, named on the wire in camelCase.
#[derive(Clone, Copy, Debug, PartialEq, Eq, Structural)]
pub enum Operation {
    GetStatus,
    GetBlocks,
    GetLogs,
    GetTxs,
    GetReceipts,
    GetFuelLogsDecoded,
    GetMessages,
    GetUnspentUtxos,
    GetUniswapV2Pairs,
    GetUniswapV2Prices,
    GetUniswapV3Fees,
    GetUniswapV3Pools,
    GetUniswapV3Positions,
    GetUniswapV3Prices,
    GetCurveTokens,
    GetCurvePools,
    GetCurvePrices,
    GetTransfers,
    GetErc20,
    GetErc20Approvals,
    GetErc20Transfers,
    GetSparkMarket,
    GetSparkOrder,
    GetSrc20,
    GetSrc7,
    GetMiraV1Pools,
    GetMiraV1Liqudity,
    GetMiraV1Swaps,
}

/// The response serialization the caller asks for.
#[derive(Clone, Copy, Debug, PartialEq, Eq, Structural)]
pub enum Format {
    JsonStream,
    Arrow,
    ArrowStream,
    ArrowIpc,
    CsvStream,
}

impl Default for Format {
    /// The default response format is line-delimited JSON.
    fn default() -> (r: Self)
        ensures
            r == Format::JsonStream,
    {
        Format::JsonStream
    }
}

/// A block-range endpoint. `Unset` is written as the string `None` on the
/// wire; the other variants keep their names.
#[derive(Clone, Copy, Debug, PartialEq, Eq, Structural)]
pub enum Bound {
    Unset,
    Latest,
    FromLatest(u64),
    Exact(u64),
    Subscribe,
}

impl Default for Bound {
    /// An omitted block endpoint defaults to the chain head.
    fn default() -> (r: Self)
        ensures
            r == Bound::Latest,
    {
        Bound::Latest
    }
}

/// One operation parameter value: a plain string, an unsigned number, or a
/// block endpoint. Nested structure beyond these is not the transport's
/// business.
#[derive(Clone, Debug)]
pub enum ParamValue {
    Text(Vec<u8>),
    Uint(u64),
    Block(Bound),
}

/// One flattened parameter: field name and value.
#[derive(Clone, Debug)]
pub struct Param {
    pub key: Vec<u8>,
    pub value: ParamValue,
}

/// The outbound request envelope.
#[derive(Clone, Debug)]
pub struct Envelope {
    pub id: u128,
    pub operation: Operation,
    pub params: Vec<Param>,
    pub format: Format,
    pub deltas: bool,
}

/// A byte that may stand inside a JSON string without escaping here:
/// printable ASCII, no quote, no backslash.
pub open spec fn plain_text_byte(b: u8) -> bool {
    32 <= b < 127 && b != 34 && b != 92
}

pub open spec fn plain_text(s: Seq<u8>) -> bool {
    forall|i: int| 0 <= i < s.len() ==> plain_text_byte(#[trigger] s[i])
}

/// A byte allowed in a parameter field name: lowercase letter, digit, or
/// underscore.
pub open spec fn key_byte(b: u8) -> bool {
    (97 <= b <= 122) || (48 <= b <= 57) || b == 95
}

pub open spec fn key_id() -> Seq<u8> {
    seq![105, 100]  // id
}

pub open spec fn key_operation() -> Seq<u8> {
    seq![111, 112, 101, 114, 97, 116, 105, 111, 110]  // operation
}

pub open spec fn key_format() -> Seq<u8> {
    seq![102, 111, 114, 109, 97, 116]  // format
}

pub open spec fn key_deltas() -> Seq<u8> {
    seq![100, 101, 108, 116, 97, 115]  // deltas
}

/// A usable parameter name: nonempty, name bytes only, and none of the
/// envelope's own four field names.
pub open spec fn valid_key(s: Seq<u8>) -> bool {
    &&& s.len() > 0
    &&& forall|i: int| 0 <= i < s.len() ==> key_byte(#[trigger] s[i])
    &&& s != key_id()
    &&& s != key_operation()
    &&& s != key_format()
    &&& s != key_deltas()
}

pub open spec fn param_wf(p: Param) -> bool {
    &&& valid_key(p.key@)
    &&& match p.value {
        ParamValue::Text(t) => plain_text(t@),
        ParamValue::Uint(_) => true,
        ParamValue::Block(_) => true,
    }
}

/// A well-formed envelope: every parameter usable, field names distinct.
pub open spec fn env_wf(e: Envelope) -> bool {
    &&& forall|i: int| 0 <= i < e.params@.len() ==> param_wf(#[trigger] e.params@[i])
    &&& forall|i: int, j: int|
        0 <= i < j < e.params@.len() ==> e.params@[i].key@ != e.params@[j].key@
}

/// The canonical identifier string: 32 lowercase hexadecimal digits in
/// five groups separated by hyphens.
pub open spec fn uuid_bytes(v: u128) -> Seq<u8> {
    let h = hex_digits(v, 32);
    h.subrange(0, 8) + seq![45u8] + h.subrange(8, 12) + seq![45u8] + h.subrange(12, 16)
        + seq![45u8] + h.subrange(16, 20) + seq![45u8] + h.subrange(20, 32)
}

pub open spec fn bool_bytes(b: bool) -> Seq<u8> {
    if b {
        seq![116, 114, 117, 101]  // true
    } else {
        seq![102, 97, 108, 115, 101]  // false
    }
}

pub open spec fn mark_from_latest() -> Seq<u8> {
    seq![123, 34, 70, 114, 111, 109, 76, 97, 116, 101, 115, 116, 34, 58]  // {"FromLatest":
}

pub open spec fn mark_exact() -> Seq<u8> {
    seq![123, 34, 69, 120, 97, 99, 116, 34, 58]  // {"Exact":
}

pub open spec fn bound_bytes(b: Bound) -> Seq<u8> {
    match b {
        Bound::Unset => seq![34, 78, 111, 110, 101, 34],  // "None"
        Bound::Latest => seq![34, 76, 97, 116, 101, 115, 116, 34],  // "Latest"
        Bound::Subscribe => seq![34, 83, 117, 98, 115, 99, 114, 105, 98, 101, 34],  // "Subscribe"
        Bound::FromLatest(n) => mark_from_latest() + dec_digits(n) + seq![125u8],
        Bound::Exact(n) => mark_exact() + dec_digits(n) + seq![125u8],
    }
}

pub open spec fn value_bytes(v: ParamValue) -> Seq<u8> {
    match v {
        ParamValue::Text(t) => seq![34u8] + t@ + seq![34u8],
        ParamValue::Uint(n) => dec_digits(n),
        ParamValue::Block(b) => bound_bytes(b),
    }
}

pub open spec fn param_bytes(p: Param) -> Seq<u8> {
    seq![44u8, 34u8] + p.key@ + seq![34u8, 58u8] + value_bytes(p.value)
}

pub open spec fn params_bytes(ps: Seq<Param>) -> Seq<u8>
    decreases ps.len(),
{
    if ps.len() == 0 {
        Seq::empty()
    } else {
        param_bytes(ps[0]) + params_bytes(ps.drop_first())
    }
}

pub open spec fn mark_head() -> Seq<u8> {
    seq![123, 34, 105, 100, 34, 58, 34]  // {"id":"
}

pub open spec fn mark_operation() -> Seq<u8> {
    seq![34, 44, 34, 111, 112, 101, 114, 97, 116, 105, 111, 110, 34, 58, 34]  // ","operation":"
}

pub open spec fn mark_format() -> Seq<u8> {
    seq![44, 34, 102, 111, 114, 109, 97, 116, 34, 58, 34]  // ,"format":"
}

pub open spec fn mark_deltas() -> Seq<u8> {
    seq![34, 44, 34, 100, 101, 108, 116, 97, 115, 34, 58]  // ","deltas":
}


/// Byte-vector equality.
pub fn vec_eq(a: &Vec<u8>, b: &Vec<u8>) -> (r: bool)
    ensures
        r == (a@ == b@),
{
    if a.len() != b.len() {
        assert(a@.len() != b@.len());
        return false;
    }
    let mut i: usize = 0;
    while i < a.len()
        invariant
            0 <= i <= a@.len(),
            a@.len() == b@.len(),
            forall|j: int| 0 <= j < i ==> a@[j] == b@[j],
        decreases a@.len() - i,
    {
        if a[i] != b[i] {
            assert(a@[i as int] != b@[i as int]);
            return false;
        }
        i = i + 1;
    }
    proof {
        assert(a@ =~= b@);
    }
    true
}

// operation wire names, spec side
pub open spec fn op_wire_spec(op: Operation) -> Seq<u8> {
    match op {
        Operation::GetStatus => seq![103, 101, 116, 83, 116, 97, 116, 117, 115],  // getStatus
        Operation::GetBlocks => seq![103, 101, 116, 66, 108, 111, 99, 107, 115],  // getBlocks
        Operation::GetLogs => seq![103, 101, 116, 76, 111, 103, 115],  // getLogs
        Operation::GetTxs => seq![103, 101, 116, 84, 120, 115],  // getTxs
        Operation::GetReceipts => seq![103, 101, 116, 82, 101, 99, 101, 105, 112, 116, 115],  // getReceipts
        Operation::GetFuelLogsDecoded => seq![103, 101, 116, 68, 101, 99, 111, 100, 101, 100, 76, 111, 103, 115],  // getDecodedLogs
        Operation::GetMessages => seq![103, 101, 116, 77, 101, 115, 115, 97, 103, 101, 115],  // getMessages
        Operation::GetUnspentUtxos => seq![103, 101, 116, 85, 110, 115, 112, 101, 110, 116, 85, 116, 120, 111, 115],  // getUnspentUtxos
        Operation::GetUniswapV2Pairs => seq![103, 101, 116, 85, 110, 105, 115, 119, 97, 112, 86, 50, 80, 97, 105, 114, 115],  // getUniswapV2Pairs
        Operation::GetUniswapV2Prices => seq![103, 101, 116, 85, 110, 105, 115, 119, 97, 112, 86, 50, 80, 114, 105, 99, 101, 115],  // getUniswapV2Prices
        Operation::GetUniswapV3Fees => seq![103, 101, 116, 85, 110, 105, 115, 119, 97, 112, 86, 51, 70, 101, 101, 115],  // getUniswapV3Fees
        Operation::GetUniswapV3Pools => seq![103, 101, 116, 85, 110, 105, 115, 119, 97, 112, 86, 51, 80, 111, 111, 108, 115],  // getUniswapV3Pools
        Operation::GetUniswapV3Positions => seq![103, 101, 116, 85, 110, 105, 115, 119, 97, 112, 86, 51, 80, 111, 115, 105, 116, 105, 111, 110, 115],  // getUniswapV3Positions
        Operation::GetUniswapV3Prices => seq![103, 101, 116, 85, 110, 105, 115, 119, 97, 112, 86, 51, 80, 114, 105, 99, 101, 115],  // getUniswapV3Prices
        Operation::GetCurveTokens => seq![103, 101, 116, 67, 117, 114, 118, 101, 84, 111, 107, 101, 110, 115],  // getCurveTokens
        Operation::GetCurvePools => seq![103, 101, 116, 67, 117, 114, 118, 101, 80, 111, 111, 108, 115],  // getCurvePools
        Operation::GetCurvePrices => seq![103, 101, 116, 67, 117, 114, 118, 101, 80, 114, 105, 99, 101, 115],  // getCurvePrices
        Operation::GetTransfers => seq![103, 101, 116, 84, 114, 97, 110, 115, 102, 101, 114, 115],  // getTransfers
        Operation::GetErc20 => seq![103, 101, 116, 69, 114, 99, 50, 48],  // getErc20
        Operation::GetErc20Approvals => seq![103, 101, 116, 69, 114, 99, 50, 48, 65, 112, 112, 114, 111, 118, 97, 108, 115],  // getErc20Approvals
        Operation::GetErc20Transfers => seq![103, 101, 116, 69, 114, 99, 50, 48, 84, 114, 97, 110, 115, 102, 101, 114, 115],  // getErc20Transfers
        Operation::GetSparkMarket => seq![103, 101, 116, 83, 112, 97, 114, 107, 77, 97, 114, 107, 101, 116],  // getSparkMarket
        Operation::GetSparkOrder => seq![103, 101, 116, 83, 112, 97, 114, 107, 79, 114, 100, 101, 114],  // getSparkOrder
        Operation::GetSrc20 => seq![103, 101, 116, 83, 114, 99, 50, 48],  // getSrc20
        Operation::GetSrc7 => seq![103, 101, 116, 83, 114, 99, 55],  // getSrc7
        Operation::GetMiraV1Pools => seq![103, 101, 116, 77, 105, 114, 97, 86, 49, 80, 111, 111, 108, 115],  // getMiraV1Pools
        Operation::GetMiraV1Liqudity => seq![103, 101, 116, 77, 105, 114, 97, 86, 49, 76, 105, 113, 117, 100, 105, 116, 121],  // getMiraV1Liqudity
        Operation::GetMiraV1Swaps => seq![103, 101, 116, 77, 105, 114, 97, 86, 49, 83, 119, 97, 112, 115],  // getMiraV1Swaps
    }
}

/// The camelCase wire name of an operation.
pub fn op_wire(op: &Operation) -> (r: Vec<u8>)
    ensures
        r@ == op_wire_spec(*op),
{
    match op {
        Operation::GetStatus => { let v: Vec<u8> = vec![103, 101, 116, 83, 116, 97, 116, 117, 115]; proof { assert(v@ =~= op_wire_spec(Operation::GetStatus)); } v },
        Operation::GetBlocks => { let v: Vec<u8> = vec![103, 101, 116, 66, 108, 111, 99, 107, 115]; proof { assert(v@ =~= op_wire_spec(Operation::GetBlocks)); } v },
        Operation::GetLogs => { let v: Vec<u8> = vec![103, 101, 116, 76, 111, 103, 115]; proof { assert(v@ =~= op_wire_spec(Operation::GetLogs)); } v },
        Operation::GetTxs => { let v: Vec<u8> = vec![103, 101, 116, 84, 120, 115]; proof { assert(v@ =~= op_wire_spec(Operation::GetTxs)); } v },
        Operation::GetReceipts => { let v: Vec<u8> = vec![103, 101, 116, 82, 101, 99, 101, 105, 112, 116, 115]; proof { assert(v@ =~= op_wire_spec(Operation::GetReceipts)); } v },
        Operation::GetFuelLogsDecoded => { let v: Vec<u8> = vec![103, 101, 116, 68, 101, 99, 111, 100, 101, 100, 76, 111, 103, 115]; proof { assert(v@ =~= op_wire_spec(Operation::GetFuelLogsDecoded)); } v },
        Operation::GetMessages => { let v: Vec<u8> = vec![103, 101, 116, 77, 101, 115, 115, 97, 103, 101, 115]; proof { assert(v@ =~= op_wire_spec(Operation::GetMessages)); } v },
        Operation::GetUnspentUtxos => { let v: Vec<u8> = vec![103, 101, 116, 85, 110, 115, 112, 101, 110, 116, 85, 116, 120, 111, 115]; proof { assert(v@ =~= op_wire_spec(Operation::GetUnspentUtxos)); } v },
        Operation::GetUniswapV2Pairs => { let v: Vec<u8> = vec![103, 101, 116, 85, 110, 105, 115, 119, 97, 112, 86, 50, 80, 97, 105, 114, 115]; proof { assert(v@ =~= op_wire_spec(Operation::GetUniswapV2Pairs)); } v },
        Operation::GetUniswapV2Prices => { let v: Vec<u8> = vec![103, 101, 116, 85, 110, 105, 115, 119, 97, 112, 86, 50, 80, 114, 105, 99, 101, 115]; proof { assert(v@ =~= op_wire_spec(Operation::GetUniswapV2Prices)); } v },
        Operation::GetUniswapV3Fees => { let v: Vec<u8> = vec![103, 101, 116, 85, 110, 105, 115, 119, 97, 112, 86, 51, 70, 101, 101, 115]; proof { assert(v@ =~= op_wire_spec(Operation::GetUniswapV3Fees)); } v },
        Operation::GetUniswapV3Pools => { let v: Vec<u8> = vec![103, 101, 116, 85, 110, 105, 115, 119, 97, 112, 86, 51, 80, 111, 111, 108, 115]; proof { assert(v@ =~= op_wire_spec(Operation::GetUniswapV3Pools)); } v },
        Operation::GetUniswapV3Positions => { let v: Vec<u8> = vec![103, 101, 116, 85, 110, 105, 115, 119, 97, 112, 86, 51, 80, 111, 115, 105, 116, 105, 111, 110, 115]; proof { assert(v@ =~= op_wire_spec(Operation::GetUniswapV3Positions)); } v },
        Operation::GetUniswapV3Prices => { let v: Vec<u8> = vec![103, 101, 116, 85, 110, 105, 115, 119, 97, 112, 86, 51, 80, 114, 105, 99, 101, 115]; proof { assert(v@ =~= op_wire_spec(Operation::GetUniswapV3Prices)); } v },
        Operation::GetCurveTokens => { let v: Vec<u8> = vec![103, 101, 116, 67, 117, 114, 118, 101, 84, 111, 107, 101, 110, 115]; proof { assert(v@ =~= op_wire_spec(Operation::GetCurveTokens)); } v },
        Operation::GetCurvePools => { let v: Vec<u8> = vec![103, 101, 116, 67, 117, 114, 118, 101, 80, 111, 111, 108, 115]; proof { assert(v@ =~= op_wire_spec(Operation::GetCurvePools)); } v },
        Operation::GetCurvePrices => { let v: Vec<u8> = vec![103, 101, 116, 67, 117, 114, 118, 101, 80, 114, 105, 99, 101, 115]; proof { assert(v@ =~= op_wire_spec(Operation::GetCurvePrices)); } v },
        Operation::GetTransfers => { let v: Vec<u8> = vec![103, 101, 116, 84, 114, 97, 110, 115, 102, 101, 114, 115]; proof { assert(v@ =~= op_wire_spec(Operation::GetTransfers)); } v },
        Operation::GetErc20 => { let v: Vec<u8> = vec![103, 101, 116, 69, 114, 99, 50, 48]; proof { assert(v@ =~= op_wire_spec(Operation::GetErc20)); } v },
        Operation::GetErc20Approvals => { let v: Vec<u8> = vec![103, 101, 116, 69, 114, 99, 50, 48, 65, 112, 112, 114, 111, 118, 97, 108, 115]; proof { assert(v@ =~= op_wire_spec(Operation::GetErc20Approvals)); } v },
        Operation::GetErc20Transfers => { let v: Vec<u8> = vec![103, 101, 116, 69, 114, 99, 50, 48, 84, 114, 97, 110, 115, 102, 101, 114, 115]; proof { assert(v@ =~= op_wire_spec(Operation::GetErc20Transfers)); } v },
        Operation::GetSparkMarket => { let v: Vec<u8> = vec![103, 101, 116, 83, 112, 97, 114, 107, 77, 97, 114, 107, 101, 116]; proof { assert(v@ =~= op_wire_spec(Operation::GetSparkMarket)); } v },
        Operation::GetSparkOrder => { let v: Vec<u8> = vec![103, 101, 116, 83, 112, 97, 114, 107, 79, 114, 100, 101, 114]; proof { assert(v@ =~= op_wire_spec(Operation::GetSparkOrder)); } v },
        Operation::GetSrc20 => { let v: Vec<u8> = vec![103, 101, 116, 83, 114, 99, 50, 48]; proof { assert(v@ =~= op_wire_spec(Operation::GetSrc20)); } v },
        Operation::GetSrc7 => { let v: Vec<u8> = vec![103, 101, 116, 83, 114, 99, 55]; proof { assert(v@ =~= op_wire_spec(Operation::GetSrc7)); } v },
        Operation::GetMiraV1Pools => { let v: Vec<u8> = vec![103, 101, 116, 77, 105, 114, 97, 86, 49, 80, 111, 111, 108, 115]; proof { assert(v@ =~= op_wire_spec(Operation::GetMiraV1Pools)); } v },
        Operation::GetMiraV1Liqudity => { let v: Vec<u8> = vec![103, 101, 116, 77, 105, 114, 97, 86, 49, 76, 105, 113, 117, 100, 105, 116, 121]; proof { assert(v@ =~= op_wire_spec(Operation::GetMiraV1Liqudity)); } v },
        Operation::GetMiraV1Swaps => { let v: Vec<u8> = vec![103, 101, 116, 77, 105, 114, 97, 86, 49, 83, 119, 97, 112, 115]; proof { assert(v@ =~= op_wire_spec(Operation::GetMiraV1Swaps)); } v },
    }
}

pub open spec fn op_unwire_spec(s: Seq<u8>) -> Option<Operation> {
    if s == op_wire_spec(Operation::GetStatus) {
        Some(Operation::GetStatus)
    } else if s == op_wire_spec(Operation::GetBlocks) {
        Some(Operation::GetBlocks)
    } else if s == op_wire_spec(Operation::GetLogs) {
        Some(Operation::GetLogs)
    } else if s == op_wire_spec(Operation::GetTxs) {
        Some(Operation::GetTxs)
    } else if s == op_wire_spec(Operation::GetReceipts) {
        Some(Operation::GetReceipts)
    } else if s == op_wire_spec(Operation::GetFuelLogsDecoded) {
        Some(Operation::GetFuelLogsDecoded)
    } else if s == op_wire_spec(Operation::GetMessages) {
        Some(Operation::GetMessages)
    } else if s == op_wire_spec(Operation::GetUnspentUtxos) {
        Some(Operation::GetUnspentUtxos)
    } else if s == op_wire_spec(Operation::GetUniswapV2Pairs) {
        Some(Operation::GetUniswapV2Pairs)
    } else if s == op_wire_spec(Operation::GetUniswapV2Prices) {
        Some(Operation::GetUniswapV2Prices)
    } else if s == op_wire_spec(Operation::GetUniswapV3Fees) {
        Some(Operation::GetUniswapV3Fees)
    } else if s == op_wire_spec(Operation::GetUniswapV3Pools) {
        Some(Operation::GetUniswapV3Pools)
    } else if s == op_wire_spec(Operation::GetUniswapV3Positions) {
        Some(Operation::GetUniswapV3Positions)
    } else if s == op_wire_spec(Operation::GetUniswapV3Prices) {
        Some(Operation::GetUniswapV3Prices)
    } else if s == op_wire_spec(Operation::GetCurveTokens) {
        Some(Operation::GetCurveTokens)
    } else if s == op_wire_spec(Operation::GetCurvePools) {
        Some(Operation::GetCurvePools)
    } else if s == op_wire_spec(Operation::GetCurvePrices) {
        Some(Operation::GetCurvePrices)
    } else if s == op_wire_spec(Operation::GetTransfers) {
        Some(Operation::GetTransfers)
    } else if s == op_wire_spec(Operation::GetErc20) {
        Some(Operation::GetErc20)
    } else if s == op_wire_spec(Operation::GetErc20Approvals) {
        Some(Operation::GetErc20Approvals)
    } else if s == op_wire_spec(Operation::GetErc20Transfers) {
        Some(Operation::GetErc20Transfers)
    } else if s == op_wire_spec(Operation::GetSparkMarket) {
        Some(Operation::GetSparkMarket)
    } else if s == op_wire_spec(Operation::GetSparkOrder) {
        Some(Operation::GetSparkOrder)
    } else if s == op_wire_spec(Operation::GetSrc20) {
        Some(Operation::GetSrc20)
    } else if s == op_wire_spec(Operation::GetSrc7) {
        Some(Operation::GetSrc7)
    } else if s == op_wire_spec(Operation::GetMiraV1Pools) {
        Some(Operation::GetMiraV1Pools)
    } else if s == op_wire_spec(Operation::GetMiraV1Liqudity) {
        Some(Operation::GetMiraV1Liqudity)
    } else if s == op_wire_spec(Operation::GetMiraV1Swaps) {
        Some(Operation::GetMiraV1Swaps)
    } else {
        None
    }
}

/// Maps a wire name back to its operation.
pub fn op_unwire(s: &Vec<u8>) -> (r: Option<Operation>)
    ensures
        r == op_unwire_spec(s@),
{
    if vec_eq(s, &op_wire(&Operation::GetStatus)) {
        return Some(Operation::GetStatus);
    }
    if vec_eq(s, &op_wire(&Operation::GetBlocks)) {
        return Some(Operation::GetBlocks);
    }
    if vec_eq(s, &op_wire(&Operation::GetLogs)) {
        return Some(Operation::GetLogs);
    }
    if vec_eq(s, &op_wire(&Operation::GetTxs)) {
        return Some(Operation::GetTxs);
    }
    if vec_eq(s, &op_wire(&Operation::GetReceipts)) {
        return Some(Operation::GetReceipts);
    }
    if vec_eq(s, &op_wire(&Operation::GetFuelLogsDecoded)) {
        return Some(Operation::GetFuelLogsDecoded);
    }
    if vec_eq(s, &op_wire(&Operation::GetMessages)) {
        return Some(Operation::GetMessages);
    }
    if vec_eq(s, &op_wire(&Operation::GetUnspentUtxos)) {
        return Some(Operation::GetUnspentUtxos);
    }
    if vec_eq(s, &op_wire(&Operation::GetUniswapV2Pairs)) {
        return Some(Operation::GetUniswapV2Pairs);
    }
    if vec_eq(s, &op_wire(&Operation::GetUniswapV2Prices)) {
        return Some(Operation::GetUniswapV2Prices);
    }
    if vec_eq(s, &op_wire(&Operation::GetUniswapV3Fees)) {
        return Some(Operation::GetUniswapV3Fees);
    }
    if vec_eq(s, &op_wire(&Operation::GetUniswapV3Pools)) {
        return Some(Operation::GetUniswapV3Pools);
    }
    if vec_eq(s, &op_wire(&Operation::GetUniswapV3Positions)) {
        return Some(Operation::GetUniswapV3Positions);
    }
    if vec_eq(s, &op_wire(&Operation::GetUniswapV3Prices)) {
        return Some(Operation::GetUniswapV3Prices);
    }
    if vec_eq(s, &op_wire(&Operation::GetCurveTokens)) {
        return Some(Operation::GetCurveTokens);
    }
    if vec_eq(s, &op_wire(&Operation::GetCurvePools)) {
        return Some(Operation::GetCurvePools);
    }
    if vec_eq(s, &op_wire(&Operation::GetCurvePrices)) {
        return Some(Operation::GetCurvePrices);
    }
    if vec_eq(s, &op_wire(&Operation::GetTransfers)) {
        return Some(Operation::GetTransfers);
    }
    if vec_eq(s, &op_wire(&Operation::GetErc20)) {
        return Some(Operation::GetErc20);
    }
    if vec_eq(s, &op_wire(&Operation::GetErc20Approvals)) {
        return Some(Operation::GetErc20Approvals);
    }
    if vec_eq(s, &op_wire(&Operation::GetErc20Transfers)) {
        return Some(Operation::GetErc20Transfers);
    }
    if vec_eq(s, &op_wire(&Operation::GetSparkMarket)) {
        return Some(Operation::GetSparkMarket);
    }
    if vec_eq(s, &op_wire(&Operation::GetSparkOrder)) {
        return Some(Operation::GetSparkOrder);
    }
    if vec_eq(s, &op_wire(&Operation::GetSrc20)) {
        return Some(Operation::GetSrc20);
    }
    if vec_eq(s, &op_wire(&Operation::GetSrc7)) {
        return Some(Operation::GetSrc7);
    }
    if vec_eq(s, &op_wire(&Operation::GetMiraV1Pools)) {
        return Some(Operation::GetMiraV1Pools);
    }
    if vec_eq(s, &op_wire(&Operation::GetMiraV1Liqudity)) {
        return Some(Operation::GetMiraV1Liqudity);
    }
    if vec_eq(s, &op_wire(&Operation::GetMiraV1Swaps)) {
        return Some(Operation::GetMiraV1Swaps);
    }
    None
}

pub open spec fn format_wire_spec(f: Format) -> Seq<u8> {
    match f {
        Format::JsonStream => seq![74, 115, 111, 110, 83, 116, 114, 101, 97, 109],  // JsonStream
        Format::Arrow => seq![65, 114, 114, 111, 119],  // Arrow
        Format::ArrowStream => seq![65, 114, 114, 111, 119, 83, 116, 114, 101, 97, 109],  // ArrowStream
        Format::ArrowIpc => seq![65, 114, 114, 111, 119, 73, 112, 99],  // ArrowIpc
        Format::CsvStream => seq![67, 115, 118, 83, 116, 114, 101, 97, 109],  // CsvStream
    }
}

/// The wire name of a response format.
pub fn format_wire(f: &Format) -> (r: Vec<u8>)
    ensures
        r@ == format_wire_spec(*f),
{
    match f {
        Format::JsonStream => { let v: Vec<u8> = vec![74, 115, 111, 110, 83, 116, 114, 101, 97, 109]; proof { assert(v@ =~= format_wire_spec(Format::JsonStream)); } v },
        Format::Arrow => { let v: Vec<u8> = vec![65, 114, 114, 111, 119]; proof { assert(v@ =~= format_wire_spec(Format::Arrow)); } v },
        Format::ArrowStream => { let v: Vec<u8> = vec![65, 114, 114, 111, 119, 83, 116, 114, 101, 97, 109]; proof { assert(v@ =~= format_wire_spec(Format::ArrowStream)); } v },
        Format::ArrowIpc => { let v: Vec<u8> = vec![65, 114, 114, 111, 119, 73, 112, 99]; proof { assert(v@ =~= format_wire_spec(Format::ArrowIpc)); } v },
        Format::CsvStream => { let v: Vec<u8> = vec![67, 115, 118, 83, 116, 114, 101, 97, 109]; proof { assert(v@ =~= format_wire_spec(Format::CsvStream)); } v },
    }
}

pub open spec fn format_unwire_spec(s: Seq<u8>) -> Option<Format> {
    if s == format_wire_spec(Format::JsonStream) {
        Some(Format::JsonStream)
    } else if s == format_wire_spec(Format::Arrow) {
        Some(Format::Arrow)
    } else if s == format_wire_spec(Format::ArrowStream) {
        Some(Format::ArrowStream)
    } else if s == format_wire_spec(Format::ArrowIpc) {
        Some(Format::ArrowIpc)
    } else if s == format_wire_spec(Format::CsvStream) {
        Some(Format::CsvStream)
    } else {
        None
    }
}

/// Maps a wire name back to its format.
pub fn format_unwire(s: &Vec<u8>) -> (r: Option<Format>)
    ensures
        r == format_unwire_spec(s@),
{
    if vec_eq(s, &format_wire(&Format::JsonStream)) {
        return Some(Format::JsonStream);
    }
    if vec_eq(s, &format_wire(&Format::Arrow)) {
        return Some(Format::Arrow);
    }
    if vec_eq(s, &format_wire(&Format::ArrowStream)) {
        return Some(Format::ArrowStream);
    }
    if vec_eq(s, &format_wire(&Format::ArrowIpc)) {
        return Some(Format::ArrowIpc);
    }
    if vec_eq(s, &format_wire(&Format::CsvStream)) {
        return Some(Format::CsvStream);
    }
    None
}

/// The whole document.
pub open spec fn envelope_bytes(e: Envelope) -> Seq<u8> {
    mark_head() + uuid_bytes(e.id) + mark_operation() + op_wire_spec(e.operation) + seq![34u8]
        + params_bytes(e.params@) + mark_format() + format_wire_spec(e.format) + mark_deltas()
        + bool_bytes(e.deltas) + seq![125u8]
}


/// `params_bytes` distributes over concatenation.
pub proof fn lemma_params_bytes_concat(a: Seq<Param>, b: Seq<Param>)
    ensures
        params_bytes(a + b) == params_bytes(a) + params_bytes(b),
    decreases a.len(),
{
    if a.len() == 0 {
        assert(a + b =~= b);
        assert(params_bytes(a) =~= Seq::<u8>::empty());
        assert(params_bytes(a) + params_bytes(b) =~= params_bytes(b));
    } else {
        lemma_params_bytes_concat(a.drop_first(), b);
        assert((a + b).drop_first() =~= a.drop_first() + b);
        assert((a + b)[0] == a[0]);
        assert(params_bytes(a + b) =~= params_bytes(a) + params_bytes(b));
    }
}

/// Appends a literal token.
fn push_lit(out: &mut Vec<u8>, lit: Vec<u8>)
    ensures
        final(out)@ == old(out)@ + lit@,
{
    let mut l = lit;
    out.append(&mut l);
}

/// Appends `src[from..to]`.
pub(crate) fn push_slice_range(out: &mut Vec<u8>, src: &Vec<u8>, from: usize, to: usize)
    requires
        from <= to <= src@.len(),
    ensures
        final(out)@ == old(out)@ + src@.subrange(from as int, to as int),
{
    let mut j: usize = from;
    while j < to
        invariant
            from <= j <= to <= src@.len(),
            out@ == old(out)@ + src@.subrange(from as int, j as int),
        decreases to - j,
    {
        out.push(src[j]);
        assert(src@.subrange(from as int, j + 1) =~= src@.subrange(from as int, j as int)
            + seq![src@[j as int]]);
        j = j + 1;
    }
}

/// Appends the canonical identifier string of `v`.
pub fn push_uuid(out: &mut Vec<u8>, v: u128)
    ensures
        final(out)@ == old(out)@ + uuid_bytes(v),
{
    let mut h: Vec<u8> = Vec::new();
    push_hex(&mut h, v, 32);
    proof {
        crate::ids::lemma_hex_digits_are_digits(v, 32);
    }
    push_slice_range(out, &h, 0, 8);
    out.push(45);
    push_slice_range(out, &h, 8, 12);
    out.push(45);
    push_slice_range(out, &h, 12, 16);
    out.push(45);
    push_slice_range(out, &h, 16, 20);
    out.push(45);
    push_slice_range(out, &h, 20, 32);
    assert(out@ =~= old(out)@ + uuid_bytes(v));
}

/// Appends the wire form of a block endpoint.
fn push_bound(out: &mut Vec<u8>, b: &Bound)
    ensures
        final(out)@ == old(out)@ + bound_bytes(*b),
{
    match b {
        Bound::Unset => {
            let l: Vec<u8> = vec![34, 78, 111, 110, 101, 34];
            proof {
                assert(l@ =~= bound_bytes(Bound::Unset));
            }
            push_lit(out, l);
        },
        Bound::Latest => {
            let l: Vec<u8> = vec![34, 76, 97, 116, 101, 115, 116, 34];
            proof {
                assert(l@ =~= bound_bytes(Bound::Latest));
            }
            push_lit(out, l);
        },
        Bound::Subscribe => {
            let l: Vec<u8> = vec![34, 83, 117, 98, 115, 99, 114, 105, 98, 101, 34];
            proof {
                assert(l@ =~= bound_bytes(Bound::Subscribe));
            }
            push_lit(out, l);
        },
        Bound::FromLatest(n) => {
            let l: Vec<u8> = vec![123, 34, 70, 114, 111, 109, 76, 97, 116, 101, 115, 116, 34, 58];
            proof {
                assert(l@ =~= mark_from_latest());
            }
            push_lit(out, l);
            push_dec(out, *n);
            out.push(125);
            assert(out@ =~= old(out)@ + bound_bytes(*b));
        },
        Bound::Exact(n) => {
            let l: Vec<u8> = vec![123, 34, 69, 120, 97, 99, 116, 34, 58];
            proof {
                assert(l@ =~= mark_exact());
            }
            push_lit(out, l);
            push_dec(out, *n);
            out.push(125);
            assert(out@ =~= old(out)@ + bound_bytes(*b));
        },
    }
}

/// Appends the wire form of one parameter value.
fn push_value(out: &mut Vec<u8>, v: &ParamValue)
    ensures
        final(out)@ == old(out)@ + value_bytes(*v),
{
    match v {
        ParamValue::Text(t) => {
            out.push(34);
            out.extend_from_slice(t.as_slice());
            out.push(34);
            assert(out@ =~= old(out)@ + value_bytes(*v));
        },
        ParamValue::Uint(n) => {
            push_dec(out, *n);
        },
        ParamValue::Block(b) => {
            push_bound(out, b);
        },
    }
}

/// Appends `,"key":value`.
fn push_param(out: &mut Vec<u8>, p: &Param)
    ensures
        final(out)@ == old(out)@ + param_bytes(*p),
{
    out.push(44);
    out.push(34);
    out.extend_from_slice(p.key.as_slice());
    out.push(34);
    out.push(58);
    push_value(out, &p.value);
    assert(out@ =~= old(out)@ + param_bytes(*p));
}

/// Serializes the envelope to its single canonical JSON document.
pub fn encode_envelope(e: &Envelope) -> (r: Vec<u8>)
    ensures
        r@ == envelope_bytes(*e),
{
    let mut out: Vec<u8> = Vec::new();
    let l: Vec<u8> = vec![123, 34, 105, 100, 34, 58, 34];
    proof {
        assert(l@ =~= mark_head());
    }
    push_lit(&mut out, l);
    push_uuid(&mut out, e.id);
    let l: Vec<u8> = vec![34, 44, 34, 111, 112, 101, 114, 97, 116, 105, 111, 110, 34, 58, 34];
    proof {
        assert(l@ =~= mark_operation());
    }
    push_lit(&mut out, l);
    push_lit(&mut out, op_wire(&e.operation));
    out.push(34);
    let ghost pre = out@;
    let mut i: usize = 0;
    while i < e.params.len()
        invariant
            0 <= i <= e.params@.len(),
            out@ == pre + params_bytes(e.params@.subrange(0, i as int)),
        decreases e.params@.len() - i,
    {
        push_param(&mut out, &e.params[i]);
        proof {
            assert(e.params@.subrange(0, i + 1) =~= e.params@.subrange(0, i as int)
                + seq![e.params@[i as int]]);
            lemma_params_bytes_concat(e.params@.subrange(0, i as int), seq![e.params@[i as int]]);
            let sp = seq![e.params@[i as int]];
            assert(sp.drop_first() =~= Seq::<Param>::empty());
            assert(sp[0] == e.params@[i as int]);
            assert(params_bytes(Seq::<Param>::empty()) =~= Seq::<u8>::empty());
            assert(params_bytes(sp) =~= param_bytes(e.params@[i as int]));
        }
        i = i + 1;
    }
    assert(e.params@.subrange(0, e.params@.len() as int) =~= e.params@);
    let l: Vec<u8> = vec![44, 34, 102, 111, 114, 109, 97, 116, 34, 58, 34];
    proof {
        assert(l@ =~= mark_format());
    }
    push_lit(&mut out, l);
    push_lit(&mut out, format_wire(&e.format));
    let l: Vec<u8> = vec![34, 44, 34, 100, 101, 108, 116, 97, 115, 34, 58];
    proof {
        assert(l@ =~= mark_deltas());
    }
    push_lit(&mut out, l);
    if e.deltas {
        let l: Vec<u8> = vec![116, 114, 117, 101];
        proof {
            assert(l@ =~= bool_bytes(true));
        }
        push_lit(&mut out, l);
    } else {
        let l: Vec<u8> = vec![102, 97, 108, 115, 101];
        proof {
            assert(l@ =~= bool_bytes(false));
        }
        push_lit(&mut out, l);
    }
    out.push(125);
    assert(out@ =~= envelope_bytes(*e));
    out
}


/// True when `tok` stands at `bytes[i..]`.
pub(crate) fn match_at(bytes: &Vec<u8>, i: usize, tok: &Vec<u8>) -> (r: bool)
    requires
        i <= bytes@.len(),
    ensures
        r == (i + tok@.len() <= bytes@.len() && bytes@.subrange(i as int, i + tok@.len())
            == tok@),
{
    if bytes.len() - i < tok.len() {
        return false;
    }
    let mut j: usize = 0;
    while j < tok.len()
        invariant
            0 <= j <= tok@.len(),
            i + tok@.len() <= bytes@.len() <= usize::MAX,
            forall|k: int| 0 <= k < j ==> bytes@[i + k] == tok@[k],
        decreases tok@.len() - j,
    {
        if bytes[i + j] != tok[j] {
            assert(bytes@.subrange(i as int, i + tok@.len()) != tok@) by {
                assert(bytes@.subrange(i as int, i + tok@.len())[j as int] != tok@[j as int]);
            }
            return false;
        }
        j = j + 1;
    }
    proof {
        assert(bytes@.subrange(i as int, i + tok@.len()) =~= tok@);
    }
    true
}

/// First position at or after `from` holding `stop`.
pub(crate) fn scan_until(bytes: &Vec<u8>, from: usize, stop: u8) -> (r: Option<usize>)
    requires
        from <= bytes@.len(),
    ensures
        match r {
            Some(j) => from <= j < bytes@.len() && bytes@[j as int] == stop && forall|k: int|
                from <= k < j ==> bytes@[k] != stop,
            None => forall|k: int| from <= k < bytes@.len() ==> bytes@[k] != stop,
        },
{
    let mut j: usize = from;
    while j < bytes.len()
        invariant
            from <= j <= bytes@.len(),
            forall|k: int| from <= k < j ==> bytes@[k] != stop,
        decreases bytes@.len() - j,
    {
        if bytes[j] == stop {
            return Some(j);
        }
        j = j + 1;
    }
    None
}

/// First position at or after `from` holding a byte that is not a decimal
/// digit.
fn scan_digits(bytes: &Vec<u8>, from: usize) -> (end: usize)
    requires
        from <= bytes@.len(),
    ensures
        from <= end <= bytes@.len(),
        forall|k: int| from <= k < end ==> is_dec_digit(bytes@[k]),
        end < bytes@.len() ==> !is_dec_digit(bytes@[end as int]),
    decreases bytes@.len() - from,
{
    let mut j: usize = from;
    while j < bytes.len()
        invariant
            from <= j <= bytes@.len(),
            forall|k: int| from <= k < j ==> is_dec_digit(bytes@[k]),
        decreases bytes@.len() - j,
    {
        let b = bytes[j];
        if b < 48 || b > 57 {
            return j;
        }
        j = j + 1;
    }
    j
}

/// A canonical digit run at `from` has one reading: a rendered number
/// that sits there, terminated by a non-digit, ends exactly where the
/// maximal scanned run ends.
proof fn lemma_run_pins(bytes: Seq<u8>, from: int, scan_end: int, v: u64, end: int)
    requires
        0 <= from <= scan_end <= bytes.len(),
        forall|k: int| from <= k < scan_end ==> is_dec_digit(#[trigger] bytes[k]),
        scan_end < bytes.len() ==> !is_dec_digit(bytes[scan_end]),
        from <= end <= bytes.len(),
        bytes.subrange(from, end) == dec_digits(v),
        end == bytes.len() || !is_dec_digit(bytes[end]),
    ensures
        end == scan_end,
        bytes.subrange(from, scan_end) == dec_digits(v),
{
    crate::ids::lemma_dec_digits_are_digits(v);
    assert(bytes.subrange(from, end).len() == dec_digits(v).len());
    if end < scan_end {
        assert(is_dec_digit(bytes[end]));
        assert(false);
    }
    if scan_end < end {
        assert(bytes[scan_end] == bytes.subrange(from, end)[scan_end - from]);
        assert(is_dec_digit(dec_digits(v)[scan_end - from]));
        assert(false);
    }
}

/// Reads a maximal digit run as a canonical decimal number: at least one
/// digit, no leading zero, value within `u64`. Complete: whenever a
/// rendered number stands at `from`, terminated by a non-digit, it is
/// read.
pub(crate) fn parse_number_run(bytes: &Vec<u8>, from: usize) -> (r: Option<(u64, usize)>)
    requires
        from <= bytes@.len(),
    ensures
        match r {
            Some(p) => from < p.1 <= bytes@.len() && bytes@.subrange(from as int, p.1 as int)
                == dec_digits(p.0) && (p.1 == bytes@.len() || !is_dec_digit(
                bytes@[p.1 as int],
            )),
            None => true,
        },
        forall|v: u64, end: int|
            #![trigger dec_digits(v), bytes@.subrange(from as int, end)]
            from <= end <= bytes@.len() && bytes@.subrange(from as int, end) == dec_digits(v)
                && (end == bytes@.len() || !is_dec_digit(bytes@[end])) ==> (r matches Some(p)
                && p.0 == v && p.1 == end),
{
    let end = scan_digits(bytes, from);
    let ghost se = end as int;
    if end == from {
        proof {
            assert forall|v: u64, end2: int|
                from <= end2 <= bytes@.len() && bytes@.subrange(from as int, end2)
                    == dec_digits(v) && (end2 == bytes@.len() || !is_dec_digit(
                    bytes@[end2],
                )) implies false by {
                lemma_run_pins(bytes@, from as int, se, v, end2);
                crate::ids::lemma_dec_digits_are_digits(v);
            }
        }
        return None;
    }
    if end - from > 1 && bytes[from] == 48 {
        proof {
            assert forall|v: u64, end2: int|
                from <= end2 <= bytes@.len() && bytes@.subrange(from as int, end2)
                    == dec_digits(v) && (end2 == bytes@.len() || !is_dec_digit(
                    bytes@[end2],
                )) implies false by {
                lemma_run_pins(bytes@, from as int, se, v, end2);
                crate::ids::lemma_dec_no_leading_zero(v);
                assert(dec_digits(v)[0] == bytes@.subrange(from as int, se)[0]);
            }
        }
        return None;
    }
    match parse_dec(bytes, from, end) {
        Some(v) => {
            proof {
                let s = bytes@.subrange(from as int, end as int);
                assert(forall|k: int| 0 <= k < s.len() ==> is_dec_digit(#[trigger] s[k]));
                assert(s[0] == bytes@[from as int]);
                crate::ids::lemma_dec_render_parse(s);
                assert forall|v2: u64, end2: int|
                    from <= end2 <= bytes@.len() && bytes@.subrange(from as int, end2)
                        == dec_digits(v2) && (end2 == bytes@.len() || !is_dec_digit(
                        bytes@[end2],
                    )) implies v2 == v && end2 == se by {
                    lemma_run_pins(bytes@, from as int, se, v2, end2);
                    crate::ids::lemma_dec_round_trip(v2);
                }
            }
            Some((v, end))
        },
        None => {
            proof {
                assert forall|v2: u64, end2: int|
                    from <= end2 <= bytes@.len() && bytes@.subrange(from as int, end2)
                        == dec_digits(v2) && (end2 == bytes@.len() || !is_dec_digit(
                        bytes@[end2],
                    )) implies false by {
                    lemma_run_pins(bytes@, from as int, se, v2, end2);
                    crate::ids::lemma_dec_round_trip(v2);
                }
            }
            None
        },
    }
}

/// Where the hyphens and the digit groups stand in a canonical
/// identifier string.
proof fn lemma_uuid_layout(v: u128)
    ensures
        uuid_bytes(v).len() == 36,
        uuid_bytes(v)[8] == 45,
        uuid_bytes(v)[13] == 45,
        uuid_bytes(v)[18] == 45,
        uuid_bytes(v)[23] == 45,
        uuid_bytes(v).subrange(0, 8) == hex_digits(v, 32).subrange(0, 8),
        uuid_bytes(v).subrange(9, 13) == hex_digits(v, 32).subrange(8, 12),
        uuid_bytes(v).subrange(14, 18) == hex_digits(v, 32).subrange(12, 16),
        uuid_bytes(v).subrange(19, 23) == hex_digits(v, 32).subrange(16, 20),
        uuid_bytes(v).subrange(24, 36) == hex_digits(v, 32).subrange(20, 32),
{
    crate::ids::lemma_hex_digits_are_digits(v, 32);
    let h = hex_digits(v, 32);
    let u = uuid_bytes(v);
    assert(u =~= h.subrange(0, 8) + seq![45u8] + h.subrange(8, 12) + seq![45u8] + h.subrange(
        12,
        16,
    ) + seq![45u8] + h.subrange(16, 20) + seq![45u8] + h.subrange(20, 32));
    assert(u.subrange(0, 8) =~= h.subrange(0, 8));
    assert(u.subrange(9, 13) =~= h.subrange(8, 12));
    assert(u.subrange(14, 18) =~= h.subrange(12, 16));
    assert(u.subrange(19, 23) =~= h.subrange(16, 20));
    assert(u.subrange(24, 36) =~= h.subrange(20, 32));
}

/// Reads the canonical 36-byte identifier string at `bytes[from..]`.
/// Complete: whenever a canonical identifier string stands at `from`, it
/// is read.
#[verifier::rlimit(100)]
pub fn parse_uuid(bytes: &Vec<u8>, from: usize) -> (r: Option<u128>)
    requires
        from <= bytes@.len(),
    ensures
        match r {
            Some(v) => from + 36 <= bytes@.len() && bytes@.subrange(from as int, from + 36)
                == uuid_bytes(v),
            None => true,
        },
        forall|v: u128|
            #![trigger uuid_bytes(v)]
            from + 36 <= bytes@.len() && bytes@.subrange(from as int, from + 36)
                == uuid_bytes(v) ==> r == Some(v),
{
    if bytes.len() - from < 36 {
        return None;
    }
    if bytes[from + 8] != 45 || bytes[from + 13] != 45 || bytes[from + 18] != 45 || bytes[from
        + 23] != 45 {
        proof {
            assert forall|v: u128|
                from + 36 <= bytes@.len() && bytes@.subrange(from as int, from + 36)
                    == uuid_bytes(v) implies false by {
                lemma_uuid_layout(v);
                assert(bytes@[from + 8] == uuid_bytes(v)[8]);
                assert(bytes@[from + 13] == uuid_bytes(v)[13]);
                assert(bytes@[from + 18] == uuid_bytes(v)[18]);
                assert(bytes@[from + 23] == uuid_bytes(v)[23]);
            }
        }
        return None;
    }
    let mut nib: Vec<u8> = Vec::new();
    push_slice_range(&mut nib, bytes, from, from + 8);
    push_slice_range(&mut nib, bytes, from + 9, from + 13);
    push_slice_range(&mut nib, bytes, from + 14, from + 18);
    push_slice_range(&mut nib, bytes, from + 19, from + 23);
    push_slice_range(&mut nib, bytes, from + 24, from + 36);
    assert(nib@.len() == 32);
    match parse_hex(&nib, 0, 32) {
        Some(v) => {
            proof {
                assert(nib@.subrange(0, 32) =~= nib@);
                crate::ids::lemma_hex_render_parse(nib@);
                let h = hex_digits(v, 32);
                assert(h == nib@);
                assert(h.subrange(0, 8) =~= bytes@.subrange(from as int, from + 8));
                assert(h.subrange(8, 12) =~= bytes@.subrange(from + 9, from + 13));
                assert(h.subrange(12, 16) =~= bytes@.subrange(from + 14, from + 18));
                assert(h.subrange(16, 20) =~= bytes@.subrange(from + 19, from + 23));
                assert(h.subrange(20, 32) =~= bytes@.subrange(from + 24, from + 36));
                assert(bytes@.subrange(from as int, from + 36) =~= uuid_bytes(v));
                assert forall|v2: u128|
                    from + 36 <= bytes@.len() && bytes@.subrange(from as int, from + 36)
                        == uuid_bytes(v2) implies Some(v) == Some(v2) by {
                    lemma_uuid_inj(v, v2);
                }
            }
            Some(v)
        },
        None => {
            proof {
                assert forall|v2: u128|
                    from + 36 <= bytes@.len() && bytes@.subrange(from as int, from + 36)
                        == uuid_bytes(v2) implies false by {
                    lemma_uuid_layout(v2);
                    let h = hex_digits(v2, 32);
                    crate::ids::lemma_hex_digits_are_digits(v2, 32);
                    assert(nib@.subrange(0, 8) =~= bytes@.subrange(from as int, from + 8));
                    assert(bytes@.subrange(from as int, from + 8) =~= bytes@.subrange(
                        from as int,
                        from + 36,
                    ).subrange(0, 8));
                    assert(nib@.subrange(8, 12) =~= bytes@.subrange(from + 9, from + 13));
                    assert(bytes@.subrange(from + 9, from + 13) =~= bytes@.subrange(
                        from as int,
                        from + 36,
                    ).subrange(9, 13));
                    assert(nib@.subrange(12, 16) =~= bytes@.subrange(from + 14, from + 18));
                    assert(bytes@.subrange(from + 14, from + 18) =~= bytes@.subrange(
                        from as int,
                        from + 36,
                    ).subrange(14, 18));
                    assert(nib@.subrange(16, 20) =~= bytes@.subrange(from + 19, from + 23));
                    assert(bytes@.subrange(from + 19, from + 23) =~= bytes@.subrange(
                        from as int,
                        from + 36,
                    ).subrange(19, 23));
                    assert(nib@.subrange(20, 32) =~= bytes@.subrange(from + 24, from + 36));
                    assert(bytes@.subrange(from + 24, from + 36) =~= bytes@.subrange(
                        from as int,
                        from + 36,
                    ).subrange(24, 36));
                    assert(nib@ =~= h);
                    assert(!crate::ids::all_hex_digits(nib@));
                }
            }
            None
        },
    }
}

/// Checks that `key` may serve as a parameter field name.
pub(crate) fn check_key(key: &Vec<u8>) -> (r: bool)
    ensures
        r == valid_key(key@),
{
    if key.len() == 0 {
        return false;
    }
    let mut j: usize = 0;
    while j < key.len()
        invariant
            0 <= j <= key@.len(),
            forall|k: int| 0 <= k < j ==> key_byte(#[trigger] key@[k]),
        decreases key@.len() - j,
    {
        let b = key[j];
        if !((97 <= b && b <= 122) || (48 <= b && b <= 57) || b == 95) {
            assert(!key_byte(key@[j as int]));
            return false;
        }
        j = j + 1;
    }
    let r_id: Vec<u8> = vec![105, 100];
    proof {
        assert(r_id@ =~= key_id());
    }
    if vec_eq(key, &r_id) {
        return false;
    }
    let r_op: Vec<u8> = vec![111, 112, 101, 114, 97, 116, 105, 111, 110];
    proof {
        assert(r_op@ =~= key_operation());
    }
    if vec_eq(key, &r_op) {
        return false;
    }
    let r_fmt: Vec<u8> = vec![102, 111, 114, 109, 97, 116];
    proof {
        assert(r_fmt@ =~= key_format());
    }
    if vec_eq(key, &r_fmt) {
        return false;
    }
    let r_del: Vec<u8> = vec![100, 101, 108, 116, 97, 115];
    proof {
        assert(r_del@ =~= key_deltas());
    }
    if vec_eq(key, &r_del) {
        return false;
    }
    true
}

/// Checks that every byte of `t` may stand unescaped in a JSON string.
pub(crate) fn check_plain(t: &Vec<u8>) -> (r: bool)
    ensures
        r == plain_text(t@),
{
    let mut j: usize = 0;
    while j < t.len()
        invariant
            0 <= j <= t@.len(),
            forall|k: int| 0 <= k < j ==> plain_text_byte(#[trigger] t@[k]),
        decreases t@.len() - j,
    {
        let b = t[j];
        if !(32 <= b && b < 127 && b != 34 && b != 92) {
            assert(!plain_text_byte(t@[j as int]));
            return false;
        }
        j = j + 1;
    }
    true
}

/// Whether some parameter already uses this field name.
fn contains_key(params: &Vec<Param>, key: &Vec<u8>) -> (r: bool)
    ensures
        r == exists|k: int| 0 <= k < params@.len() && #[trigger] params@[k].key@ == key@,
{
    let mut j: usize = 0;
    while j < params.len()
        invariant
            0 <= j <= params@.len(),
            forall|k: int| 0 <= k < j ==> #[trigger] params@[k].key@ != key@,
        decreases params@.len() - j,
    {
        if vec_eq(&params[j].key, key) {
            assert(params@[j as int].key@ == key@);
            return true;
        }
        j = j + 1;
    }
    false
}

/// Wherever the chained lookup answers, the name it answered for is the
/// operation's own.
proof fn lemma_op_unwire_sound(s: Seq<u8>)
    ensures
        match op_unwire_spec(s) {
            Some(op) => s == op_wire_spec(op),
            None => true,
        },
{
}

proof fn lemma_format_unwire_sound(s: Seq<u8>)
    ensures
        match format_unwire_spec(s) {
            Some(f) => s == format_wire_spec(f),
            None => true,
        },
{
}



/// Extending the parameter region by one parameter's bytes.
proof fn lemma_param_step(bytes: Seq<u8>, pstart: int, pos: int, vend: int, ps: Seq<Param>, p: Param)
    requires
        0 <= pstart <= pos <= vend <= bytes.len(),
        bytes.subrange(pstart, pos) == params_bytes(ps),
        bytes.subrange(pos, vend) == param_bytes(p),
    ensures
        bytes.subrange(pstart, vend) == params_bytes(ps.push(p)),
{
    lemma_params_bytes_concat(ps, seq![p]);
    assert(seq![p].drop_first() =~= Seq::<Param>::empty());
    assert(params_bytes(Seq::<Param>::empty()) =~= Seq::<u8>::empty());
    assert(params_bytes(seq![p]) =~= param_bytes(p));
    assert(ps.push(p) =~= ps + seq![p]);
    assert(bytes.subrange(pstart, vend) =~= bytes.subrange(pstart, pos) + bytes.subrange(
        pos,
        vend,
    ));
}

/// Parses the canonical envelope document. This reads exactly the form
/// `encode_envelope` emits; whenever it accepts, the returned envelope is
/// well formed and encodes back to the very same bytes.
#[verifier::rlimit(60)]
pub fn decode_envelope(bytes: &Vec<u8>) -> (r: Option<Envelope>)
    ensures
        match r {
            Some(env) => env_wf(env) && bytes@ == envelope_bytes(env),
            None => true,
        },
{
    let n = bytes.len();
    let head: Vec<u8> = vec![123, 34, 105, 100, 34, 58, 34];
    proof {
        assert(head@ =~= mark_head());
    }
    if !match_at(bytes, 0, &head) {
        return None;
    }
    let id = match parse_uuid(bytes, 7) {
        Some(v) => v,
        None => {
            return None;
        },
    };
    let mop: Vec<u8> = vec![34, 44, 34, 111, 112, 101, 114, 97, 116, 105, 111, 110, 34, 58, 34];
    proof {
        assert(mop@ =~= mark_operation());
    }
    if !match_at(bytes, 43, &mop) {
        return None;
    }
    let j = match scan_until(bytes, 58, 34) {
        Some(j) => j,
        None => {
            return None;
        },
    };
    let mut seg: Vec<u8> = Vec::new();
    push_slice_range(&mut seg, bytes, 58, j);
    let op = match op_unwire(&seg) {
        Some(op) => op,
        None => {
            return None;
        },
    };
    proof {
        lemma_op_unwire_sound(seg@);
    }
    let fmtm: Vec<u8> = vec![44, 34, 102, 111, 114, 109, 97, 116, 34, 58, 34];
    proof {
        assert(fmtm@ =~= mark_format());
    }
    let mut pos: usize = j + 1;
    let mut params: Vec<Param> = Vec::new();
    let ghost pstart: int = j as int + 1;
    loop
        invariant
            0 <= pstart,
            pstart <= pos <= n,
            n == bytes@.len(),
            n <= usize::MAX,
            fmtm@ == mark_format(),
            bytes@.subrange(pstart, pos as int) == params_bytes(params@),
            forall|k: int| 0 <= k < params@.len() ==> param_wf(#[trigger] params@[k]),
            forall|k1: int, k2: int|
                0 <= k1 < k2 < params@.len() ==> params@[k1].key@ != params@[k2].key@,
        ensures
            pstart <= pos,
            pos + 11 <= n,
            bytes@.subrange(pstart, pos as int) == params_bytes(params@),
            bytes@.subrange(pos as int, pos + 11) == mark_format(),
            forall|k: int| 0 <= k < params@.len() ==> param_wf(#[trigger] params@[k]),
            forall|k1: int, k2: int|
                0 <= k1 < k2 < params@.len() ==> params@[k1].key@ != params@[k2].key@,
        decreases n - pos,
    {
        if match_at(bytes, pos, &fmtm) {
            break;
        }
        if n - pos < 2 {
            return None;
        }
        if bytes[pos] != 44 || bytes[pos + 1] != 34 {
            return None;
        }
        let kend = match scan_until(bytes, pos + 2, 34) {
            Some(k) => k,
            None => {
                return None;
            },
        };
        let mut key: Vec<u8> = Vec::new();
        push_slice_range(&mut key, bytes, pos + 2, kend);
        if !check_key(&key) {
            return None;
        }
        if contains_key(&params, &key) {
            return None;
        }
        if n - kend < 3 {
            return None;
        }
        if bytes[kend + 1] != 58 {
            return None;
        }
        let vstart = kend + 2;
        let b0 = bytes[vstart];
        let value: ParamValue;
        let vend: usize;
        if b0 == 34 {
            let tend = match scan_until(bytes, vstart + 1, 34) {
                Some(t) => t,
                None => {
                    return None;
                },
            };
            let mut content: Vec<u8> = Vec::new();
            push_slice_range(&mut content, bytes, vstart + 1, tend);
            if !check_plain(&content) {
                return None;
            }
            value = ParamValue::Text(content);
            vend = tend + 1;
            proof {
                assert(bytes@.subrange(vstart as int, vend as int) =~= value_bytes(value));
            }
        } else if 48 <= b0 && b0 <= 57 {
            let (v, dend) = match parse_number_run(bytes, vstart) {
                Some(p) => p,
                None => {
                    return None;
                },
            };
            value = ParamValue::Uint(v);
            vend = dend;
            proof {
                assert(bytes@.subrange(vstart as int, vend as int) =~= value_bytes(value));
            }
        } else if b0 == 123 {
            let flm: Vec<u8> = vec![123, 34, 70, 114, 111, 109, 76, 97, 116, 101, 115, 116, 34, 58];
            proof {
                assert(flm@ =~= mark_from_latest());
            }
            let exm: Vec<u8> = vec![123, 34, 69, 120, 97, 99, 116, 34, 58];
            proof {
                assert(exm@ =~= mark_exact());
            }
            if match_at(bytes, vstart, &flm) {
                let (v, dend) = match parse_number_run(bytes, vstart + 14) {
                    Some(p) => p,
                    None => {
                        return None;
                    },
                };
                if dend >= n {
                    return None;
                }
                if bytes[dend] != 125 {
                    return None;
                }
                value = ParamValue::Block(Bound::FromLatest(v));
                vend = dend + 1;
                proof {
                    assert(bytes@.subrange(vstart as int, vend as int) =~= value_bytes(value));
                }
            } else if match_at(bytes, vstart, &exm) {
                let (v, dend) = match parse_number_run(bytes, vstart + 9) {
                    Some(p) => p,
                    None => {
                        return None;
                    },
                };
                if dend >= n {
                    return None;
                }
                if bytes[dend] != 125 {
                    return None;
                }
                value = ParamValue::Block(Bound::Exact(v));
                vend = dend + 1;
                proof {
                    assert(bytes@.subrange(vstart as int, vend as int) =~= value_bytes(value));
                }
            } else {
                return None;
            }
        } else {
            return None;
        }
        let p = Param { key, value };
        proof {
            assert(bytes@.subrange(pos as int, pos + 2) =~= seq![44u8, 34u8]);
            assert(bytes@.subrange(kend as int, kend + 2) =~= seq![34u8, 58u8]);
            assert(bytes@.subrange(pos as int, vend as int) =~= seq![44u8, 34u8] + p.key@ + seq![
                34u8,
                58u8,
            ] + value_bytes(p.value));
            lemma_param_step(bytes@, pstart, pos as int, vend as int, params@, p);
        }
        params.push(p);
        pos = vend;
    }
    let fstart = pos + 11;
    let fend = match scan_until(bytes, fstart, 34) {
        Some(f) => f,
        None => {
            return None;
        },
    };
    let mut fseg: Vec<u8> = Vec::new();
    push_slice_range(&mut fseg, bytes, fstart, fend);
    let format = match format_unwire(&fseg) {
        Some(f) => f,
        None => {
            return None;
        },
    };
    proof {
        lemma_format_unwire_sound(fseg@);
    }
    let deltm: Vec<u8> = vec![34, 44, 34, 100, 101, 108, 116, 97, 115, 34, 58];
    proof {
        assert(deltm@ =~= mark_deltas());
    }
    if !match_at(bytes, fend, &deltm) {
        return None;
    }
    let bstart = fend + 11;
    let tv: Vec<u8> = vec![116, 114, 117, 101];
    proof {
        assert(tv@ =~= bool_bytes(true));
    }
    let fv: Vec<u8> = vec![102, 97, 108, 115, 101];
    proof {
        assert(fv@ =~= bool_bytes(false));
    }
    let deltas: bool;
    let bend: usize;
    if match_at(bytes, bstart, &tv) {
        deltas = true;
        bend = bstart + 4;
    } else if match_at(bytes, bstart, &fv) {
        deltas = false;
        bend = bstart + 5;
    } else {
        return None;
    }
    if bend >= n {
        return None;
    }
    if bytes[bend] != 125 {
        return None;
    }
    if bend + 1 != n {
        return None;
    }
    let ghost jj = j as int;
    let ghost pp = pos as int;
    let ghost ff = fend as int;
    let ghost bb = bend as int;
    let env = Envelope { id, operation: op, params, format, deltas };
    proof {
        assert(bytes@.subrange(0, 43) =~= bytes@.subrange(0, 7) + bytes@.subrange(7, 43));
        assert(bytes@.subrange(0, 43) == mark_head() + uuid_bytes(id));
        assert(bytes@.subrange(0, 58) =~= bytes@.subrange(0, 43) + bytes@.subrange(43, 58));
        assert(bytes@.subrange(0, 58) == mark_head() + uuid_bytes(id) + mark_operation());
        assert(bytes@.subrange(0, jj) =~= bytes@.subrange(0, 58) + bytes@.subrange(58, jj));
        assert(bytes@.subrange(58, jj) == op_wire_spec(op));
        assert(bytes@.subrange(jj, jj + 1) =~= seq![34u8]);
        assert(bytes@.subrange(0, jj + 1) =~= bytes@.subrange(0, jj) + bytes@.subrange(
            jj,
            jj + 1,
        ));
        assert(bytes@.subrange(0, pp) =~= bytes@.subrange(0, jj + 1) + bytes@.subrange(
            jj + 1,
            pp,
        ));
        assert(bytes@.subrange(0, pp) == mark_head() + uuid_bytes(id) + mark_operation()
            + op_wire_spec(op) + seq![34u8] + params_bytes(env.params@));
        assert(bytes@.subrange(0, pp + 11) =~= bytes@.subrange(0, pp) + bytes@.subrange(
            pp,
            pp + 11,
        ));
        assert(bytes@.subrange(0, ff) =~= bytes@.subrange(0, pp + 11) + bytes@.subrange(
            pp + 11,
            ff,
        ));
        assert(bytes@.subrange(pp + 11, ff) == format_wire_spec(format));
        assert(bytes@.subrange(0, ff + 11) =~= bytes@.subrange(0, ff) + bytes@.subrange(
            ff,
            ff + 11,
        ));
        assert(bytes@.subrange(0, bb) =~= bytes@.subrange(0, ff + 11) + bytes@.subrange(
            ff + 11,
            bb,
        ));
        assert(bytes@.subrange(ff + 11, bb) == bool_bytes(deltas));
        assert(bytes@.subrange(bb, bb + 1) =~= seq![125u8]);
        assert(bytes@ =~= bytes@.subrange(0, bb) + bytes@.subrange(bb, bb + 1));
        assert(bytes@ == envelope_bytes(env));
    }
    Some(env)
}


/// No quote byte anywhere in `s`.
pub open spec fn no_quote(s: Seq<u8>) -> bool {
    forall|i: int| 0 <= i < s.len() ==> s[i] != 34
}

/// A quote-terminated token reads one way: equal documents split at the
/// first quote into equal tokens and equal rests.
pub(crate) proof fn lemma_quote_token_unique(s1: Seq<u8>, t1: Seq<u8>, s2: Seq<u8>, t2: Seq<u8>)
    requires
        s1 + seq![34u8] + t1 == s2 + seq![34u8] + t2,
        no_quote(s1),
        no_quote(s2),
    ensures
        s1 == s2,
        t1 == t2,
{
    let l = s1 + seq![34u8] + t1;
    let r = s2 + seq![34u8] + t2;
    if s1.len() < s2.len() {
        assert(l[s1.len() as int] == 34);
        assert(r[s1.len() as int] == s2[s1.len() as int]);
        assert(false);
    }
    if s2.len() < s1.len() {
        assert(r[s2.len() as int] == 34);
        assert(l[s2.len() as int] == s1[s2.len() as int]);
        assert(false);
    }
    assert(l.len() == r.len());
    assert(t1.len() == t2.len());
    assert(s1 =~= s2) by {
        assert(forall|i: int| 0 <= i < s1.len() ==> l[i] == #[trigger] s1[i] && r[i] == s2[i]);
    }
    assert(t1 =~= t2) by {
        assert(forall|i: int|
            0 <= i < t1.len() ==> l[s1.len() + 1 + i] == #[trigger] t1[i] && r[s1.len() + 1 + i]
                == t2[i]);
    }
}

/// A maximal digit run reads one way: equal documents split at the first
/// non-digit into equal runs and equal rests.
proof fn lemma_digit_run_unique(d1: Seq<u8>, r1: Seq<u8>, d2: Seq<u8>, r2: Seq<u8>)
    requires
        d1 + r1 == d2 + r2,
        all_dec_digits(d1),
        all_dec_digits(d2),
        r1.len() > 0,
        !is_dec_digit(r1[0]),
        r2.len() > 0,
        !is_dec_digit(r2[0]),
    ensures
        d1 == d2,
        r1 == r2,
{
    let l = d1 + r1;
    let r = d2 + r2;
    if d1.len() < d2.len() {
        assert(l[d1.len() as int] == r1[0]);
        assert(r[d1.len() as int] == d2[d1.len() as int]);
        assert(is_dec_digit(d2[d1.len() as int]));
        assert(false);
    }
    if d2.len() < d1.len() {
        assert(r[d2.len() as int] == r2[0]);
        assert(l[d2.len() as int] == d1[d2.len() as int]);
        assert(is_dec_digit(d1[d2.len() as int]));
        assert(false);
    }
    assert(l.len() == d1.len() + r1.len());
    assert(r.len() == d2.len() + r2.len());
    assert(l.len() == r.len());
    assert(d1.len() == d2.len());
    assert(r1.len() == r2.len());
    assert(d1 =~= d2) by {
        assert(forall|i: int| 0 <= i < d1.len() ==> l[i] == #[trigger] d1[i] && r[i] == d2[i]);
    }
    assert(r1 =~= r2) by {
        assert(forall|i: int|
            0 <= i < r1.len() ==> l[d1.len() + i] == #[trigger] r1[i] && r[d1.len() + i]
                == r2[i]);
    }
}

/// The first quote at or past `start` stands exactly where the layout
/// says one stands.
pub(crate) proof fn lemma_quote_scan_pins(bytes: Seq<u8>, start: int, qpos: int, j: int)
    requires
        0 <= start <= qpos < bytes.len(),
        forall|k: int| start <= k < qpos ==> bytes[k] != 34,
        bytes[qpos] == 34,
        start <= j < bytes.len(),
        bytes[j] == 34,
        forall|k: int| start <= k < j ==> bytes[k] != 34,
    ensures
        j == qpos,
{
}

/// Equal concatenations with an equal prefix have equal continuations.
pub(crate) proof fn lemma_strip_prefix(p: Seq<u8>, x: Seq<u8>, y: Seq<u8>)
    requires
        p + x == p + y,
    ensures
        x == y,
{
    assert((p + x).len() == p.len() + x.len());
    assert((p + y).len() == p.len() + y.len());
    assert((p + x).len() == (p + y).len());
    assert(x.len() == y.len());
    assert(x =~= y) by {
        assert(forall|i: int|
            0 <= i < x.len() ==> (p + x)[p.len() + i] == #[trigger] x[i] && (p + y)[p.len() + i]
                == y[i]);
    }
}

/// Operation names are quote-free and nonempty.
proof fn lemma_op_wire_plain(op: Operation)
    ensures
        no_quote(op_wire_spec(op)),
        op_wire_spec(op).len() >= 1,
{
    let s = op_wire_spec(op);
    match op {
        Operation::GetStatus => assert(no_quote(s)),
        Operation::GetBlocks => assert(no_quote(s)),
        Operation::GetLogs => assert(no_quote(s)),
        Operation::GetTxs => assert(no_quote(s)),
        Operation::GetReceipts => assert(no_quote(s)),
        Operation::GetFuelLogsDecoded => assert(no_quote(s)),
        Operation::GetMessages => assert(no_quote(s)),
        Operation::GetUnspentUtxos => assert(no_quote(s)),
        Operation::GetUniswapV2Pairs => assert(no_quote(s)),
        Operation::GetUniswapV2Prices => assert(no_quote(s)),
        Operation::GetUniswapV3Fees => assert(no_quote(s)),
        Operation::GetUniswapV3Pools => assert(no_quote(s)),
        Operation::GetUniswapV3Positions => assert(no_quote(s)),
        Operation::GetUniswapV3Prices => assert(no_quote(s)),
        Operation::GetCurveTokens => assert(no_quote(s)),
        Operation::GetCurvePools => assert(no_quote(s)),
        Operation::GetCurvePrices => assert(no_quote(s)),
        Operation::GetTransfers => assert(no_quote(s)),
        Operation::GetErc20 => assert(no_quote(s)),
        Operation::GetErc20Approvals => assert(no_quote(s)),
        Operation::GetErc20Transfers => assert(no_quote(s)),
        Operation::GetSparkMarket => assert(no_quote(s)),
        Operation::GetSparkOrder => assert(no_quote(s)),
        Operation::GetSrc20 => assert(no_quote(s)),
        Operation::GetSrc7 => assert(no_quote(s)),
        Operation::GetMiraV1Pools => assert(no_quote(s)),
        Operation::GetMiraV1Liqudity => assert(no_quote(s)),
        Operation::GetMiraV1Swaps => assert(no_quote(s)),
    }
}

/// Format names are quote-free and nonempty.
proof fn lemma_format_wire_plain(f: Format)
    ensures
        no_quote(format_wire_spec(f)),
        format_wire_spec(f).len() >= 1,
{
    let s = format_wire_spec(f);
    match f {
        Format::JsonStream => assert(no_quote(s)),
        Format::Arrow => assert(no_quote(s)),
        Format::ArrowStream => assert(no_quote(s)),
        Format::ArrowIpc => assert(no_quote(s)),
        Format::CsvStream => assert(no_quote(s)),
    }
}

/// The chained lookup finds every operation under its own name.
proof fn lemma_op_unwire_complete(op: Operation)
    ensures
        op_unwire_spec(op_wire_spec(op)) == Some(op),
{
    match op {
        Operation::GetStatus => {
            assert(op_unwire_spec(op_wire_spec(Operation::GetStatus)) == Some(Operation::GetStatus));
        },
        Operation::GetBlocks => {
            assert(op_wire_spec(Operation::GetBlocks)[3] != op_wire_spec(Operation::GetStatus)[3]);
            assert(op_unwire_spec(op_wire_spec(Operation::GetBlocks)) == Some(Operation::GetBlocks));
        },
        Operation::GetLogs => {
            assert(op_wire_spec(Operation::GetLogs).len() != op_wire_spec(Operation::GetStatus).len());
            assert(op_wire_spec(Operation::GetLogs).len() != op_wire_spec(Operation::GetBlocks).len());
            assert(op_unwire_spec(op_wire_spec(Operation::GetLogs)) == Some(Operation::GetLogs));
        },
        Operation::GetTxs => {
            assert(op_wire_spec(Operation::GetTxs).len() != op_wire_spec(Operation::GetStatus).len());
            assert(op_wire_spec(Operation::GetTxs).len() != op_wire_spec(Operation::GetBlocks).len());
            assert(op_wire_spec(Operation::GetTxs).len() != op_wire_spec(Operation::GetLogs).len());
            assert(op_unwire_spec(op_wire_spec(Operation::GetTxs)) == Some(Operation::GetTxs));
        },
        Operation::GetReceipts => {
            assert(op_wire_spec(Operation::GetReceipts).len() != op_wire_spec(Operation::GetStatus).len());
            assert(op_wire_spec(Operation::GetReceipts).len() != op_wire_spec(Operation::GetBlocks).len());
            assert(op_wire_spec(Operation::GetReceipts).len() != op_wire_spec(Operation::GetLogs).len());
            assert(op_wire_spec(Operation::GetReceipts).len() != op_wire_spec(Operation::GetTxs).len());
            assert(op_unwire_spec(op_wire_spec(Operation::GetReceipts)) == Some(Operation::GetReceipts));
        },
        Operation::GetFuelLogsDecoded => {
            assert(op_wire_spec(Operation::GetFuelLogsDecoded).len() != op_wire_spec(Operation::GetStatus).len());
            assert(op_wire_spec(Operation::GetFuelLogsDecoded).len() != op_wire_spec(Operation::GetBlocks).len());
            assert(op_wire_spec(Operation::GetFuelLogsDecoded).len() != op_wire_spec(Operation::GetLogs).len());
            assert(op_wire_spec(Operation::GetFuelLogsDecoded).len() != op_wire_spec(Operation::GetTxs).len());
            assert(op_wire_spec(Operation::GetFuelLogsDecoded).len() != op_wire_spec(Operation::GetReceipts).len());
            assert(op_unwire_spec(op_wire_spec(Operation::GetFuelLogsDecoded)) == Some(Operation::GetFuelLogsDecoded));
        },
        Operation::GetMessages => {
            assert(op_wire_spec(Operation::GetMessages).len() != op_wire_spec(Operation::GetStatus).len());
            assert(op_wire_spec(Operation::GetMessages).len() != op_wire_spec(Operation::GetBlocks).len());
            assert(op_wire_spec(Operation::GetMessages).len() != op_wire_spec(Operation::GetLogs).len());
            assert(op_wire_spec(Operation::GetMessages).len() != op_wire_spec(Operation::GetTxs).len());
            assert(op_wire_spec(Operation::GetMessages)[3] != op_wire_spec(Operation::GetReceipts)[3]);
            assert(op_wire_spec(Operation::GetMessages).len() != op_wire_spec(Operation::GetFuelLogsDecoded).len());
            assert(op_unwire_spec(op_wire_spec(Operation::GetMessages)) == Some(Operation::GetMessages));
        },
        Operation::GetUnspentUtxos => {
            assert(op_wire_spec(Operation::GetUnspentUtxos).len() != op_wire_spec(Operation::GetStatus).len());
            assert(op_wire_spec(Operation::GetUnspentUtxos).len() != op_wire_spec(Operation::GetBlocks).len());
            assert(op_wire_spec(Operation::GetUnspentUtxos).len() != op_wire_spec(Operation::GetLogs).len());
            assert(op_wire_spec(Operation::GetUnspentUtxos).len() != op_wire_spec(Operation::GetTxs).len());
            assert(op_wire_spec(Operation::GetUnspentUtxos).len() != op_wire_spec(Operation::GetReceipts).len());
            assert(op_wire_spec(Operation::GetUnspentUtxos).len() != op_wire_spec(Operation::GetFuelLogsDecoded).len());
            assert(op_wire_spec(Operation::GetUnspentUtxos).len() != op_wire_spec(Operation::GetMessages).len());
            assert(op_unwire_spec(op_wire_spec(Operation::GetUnspentUtxos)) == Some(Operation::GetUnspentUtxos));
        },
        Operation::GetUniswapV2Pairs => {
            assert(op_wire_spec(Operation::GetUniswapV2Pairs).len() != op_wire_spec(Operation::GetStatus).len());
            assert(op_wire_spec(Operation::GetUniswapV2Pairs).len() != op_wire_spec(Operation::GetBlocks).len());
            assert(op_wire_spec(Operation::GetUniswapV2Pairs).len() != op_wire_spec(Operation::GetLogs).len());
            assert(op_wire_spec(Operation::GetUniswapV2Pairs).len() != op_wire_spec(Operation::GetTxs).len());
            assert(op_wire_spec(Operation::GetUniswapV2Pairs).len() != op_wire_spec(Operation::GetReceipts).len());
            assert(op_wire_spec(Operation::GetUniswapV2Pairs).len() != op_wire_spec(Operation::GetFuelLogsDecoded).len());
            assert(op_wire_spec(Operation::GetUniswapV2Pairs).len() != op_wire_spec(Operation::GetMessages).len());
            assert(op_wire_spec(Operation::GetUniswapV2Pairs).len() != op_wire_spec(Operation::GetUnspentUtxos).len());
            assert(op_unwire_spec(op_wire_spec(Operation::GetUniswapV2Pairs)) == Some(Operation::GetUniswapV2Pairs));
        },
        Operation::GetUniswapV2Prices => {
            assert(op_wire_spec(Operation::GetUniswapV2Prices).len() != op_wire_spec(Operation::GetStatus).len());
            assert(op_wire_spec(Operation::GetUniswapV2Prices).len() != op_wire_spec(Operation::GetBlocks).len());
            assert(op_wire_spec(Operation::GetUniswapV2Prices).len() != op_wire_spec(Operation::GetLogs).len());
            assert(op_wire_spec(Operation::GetUniswapV2Prices).len() != op_wire_spec(Operation::GetTxs).len());
            assert(op_wire_spec(Operation::GetUniswapV2Prices).len() != op_wire_spec(Operation::GetReceipts).len());
            assert(op_wire_spec(Operation::GetUniswapV2Prices).len() != op_wire_spec(Operation::GetFuelLogsDecoded).len());
            assert(op_wire_spec(Operation::GetUniswapV2Prices).len() != op_wire_spec(Operation::GetMessages).len());
            assert(op_wire_spec(Operation::GetUniswapV2Prices).len() != op_wire_spec(Operation::GetUnspentUtxos).len());
            assert(op_wire_spec(Operation::GetUniswapV2Prices).len() != op_wire_spec(Operation::GetUniswapV2Pairs).len());
            assert(op_unwire_spec(op_wire_spec(Operation::GetUniswapV2Prices)) == Some(Operation::GetUniswapV2Prices));
        },
        Operation::GetUniswapV3Fees => {
            assert(op_wire_spec(Operation::GetUniswapV3Fees).len() != op_wire_spec(Operation::GetStatus).len());
            assert(op_wire_spec(Operation::GetUniswapV3Fees).len() != op_wire_spec(Operation::GetBlocks).len());
            assert(op_wire_spec(Operation::GetUniswapV3Fees).len() != op_wire_spec(Operation::GetLogs).len());
            assert(op_wire_spec(Operation::GetUniswapV3Fees).len() != op_wire_spec(Operation::GetTxs).len());
            assert(op_wire_spec(Operation::GetUniswapV3Fees).len() != op_wire_spec(Operation::GetReceipts).len());
            assert(op_wire_spec(Operation::GetUniswapV3Fees).len() != op_wire_spec(Operation::GetFuelLogsDecoded).len());
            assert(op_wire_spec(Operation::GetUniswapV3Fees).len() != op_wire_spec(Operation::GetMessages).len());
            assert(op_wire_spec(Operation::GetUniswapV3Fees).len() != op_wire_spec(Operation::GetUnspentUtxos).len());
            assert(op_wire_spec(Operation::GetUniswapV3Fees).len() != op_wire_spec(Operation::GetUniswapV2Pairs).len());
            assert(op_wire_spec(Operation::GetUniswapV3Fees).len() != op_wire_spec(Operation::GetUniswapV2Prices).len());
            assert(op_unwire_spec(op_wire_spec(Operation::GetUniswapV3Fees)) == Some(Operation::GetUniswapV3Fees));
        },
        Operation::GetUniswapV3Pools => {
            assert(op_wire_spec(Operation::GetUniswapV3Pools).len() != op_wire_spec(Operation::GetStatus).len());
            assert(op_wire_spec(Operation::GetUniswapV3Pools).len() != op_wire_spec(Operation::GetBlocks).len());
            assert(op_wire_spec(Operation::GetUniswapV3Pools).len() != op_wire_spec(Operation::GetLogs).len());
            assert(op_wire_spec(Operation::GetUniswapV3Pools).len() != op_wire_spec(Operation::GetTxs).len());
            assert(op_wire_spec(Operation::GetUniswapV3Pools).len() != op_wire_spec(Operation::GetReceipts).len());
            assert(op_wire_spec(Operation::GetUniswapV3Pools).len() != op_wire_spec(Operation::GetFuelLogsDecoded).len());
            assert(op_wire_spec(Operation::GetUniswapV3Pools).len() != op_wire_spec(Operation::GetMessages).len());
            assert(op_wire_spec(Operation::GetUniswapV3Pools).len() != op_wire_spec(Operation::GetUnspentUtxos).len());
            assert(op_wire_spec(Operation::GetUniswapV3Pools)[11] != op_wire_spec(Operation::GetUniswapV2Pairs)[11]);
            assert(op_wire_spec(Operation::GetUniswapV3Pools).len() != op_wire_spec(Operation::GetUniswapV2Prices).len());
            assert(op_wire_spec(Operation::GetUniswapV3Pools).len() != op_wire_spec(Operation::GetUniswapV3Fees).len());
            assert(op_unwire_spec(op_wire_spec(Operation::GetUniswapV3Pools)) == Some(Operation::GetUniswapV3Pools));
        },
        Operation::GetUniswapV3Positions => {
            assert(op_wire_spec(Operation::GetUniswapV3Positions).len() != op_wire_spec(Operation::GetStatus).len());
            assert(op_wire_spec(Operation::GetUniswapV3Positions).len() != op_wire_spec(Operation::GetBlocks).len());
            assert(op_wire_spec(Operation::GetUniswapV3Positions).len() != op_wire_spec(Operation::GetLogs).len());
            assert(op_wire_spec(Operation::GetUniswapV3Positions).len() != op_wire_spec(Operation::GetTxs).len());
            assert(op_wire_spec(Operation::GetUniswapV3Positions).len() != op_wire_spec(Operation::GetReceipts).len());
            assert(op_wire_spec(Operation::GetUniswapV3Positions).len() != op_wire_spec(Operation::GetFuelLogsDecoded).len());
            assert(op_wire_spec(Operation::GetUniswapV3Positions).len() != op_wire_spec(Operation::GetMessages).len());
            assert(op_wire_spec(Operation::GetUniswapV3Positions).len() != op_wire_spec(Operation::GetUnspentUtxos).len());
            assert(op_wire_spec(Operation::GetUniswapV3Positions).len() != op_wire_spec(Operation::GetUniswapV2Pairs).len());
            assert(op_wire_spec(Operation::GetUniswapV3Positions).len() != op_wire_spec(Operation::GetUniswapV2Prices).len());
            assert(op_wire_spec(Operation::GetUniswapV3Positions).len() != op_wire_spec(Operation::GetUniswapV3Fees).len());
            assert(op_wire_spec(Operation::GetUniswapV3Positions).len() != op_wire_spec(Operation::GetUniswapV3Pools).len());
            assert(op_unwire_spec(op_wire_spec(Operation::GetUniswapV3Positions)) == Some(Operation::GetUniswapV3Positions));
        },
        Operation::GetUniswapV3Prices => {
            assert(op_wire_spec(Operation::GetUniswapV3Prices).len() != op_wire_spec(Operation::GetStatus).len());
            assert(op_wire_spec(Operation::GetUniswapV3Prices).len() != op_wire_spec(Operation::GetBlocks).len());
            assert(op_wire_spec(Operation::GetUniswapV3Prices).len() != op_wire_spec(Operation::GetLogs).len());
            assert(op_wire_spec(Operation::GetUniswapV3Prices).len() != op_wire_spec(Operation::GetTxs).len());
            assert(op_wire_spec(Operation::GetUniswapV3Prices).len() != op_wire_spec(Operation::GetReceipts).len());
            assert(op_wire_spec(Operation::GetUniswapV3Prices).len() != op_wire_spec(Operation::GetFuelLogsDecoded).len());
            assert(op_wire_spec(Operation::GetUniswapV3Prices).len() != op_wire_spec(Operation::GetMessages).len());
            assert(op_wire_spec(Operation::GetUniswapV3Prices).len() != op_wire_spec(Operation::GetUnspentUtxos).len());
            assert(op_wire_spec(Operation::GetUniswapV3Prices).len() != op_wire_spec(Operation::GetUniswapV2Pairs).len());
            assert(op_wire_spec(Operation::GetUniswapV3Prices)[11] != op_wire_spec(Operation::GetUniswapV2Prices)[11]);
            assert(op_wire_spec(Operation::GetUniswapV3Prices).len() != op_wire_spec(Operation::GetUniswapV3Fees).len());
            assert(op_wire_spec(Operation::GetUniswapV3Prices).len() != op_wire_spec(Operation::GetUniswapV3Pools).len());
            assert(op_wire_spec(Operation::GetUniswapV3Prices).len() != op_wire_spec(Operation::GetUniswapV3Positions).len());
            assert(op_unwire_spec(op_wire_spec(Operation::GetUniswapV3Prices)) == Some(Operation::GetUniswapV3Prices));
        },
        Operation::GetCurveTokens => {
            assert(op_wire_spec(Operation::GetCurveTokens).len() != op_wire_spec(Operation::GetStatus).len());
            assert(op_wire_spec(Operation::GetCurveTokens).len() != op_wire_spec(Operation::GetBlocks).len());
            assert(op_wire_spec(Operation::GetCurveTokens).len() != op_wire_spec(Operation::GetLogs).len());
            assert(op_wire_spec(Operation::GetCurveTokens).len() != op_wire_spec(Operation::GetTxs).len());
            assert(op_wire_spec(Operation::GetCurveTokens).len() != op_wire_spec(Operation::GetReceipts).len());
            assert(op_wire_spec(Operation::GetCurveTokens)[3] != op_wire_spec(Operation::GetFuelLogsDecoded)[3]);
            assert(op_wire_spec(Operation::GetCurveTokens).len() != op_wire_spec(Operation::GetMessages).len());
            assert(op_wire_spec(Operation::GetCurveTokens).len() != op_wire_spec(Operation::GetUnspentUtxos).len());
            assert(op_wire_spec(Operation::GetCurveTokens).len() != op_wire_spec(Operation::GetUniswapV2Pairs).len());
            assert(op_wire_spec(Operation::GetCurveTokens).len() != op_wire_spec(Operation::GetUniswapV2Prices).len());
            assert(op_wire_spec(Operation::GetCurveTokens).len() != op_wire_spec(Operation::GetUniswapV3Fees).len());
            assert(op_wire_spec(Operation::GetCurveTokens).len() != op_wire_spec(Operation::GetUniswapV3Pools).len());
            assert(op_wire_spec(Operation::GetCurveTokens).len() != op_wire_spec(Operation::GetUniswapV3Positions).len());
            assert(op_wire_spec(Operation::GetCurveTokens).len() != op_wire_spec(Operation::GetUniswapV3Prices).len());
            assert(op_unwire_spec(op_wire_spec(Operation::GetCurveTokens)) == Some(Operation::GetCurveTokens));
        },
        Operation::GetCurvePools => {
            assert(op_wire_spec(Operation::GetCurvePools).len() != op_wire_spec(Operation::GetStatus).len());
            assert(op_wire_spec(Operation::GetCurvePools).len() != op_wire_spec(Operation::GetBlocks).len());
            assert(op_wire_spec(Operation::GetCurvePools).len() != op_wire_spec(Operation::GetLogs).len());
            assert(op_wire_spec(Operation::GetCurvePools).len() != op_wire_spec(Operation::GetTxs).len());
            assert(op_wire_spec(Operation::GetCurvePools).len() != op_wire_spec(Operation::GetReceipts).len());
            assert(op_wire_spec(Operation::GetCurvePools).len() != op_wire_spec(Operation::GetFuelLogsDecoded).len());
            assert(op_wire_spec(Operation::GetCurvePools).len() != op_wire_spec(Operation::GetMessages).len());
            assert(op_wire_spec(Operation::GetCurvePools).len() != op_wire_spec(Operation::GetUnspentUtxos).len());
            assert(op_wire_spec(Operation::GetCurvePools).len() != op_wire_spec(Operation::GetUniswapV2Pairs).len());
            assert(op_wire_spec(Operation::GetCurvePools).len() != op_wire_spec(Operation::GetUniswapV2Prices).len());
            assert(op_wire_spec(Operation::GetCurvePools).len() != op_wire_spec(Operation::GetUniswapV3Fees).len());
            assert(op_wire_spec(Operation::GetCurvePools).len() != op_wire_spec(Operation::GetUniswapV3Pools).len());
            assert(op_wire_spec(Operation::GetCurvePools).len() != op_wire_spec(Operation::GetUniswapV3Positions).len());
            assert(op_wire_spec(Operation::GetCurvePools).len() != op_wire_spec(Operation::GetUniswapV3Prices).len());
            assert(op_wire_spec(Operation::GetCurvePools).len() != op_wire_spec(Operation::GetCurveTokens).len());
            assert(op_unwire_spec(op_wire_spec(Operation::GetCurvePools)) == Some(Operation::GetCurvePools));
        },
        Operation::GetCurvePrices => {
            assert(op_wire_spec(Operation::GetCurvePrices).len() != op_wire_spec(Operation::GetStatus).len());
            assert(op_wire_spec(Operation::GetCurvePrices).len() != op_wire_spec(Operation::GetBlocks).len());
            assert(op_wire_spec(Operation::GetCurvePrices).len() != op_wire_spec(Operation::GetLogs).len());
            assert(op_wire_spec(Operation::GetCurvePrices).len() != op_wire_spec(Operation::GetTxs).len());
            assert(op_wire_spec(Operation::GetCurvePrices).len() != op_wire_spec(Operation::GetReceipts).len());
            assert(op_wire_spec(Operation::GetCurvePrices)[3] != op_wire_spec(Operation::GetFuelLogsDecoded)[3]);
            assert(op_wire_spec(Operation::GetCurvePrices).len() != op_wire_spec(Operation::GetMessages).len());
            assert(op_wire_spec(Operation::GetCurvePrices).len() != op_wire_spec(Operation::GetUnspentUtxos).len());
            assert(op_wire_spec(Operation::GetCurvePrices).len() != op_wire_spec(Operation::GetUniswapV2Pairs).len());
            assert(op_wire_spec(Operation::GetCurvePrices).len() != op_wire_spec(Operation::GetUniswapV2Prices).len());
            assert(op_wire_spec(Operation::GetCurvePrices).len() != op_wire_spec(Operation::GetUniswapV3Fees).len());
            assert(op_wire_spec(Operation::GetCurvePrices).len() != op_wire_spec(Operation::GetUniswapV3Pools).len());
            assert(op_wire_spec(Operation::GetCurvePrices).len() != op_wire_spec(Operation::GetUniswapV3Positions).len());
            assert(op_wire_spec(Operation::GetCurvePrices).len() != op_wire_spec(Operation::GetUniswapV3Prices).len());
            assert(op_wire_spec(Operation::GetCurvePrices)[8] != op_wire_spec(Operation::GetCurveTokens)[8]);
            assert(op_wire_spec(Operation::GetCurvePrices).len() != op_wire_spec(Operation::GetCurvePools).len());
            assert(op_unwire_spec(op_wire_spec(Operation::GetCurvePrices)) == Some(Operation::GetCurvePrices));
        },
        Operation::GetTransfers => {
            assert(op_wire_spec(Operation::GetTransfers).len() != op_wire_spec(Operation::GetStatus).len());
            assert(op_wire_spec(Operation::GetTransfers).len() != op_wire_spec(Operation::GetBlocks).len());
            assert(op_wire_spec(Operation::GetTransfers).len() != op_wire_spec(Operation::GetLogs).len());
            assert(op_wire_spec(Operation::GetTransfers).len() != op_wire_spec(Operation::GetTxs).len());
            assert(op_wire_spec(Operation::GetTransfers).len() != op_wire_spec(Operation::GetReceipts).len());
            assert(op_wire_spec(Operation::GetTransfers).len() != op_wire_spec(Operation::GetFuelLogsDecoded).len());
            assert(op_wire_spec(Operation::GetTransfers).len() != op_wire_spec(Operation::GetMessages).len());
            assert(op_wire_spec(Operation::GetTransfers).len() != op_wire_spec(Operation::GetUnspentUtxos).len());
            assert(op_wire_spec(Operation::GetTransfers).len() != op_wire_spec(Operation::GetUniswapV2Pairs).len());
            assert(op_wire_spec(Operation::GetTransfers).len() != op_wire_spec(Operation::GetUniswapV2Prices).len());
            assert(op_wire_spec(Operation::GetTransfers).len() != op_wire_spec(Operation::GetUniswapV3Fees).len());
            assert(op_wire_spec(Operation::GetTransfers).len() != op_wire_spec(Operation::GetUniswapV3Pools).len());
            assert(op_wire_spec(Operation::GetTransfers).len() != op_wire_spec(Operation::GetUniswapV3Positions).len());
            assert(op_wire_spec(Operation::GetTransfers).len() != op_wire_spec(Operation::GetUniswapV3Prices).len());
            assert(op_wire_spec(Operation::GetTransfers).len() != op_wire_spec(Operation::GetCurveTokens).len());
            assert(op_wire_spec(Operation::GetTransfers).len() != op_wire_spec(Operation::GetCurvePools).len());
            assert(op_wire_spec(Operation::GetTransfers).len() != op_wire_spec(Operation::GetCurvePrices).len());
            assert(op_unwire_spec(op_wire_spec(Operation::GetTransfers)) == Some(Operation::GetTransfers));
        },
        Operation::GetErc20 => {
            assert(op_wire_spec(Operation::GetErc20).len() != op_wire_spec(Operation::GetStatus).len());
            assert(op_wire_spec(Operation::GetErc20).len() != op_wire_spec(Operation::GetBlocks).len());
            assert(op_wire_spec(Operation::GetErc20).len() != op_wire_spec(Operation::GetLogs).len());
            assert(op_wire_spec(Operation::GetErc20).len() != op_wire_spec(Operation::GetTxs).len());
            assert(op_wire_spec(Operation::GetErc20).len() != op_wire_spec(Operation::GetReceipts).len());
            assert(op_wire_spec(Operation::GetErc20).len() != op_wire_spec(Operation::GetFuelLogsDecoded).len());
            assert(op_wire_spec(Operation::GetErc20).len() != op_wire_spec(Operation::GetMessages).len());
            assert(op_wire_spec(Operation::GetErc20).len() != op_wire_spec(Operation::GetUnspentUtxos).len());
            assert(op_wire_spec(Operation::GetErc20).len() != op_wire_spec(Operation::GetUniswapV2Pairs).len());
            assert(op_wire_spec(Operation::GetErc20).len() != op_wire_spec(Operation::GetUniswapV2Prices).len());
            assert(op_wire_spec(Operation::GetErc20).len() != op_wire_spec(Operation::GetUniswapV3Fees).len());
            assert(op_wire_spec(Operation::GetErc20).len() != op_wire_spec(Operation::GetUniswapV3Pools).len());
            assert(op_wire_spec(Operation::GetErc20).len() != op_wire_spec(Operation::GetUniswapV3Positions).len());
            assert(op_wire_spec(Operation::GetErc20).len() != op_wire_spec(Operation::GetUniswapV3Prices).len());
            assert(op_wire_spec(Operation::GetErc20).len() != op_wire_spec(Operation::GetCurveTokens).len());
            assert(op_wire_spec(Operation::GetErc20).len() != op_wire_spec(Operation::GetCurvePools).len());
            assert(op_wire_spec(Operation::GetErc20).len() != op_wire_spec(Operation::GetCurvePrices).len());
            assert(op_wire_spec(Operation::GetErc20).len() != op_wire_spec(Operation::GetTransfers).len());
            assert(op_unwire_spec(op_wire_spec(Operation::GetErc20)) == Some(Operation::GetErc20));
        },
        Operation::GetErc20Approvals => {
            assert(op_wire_spec(Operation::GetErc20Approvals).len() != op_wire_spec(Operation::GetStatus).len());
            assert(op_wire_spec(Operation::GetErc20Approvals).len() != op_wire_spec(Operation::GetBlocks).len());
            assert(op_wire_spec(Operation::GetErc20Approvals).len() != op_wire_spec(Operation::GetLogs).len());
            assert(op_wire_spec(Operation::GetErc20Approvals).len() != op_wire_spec(Operation::GetTxs).len());
            assert(op_wire_spec(Operation::GetErc20Approvals).len() != op_wire_spec(Operation::GetReceipts).len());
            assert(op_wire_spec(Operation::GetErc20Approvals).len() != op_wire_spec(Operation::GetFuelLogsDecoded).len());
            assert(op_wire_spec(Operation::GetErc20Approvals).len() != op_wire_spec(Operation::GetMessages).len());
            assert(op_wire_spec(Operation::GetErc20Approvals).len() != op_wire_spec(Operation::GetUnspentUtxos).len());
            assert(op_wire_spec(Operation::GetErc20Approvals)[3] != op_wire_spec(Operation::GetUniswapV2Pairs)[3]);
            assert(op_wire_spec(Operation::GetErc20Approvals).len() != op_wire_spec(Operation::GetUniswapV2Prices).len());
            assert(op_wire_spec(Operation::GetErc20Approvals).len() != op_wire_spec(Operation::GetUniswapV3Fees).len());
            assert(op_wire_spec(Operation::GetErc20Approvals)[3] != op_wire_spec(Operation::GetUniswapV3Pools)[3]);
            assert(op_wire_spec(Operation::GetErc20Approvals).len() != op_wire_spec(Operation::GetUniswapV3Positions).len());
            assert(op_wire_spec(Operation::GetErc20Approvals).len() != op_wire_spec(Operation::GetUniswapV3Prices).len());
            assert(op_wire_spec(Operation::GetErc20Approvals).len() != op_wire_spec(Operation::GetCurveTokens).len());
            assert(op_wire_spec(Operation::GetErc20Approvals).len() != op_wire_spec(Operation::GetCurvePools).len());
            assert(op_wire_spec(Operation::GetErc20Approvals).len() != op_wire_spec(Operation::GetCurvePrices).len());
            assert(op_wire_spec(Operation::GetErc20Approvals).len() != op_wire_spec(Operation::GetTransfers).len());
            assert(op_wire_spec(Operation::GetErc20Approvals).len() != op_wire_spec(Operation::GetErc20).len());
            assert(op_unwire_spec(op_wire_spec(Operation::GetErc20Approvals)) == Some(Operation::GetErc20Approvals));
        },
        Operation::GetErc20Transfers => {
            assert(op_wire_spec(Operation::GetErc20Transfers).len() != op_wire_spec(Operation::GetStatus).len());
            assert(op_wire_spec(Operation::GetErc20Transfers).len() != op_wire_spec(Operation::GetBlocks).len());
            assert(op_wire_spec(Operation::GetErc20Transfers).len() != op_wire_spec(Operation::GetLogs).len());
            assert(op_wire_spec(Operation::GetErc20Transfers).len() != op_wire_spec(Operation::GetTxs).len());
            assert(op_wire_spec(Operation::GetErc20Transfers).len() != op_wire_spec(Operation::GetReceipts).len());
            assert(op_wire_spec(Operation::GetErc20Transfers).len() != op_wire_spec(Operation::GetFuelLogsDecoded).len());
            assert(op_wire_spec(Operation::GetErc20Transfers).len() != op_wire_spec(Operation::GetMessages).len());
            assert(op_wire_spec(Operation::GetErc20Transfers).len() != op_wire_spec(Operation::GetUnspentUtxos).len());
            assert(op_wire_spec(Operation::GetErc20Transfers)[3] != op_wire_spec(Operation::GetUniswapV2Pairs)[3]);
            assert(op_wire_spec(Operation::GetErc20Transfers).len() != op_wire_spec(Operation::GetUniswapV2Prices).len());
            assert(op_wire_spec(Operation::GetErc20Transfers).len() != op_wire_spec(Operation::GetUniswapV3Fees).len());
            assert(op_wire_spec(Operation::GetErc20Transfers)[3] != op_wire_spec(Operation::GetUniswapV3Pools)[3]);
            assert(op_wire_spec(Operation::GetErc20Transfers).len() != op_wire_spec(Operation::GetUniswapV3Positions).len());
            assert(op_wire_spec(Operation::GetErc20Transfers).len() != op_wire_spec(Operation::GetUniswapV3Prices).len());
            assert(op_wire_spec(Operation::GetErc20Transfers).len() != op_wire_spec(Operation::GetCurveTokens).len());
            assert(op_wire_spec(Operation::GetErc20Transfers).len() != op_wire_spec(Operation::GetCurvePools).len());
            assert(op_wire_spec(Operation::GetErc20Transfers).len() != op_wire_spec(Operation::GetCurvePrices).len());
            assert(op_wire_spec(Operation::GetErc20Transfers).len() != op_wire_spec(Operation::GetTransfers).len());
            assert(op_wire_spec(Operation::GetErc20Transfers).len() != op_wire_spec(Operation::GetErc20).len());
            assert(op_wire_spec(Operation::GetErc20Transfers)[8] != op_wire_spec(Operation::GetErc20Approvals)[8]);
            assert(op_unwire_spec(op_wire_spec(Operation::GetErc20Transfers)) == Some(Operation::GetErc20Transfers));
        },
        Operation::GetSparkMarket => {
            assert(op_wire_spec(Operation::GetSparkMarket).len() != op_wire_spec(Operation::GetStatus).len());
            assert(op_wire_spec(Operation::GetSparkMarket).len() != op_wire_spec(Operation::GetBlocks).len());
            assert(op_wire_spec(Operation::GetSparkMarket).len() != op_wire_spec(Operation::GetLogs).len());
            assert(op_wire_spec(Operation::GetSparkMarket).len() != op_wire_spec(Operation::GetTxs).len());
            assert(op_wire_spec(Operation::GetSparkMarket).len() != op_wire_spec(Operation::GetReceipts).len());
            assert(op_wire_spec(Operation::GetSparkMarket)[3] != op_wire_spec(Operation::GetFuelLogsDecoded)[3]);
            assert(op_wire_spec(Operation::GetSparkMarket).len() != op_wire_spec(Operation::GetMessages).len());
            assert(op_wire_spec(Operation::GetSparkMarket).len() != op_wire_spec(Operation::GetUnspentUtxos).len());
            assert(op_wire_spec(Operation::GetSparkMarket).len() != op_wire_spec(Operation::GetUniswapV2Pairs).len());
            assert(op_wire_spec(Operation::GetSparkMarket).len() != op_wire_spec(Operation::GetUniswapV2Prices).len());
            assert(op_wire_spec(Operation::GetSparkMarket).len() != op_wire_spec(Operation::GetUniswapV3Fees).len());
            assert(op_wire_spec(Operation::GetSparkMarket).len() != op_wire_spec(Operation::GetUniswapV3Pools).len());
            assert(op_wire_spec(Operation::GetSparkMarket).len() != op_wire_spec(Operation::GetUniswapV3Positions).len());
            assert(op_wire_spec(Operation::GetSparkMarket).len() != op_wire_spec(Operation::GetUniswapV3Prices).len());
            assert(op_wire_spec(Operation::GetSparkMarket)[3] != op_wire_spec(Operation::GetCurveTokens)[3]);
            assert(op_wire_spec(Operation::GetSparkMarket).len() != op_wire_spec(Operation::GetCurvePools).len());
            assert(op_wire_spec(Operation::GetSparkMarket)[3] != op_wire_spec(Operation::GetCurvePrices)[3]);
            assert(op_wire_spec(Operation::GetSparkMarket).len() != op_wire_spec(Operation::GetTransfers).len());
            assert(op_wire_spec(Operation::GetSparkMarket).len() != op_wire_spec(Operation::GetErc20).len());
            assert(op_wire_spec(Operation::GetSparkMarket).len() != op_wire_spec(Operation::GetErc20Approvals).len());
            assert(op_wire_spec(Operation::GetSparkMarket).len() != op_wire_spec(Operation::GetErc20Transfers).len());
            assert(op_unwire_spec(op_wire_spec(Operation::GetSparkMarket)) == Some(Operation::GetSparkMarket));
        },
        Operation::GetSparkOrder => {
            assert(op_wire_spec(Operation::GetSparkOrder).len() != op_wire_spec(Operation::GetStatus).len());
            assert(op_wire_spec(Operation::GetSparkOrder).len() != op_wire_spec(Operation::GetBlocks).len());
            assert(op_wire_spec(Operation::GetSparkOrder).len() != op_wire_spec(Operation::GetLogs).len());
            assert(op_wire_spec(Operation::GetSparkOrder).len() != op_wire_spec(Operation::GetTxs).len());
            assert(op_wire_spec(Operation::GetSparkOrder).len() != op_wire_spec(Operation::GetReceipts).len());
            assert(op_wire_spec(Operation::GetSparkOrder).len() != op_wire_spec(Operation::GetFuelLogsDecoded).len());
            assert(op_wire_spec(Operation::GetSparkOrder).len() != op_wire_spec(Operation::GetMessages).len());
            assert(op_wire_spec(Operation::GetSparkOrder).len() != op_wire_spec(Operation::GetUnspentUtxos).len());
            assert(op_wire_spec(Operation::GetSparkOrder).len() != op_wire_spec(Operation::GetUniswapV2Pairs).len());
            assert(op_wire_spec(Operation::GetSparkOrder).len() != op_wire_spec(Operation::GetUniswapV2Prices).len());
            assert(op_wire_spec(Operation::GetSparkOrder).len() != op_wire_spec(Operation::GetUniswapV3Fees).len());
            assert(op_wire_spec(Operation::GetSparkOrder).len() != op_wire_spec(Operation::GetUniswapV3Pools).len());
            assert(op_wire_spec(Operation::GetSparkOrder).len() != op_wire_spec(Operation::GetUniswapV3Positions).len());
            assert(op_wire_spec(Operation::GetSparkOrder).len() != op_wire_spec(Operation::GetUniswapV3Prices).len());
            assert(op_wire_spec(Operation::GetSparkOrder).len() != op_wire_spec(Operation::GetCurveTokens).len());
            assert(op_wire_spec(Operation::GetSparkOrder)[3] != op_wire_spec(Operation::GetCurvePools)[3]);
            assert(op_wire_spec(Operation::GetSparkOrder).len() != op_wire_spec(Operation::GetCurvePrices).len());
            assert(op_wire_spec(Operation::GetSparkOrder).len() != op_wire_spec(Operation::GetTransfers).len());
            assert(op_wire_spec(Operation::GetSparkOrder).len() != op_wire_spec(Operation::GetErc20).len());
            assert(op_wire_spec(Operation::GetSparkOrder).len() != op_wire_spec(Operation::GetErc20Approvals).len());
            assert(op_wire_spec(Operation::GetSparkOrder).len() != op_wire_spec(Operation::GetErc20Transfers).len());
            assert(op_wire_spec(Operation::GetSparkOrder).len() != op_wire_spec(Operation::GetSparkMarket).len());
            assert(op_unwire_spec(op_wire_spec(Operation::GetSparkOrder)) == Some(Operation::GetSparkOrder));
        },
        Operation::GetSrc20 => {
            assert(op_wire_spec(Operation::GetSrc20).len() != op_wire_spec(Operation::GetStatus).len());
            assert(op_wire_spec(Operation::GetSrc20).len() != op_wire_spec(Operation::GetBlocks).len());
            assert(op_wire_spec(Operation::GetSrc20).len() != op_wire_spec(Operation::GetLogs).len());
            assert(op_wire_spec(Operation::GetSrc20).len() != op_wire_spec(Operation::GetTxs).len());
            assert(op_wire_spec(Operation::GetSrc20).len() != op_wire_spec(Operation::GetReceipts).len());
            assert(op_wire_spec(Operation::GetSrc20).len() != op_wire_spec(Operation::GetFuelLogsDecoded).len());
            assert(op_wire_spec(Operation::GetSrc20).len() != op_wire_spec(Operation::GetMessages).len());
            assert(op_wire_spec(Operation::GetSrc20).len() != op_wire_spec(Operation::GetUnspentUtxos).len());
            assert(op_wire_spec(Operation::GetSrc20).len() != op_wire_spec(Operation::GetUniswapV2Pairs).len());
            assert(op_wire_spec(Operation::GetSrc20).len() != op_wire_spec(Operation::GetUniswapV2Prices).len());
            assert(op_wire_spec(Operation::GetSrc20).len() != op_wire_spec(Operation::GetUniswapV3Fees).len());
            assert(op_wire_spec(Operation::GetSrc20).len() != op_wire_spec(Operation::GetUniswapV3Pools).len());
            assert(op_wire_spec(Operation::GetSrc20).len() != op_wire_spec(Operation::GetUniswapV3Positions).len());
            assert(op_wire_spec(Operation::GetSrc20).len() != op_wire_spec(Operation::GetUniswapV3Prices).len());
            assert(op_wire_spec(Operation::GetSrc20).len() != op_wire_spec(Operation::GetCurveTokens).len());
            assert(op_wire_spec(Operation::GetSrc20).len() != op_wire_spec(Operation::GetCurvePools).len());
            assert(op_wire_spec(Operation::GetSrc20).len() != op_wire_spec(Operation::GetCurvePrices).len());
            assert(op_wire_spec(Operation::GetSrc20).len() != op_wire_spec(Operation::GetTransfers).len());
            assert(op_wire_spec(Operation::GetSrc20)[3] != op_wire_spec(Operation::GetErc20)[3]);
            assert(op_wire_spec(Operation::GetSrc20).len() != op_wire_spec(Operation::GetErc20Approvals).len());
            assert(op_wire_spec(Operation::GetSrc20).len() != op_wire_spec(Operation::GetErc20Transfers).len());
            assert(op_wire_spec(Operation::GetSrc20).len() != op_wire_spec(Operation::GetSparkMarket).len());
            assert(op_wire_spec(Operation::GetSrc20).len() != op_wire_spec(Operation::GetSparkOrder).len());
            assert(op_unwire_spec(op_wire_spec(Operation::GetSrc20)) == Some(Operation::GetSrc20));
        },
        Operation::GetSrc7 => {
            assert(op_wire_spec(Operation::GetSrc7).len() != op_wire_spec(Operation::GetStatus).len());
            assert(op_wire_spec(Operation::GetSrc7).len() != op_wire_spec(Operation::GetBlocks).len());
            assert(op_wire_spec(Operation::GetSrc7)[3] != op_wire_spec(Operation::GetLogs)[3]);
            assert(op_wire_spec(Operation::GetSrc7).len() != op_wire_spec(Operation::GetTxs).len());
            assert(op_wire_spec(Operation::GetSrc7).len() != op_wire_spec(Operation::GetReceipts).len());
            assert(op_wire_spec(Operation::GetSrc7).len() != op_wire_spec(Operation::GetFuelLogsDecoded).len());
            assert(op_wire_spec(Operation::GetSrc7).len() != op_wire_spec(Operation::GetMessages).len());
            assert(op_wire_spec(Operation::GetSrc7).len() != op_wire_spec(Operation::GetUnspentUtxos).len());
            assert(op_wire_spec(Operation::GetSrc7).len() != op_wire_spec(Operation::GetUniswapV2Pairs).len());
            assert(op_wire_spec(Operation::GetSrc7).len() != op_wire_spec(Operation::GetUniswapV2Prices).len());
            assert(op_wire_spec(Operation::GetSrc7).len() != op_wire_spec(Operation::GetUniswapV3Fees).len());
            assert(op_wire_spec(Operation::GetSrc7).len() != op_wire_spec(Operation::GetUniswapV3Pools).len());
            assert(op_wire_spec(Operation::GetSrc7).len() != op_wire_spec(Operation::GetUniswapV3Positions).len());
            assert(op_wire_spec(Operation::GetSrc7).len() != op_wire_spec(Operation::GetUniswapV3Prices).len());
            assert(op_wire_spec(Operation::GetSrc7).len() != op_wire_spec(Operation::GetCurveTokens).len());
            assert(op_wire_spec(Operation::GetSrc7).len() != op_wire_spec(Operation::GetCurvePools).len());
            assert(op_wire_spec(Operation::GetSrc7).len() != op_wire_spec(Operation::GetCurvePrices).len());
            assert(op_wire_spec(Operation::GetSrc7).len() != op_wire_spec(Operation::GetTransfers).len());
            assert(op_wire_spec(Operation::GetSrc7).len() != op_wire_spec(Operation::GetErc20).len());
            assert(op_wire_spec(Operation::GetSrc7).len() != op_wire_spec(Operation::GetErc20Approvals).len());
            assert(op_wire_spec(Operation::GetSrc7).len() != op_wire_spec(Operation::GetErc20Transfers).len());
            assert(op_wire_spec(Operation::GetSrc7).len() != op_wire_spec(Operation::GetSparkMarket).len());
            assert(op_wire_spec(Operation::GetSrc7).len() != op_wire_spec(Operation::GetSparkOrder).len());
            assert(op_wire_spec(Operation::GetSrc7).len() != op_wire_spec(Operation::GetSrc20).len());
            assert(op_unwire_spec(op_wire_spec(Operation::GetSrc7)) == Some(Operation::GetSrc7));
        },
        Operation::GetMiraV1Pools => {
            assert(op_wire_spec(Operation::GetMiraV1Pools).len() != op_wire_spec(Operation::GetStatus).len());
            assert(op_wire_spec(Operation::GetMiraV1Pools).len() != op_wire_spec(Operation::GetBlocks).len());
            assert(op_wire_spec(Operation::GetMiraV1Pools).len() != op_wire_spec(Operation::GetLogs).len());
            assert(op_wire_spec(Operation::GetMiraV1Pools).len() != op_wire_spec(Operation::GetTxs).len());
            assert(op_wire_spec(Operation::GetMiraV1Pools).len() != op_wire_spec(Operation::GetReceipts).len());
            assert(op_wire_spec(Operation::GetMiraV1Pools)[3] != op_wire_spec(Operation::GetFuelLogsDecoded)[3]);
            assert(op_wire_spec(Operation::GetMiraV1Pools).len() != op_wire_spec(Operation::GetMessages).len());
            assert(op_wire_spec(Operation::GetMiraV1Pools).len() != op_wire_spec(Operation::GetUnspentUtxos).len());
            assert(op_wire_spec(Operation::GetMiraV1Pools).len() != op_wire_spec(Operation::GetUniswapV2Pairs).len());
            assert(op_wire_spec(Operation::GetMiraV1Pools).len() != op_wire_spec(Operation::GetUniswapV2Prices).len());
            assert(op_wire_spec(Operation::GetMiraV1Pools).len() != op_wire_spec(Operation::GetUniswapV3Fees).len());
            assert(op_wire_spec(Operation::GetMiraV1Pools).len() != op_wire_spec(Operation::GetUniswapV3Pools).len());
            assert(op_wire_spec(Operation::GetMiraV1Pools).len() != op_wire_spec(Operation::GetUniswapV3Positions).len());
            assert(op_wire_spec(Operation::GetMiraV1Pools).len() != op_wire_spec(Operation::GetUniswapV3Prices).len());
            assert(op_wire_spec(Operation::GetMiraV1Pools)[3] != op_wire_spec(Operation::GetCurveTokens)[3]);
            assert(op_wire_spec(Operation::GetMiraV1Pools).len() != op_wire_spec(Operation::GetCurvePools).len());
            assert(op_wire_spec(Operation::GetMiraV1Pools)[3] != op_wire_spec(Operation::GetCurvePrices)[3]);
            assert(op_wire_spec(Operation::GetMiraV1Pools).len() != op_wire_spec(Operation::GetTransfers).len());
            assert(op_wire_spec(Operation::GetMiraV1Pools).len() != op_wire_spec(Operation::GetErc20).len());
            assert(op_wire_spec(Operation::GetMiraV1Pools).len() != op_wire_spec(Operation::GetErc20Approvals).len());
            assert(op_wire_spec(Operation::GetMiraV1Pools).len() != op_wire_spec(Operation::GetErc20Transfers).len());
            assert(op_wire_spec(Operation::GetMiraV1Pools)[3] != op_wire_spec(Operation::GetSparkMarket)[3]);
            assert(op_wire_spec(Operation::GetMiraV1Pools).len() != op_wire_spec(Operation::GetSparkOrder).len());
            assert(op_wire_spec(Operation::GetMiraV1Pools).len() != op_wire_spec(Operation::GetSrc20).len());
            assert(op_wire_spec(Operation::GetMiraV1Pools).len() != op_wire_spec(Operation::GetSrc7).len());
            assert(op_unwire_spec(op_wire_spec(Operation::GetMiraV1Pools)) == Some(Operation::GetMiraV1Pools));
        },
        Operation::GetMiraV1Liqudity => {
            assert(op_wire_spec(Operation::GetMiraV1Liqudity).len() != op_wire_spec(Operation::GetStatus).len());
            assert(op_wire_spec(Operation::GetMiraV1Liqudity).len() != op_wire_spec(Operation::GetBlocks).len());
            assert(op_wire_spec(Operation::GetMiraV1Liqudity).len() != op_wire_spec(Operation::GetLogs).len());
            assert(op_wire_spec(Operation::GetMiraV1Liqudity).len() != op_wire_spec(Operation::GetTxs).len());
            assert(op_wire_spec(Operation::GetMiraV1Liqudity).len() != op_wire_spec(Operation::GetReceipts).len());
            assert(op_wire_spec(Operation::GetMiraV1Liqudity).len() != op_wire_spec(Operation::GetFuelLogsDecoded).len());
            assert(op_wire_spec(Operation::GetMiraV1Liqudity).len() != op_wire_spec(Operation::GetMessages).len());
            assert(op_wire_spec(Operation::GetMiraV1Liqudity).len() != op_wire_spec(Operation::GetUnspentUtxos).len());
            assert(op_wire_spec(Operation::GetMiraV1Liqudity)[3] != op_wire_spec(Operation::GetUniswapV2Pairs)[3]);
            assert(op_wire_spec(Operation::GetMiraV1Liqudity).len() != op_wire_spec(Operation::GetUniswapV2Prices).len());
            assert(op_wire_spec(Operation::GetMiraV1Liqudity).len() != op_wire_spec(Operation::GetUniswapV3Fees).len());
            assert(op_wire_spec(Operation::GetMiraV1Liqudity)[3] != op_wire_spec(Operation::GetUniswapV3Pools)[3]);
            assert(op_wire_spec(Operation::GetMiraV1Liqudity).len() != op_wire_spec(Operation::GetUniswapV3Positions).len());
            assert(op_wire_spec(Operation::GetMiraV1Liqudity).len() != op_wire_spec(Operation::GetUniswapV3Prices).len());
            assert(op_wire_spec(Operation::GetMiraV1Liqudity).len() != op_wire_spec(Operation::GetCurveTokens).len());
            assert(op_wire_spec(Operation::GetMiraV1Liqudity).len() != op_wire_spec(Operation::GetCurvePools).len());
            assert(op_wire_spec(Operation::GetMiraV1Liqudity).len() != op_wire_spec(Operation::GetCurvePrices).len());
            assert(op_wire_spec(Operation::GetMiraV1Liqudity).len() != op_wire_spec(Operation::GetTransfers).len());
            assert(op_wire_spec(Operation::GetMiraV1Liqudity).len() != op_wire_spec(Operation::GetErc20).len());
            assert(op_wire_spec(Operation::GetMiraV1Liqudity)[3] != op_wire_spec(Operation::GetErc20Approvals)[3]);
            assert(op_wire_spec(Operation::GetMiraV1Liqudity)[3] != op_wire_spec(Operation::GetErc20Transfers)[3]);
            assert(op_wire_spec(Operation::GetMiraV1Liqudity).len() != op_wire_spec(Operation::GetSparkMarket).len());
            assert(op_wire_spec(Operation::GetMiraV1Liqudity).len() != op_wire_spec(Operation::GetSparkOrder).len());
            assert(op_wire_spec(Operation::GetMiraV1Liqudity).len() != op_wire_spec(Operation::GetSrc20).len());
            assert(op_wire_spec(Operation::GetMiraV1Liqudity).len() != op_wire_spec(Operation::GetSrc7).len());
            assert(op_wire_spec(Operation::GetMiraV1Liqudity).len() != op_wire_spec(Operation::GetMiraV1Pools).len());
            assert(op_unwire_spec(op_wire_spec(Operation::GetMiraV1Liqudity)) == Some(Operation::GetMiraV1Liqudity));
        },
        Operation::GetMiraV1Swaps => {
            assert(op_wire_spec(Operation::GetMiraV1Swaps).len() != op_wire_spec(Operation::GetStatus).len());
            assert(op_wire_spec(Operation::GetMiraV1Swaps).len() != op_wire_spec(Operation::GetBlocks).len());
            assert(op_wire_spec(Operation::GetMiraV1Swaps).len() != op_wire_spec(Operation::GetLogs).len());
            assert(op_wire_spec(Operation::GetMiraV1Swaps).len() != op_wire_spec(Operation::GetTxs).len());
            assert(op_wire_spec(Operation::GetMiraV1Swaps).len() != op_wire_spec(Operation::GetReceipts).len());
            assert(op_wire_spec(Operation::GetMiraV1Swaps)[3] != op_wire_spec(Operation::GetFuelLogsDecoded)[3]);
            assert(op_wire_spec(Operation::GetMiraV1Swaps).len() != op_wire_spec(Operation::GetMessages).len());
            assert(op_wire_spec(Operation::GetMiraV1Swaps).len() != op_wire_spec(Operation::GetUnspentUtxos).len());
            assert(op_wire_spec(Operation::GetMiraV1Swaps).len() != op_wire_spec(Operation::GetUniswapV2Pairs).len());
            assert(op_wire_spec(Operation::GetMiraV1Swaps).len() != op_wire_spec(Operation::GetUniswapV2Prices).len());
            assert(op_wire_spec(Operation::GetMiraV1Swaps).len() != op_wire_spec(Operation::GetUniswapV3Fees).len());
            assert(op_wire_spec(Operation::GetMiraV1Swaps).len() != op_wire_spec(Operation::GetUniswapV3Pools).len());
            assert(op_wire_spec(Operation::GetMiraV1Swaps).len() != op_wire_spec(Operation::GetUniswapV3Positions).len());
            assert(op_wire_spec(Operation::GetMiraV1Swaps).len() != op_wire_spec(Operation::GetUniswapV3Prices).len());
            assert(op_wire_spec(Operation::GetMiraV1Swaps)[3] != op_wire_spec(Operation::GetCurveTokens)[3]);
            assert(op_wire_spec(Operation::GetMiraV1Swaps).len() != op_wire_spec(Operation::GetCurvePools).len());
            assert(op_wire_spec(Operation::GetMiraV1Swaps)[3] != op_wire_spec(Operation::GetCurvePrices)[3]);
            assert(op_wire_spec(Operation::GetMiraV1Swaps).len() != op_wire_spec(Operation::GetTransfers).len());
            assert(op_wire_spec(Operation::GetMiraV1Swaps).len() != op_wire_spec(Operation::GetErc20).len());
            assert(op_wire_spec(Operation::GetMiraV1Swaps).len() != op_wire_spec(Operation::GetErc20Approvals).len());
            assert(op_wire_spec(Operation::GetMiraV1Swaps).len() != op_wire_spec(Operation::GetErc20Transfers).len());
            assert(op_wire_spec(Operation::GetMiraV1Swaps)[3] != op_wire_spec(Operation::GetSparkMarket)[3]);
            assert(op_wire_spec(Operation::GetMiraV1Swaps).len() != op_wire_spec(Operation::GetSparkOrder).len());
            assert(op_wire_spec(Operation::GetMiraV1Swaps).len() != op_wire_spec(Operation::GetSrc20).len());
            assert(op_wire_spec(Operation::GetMiraV1Swaps).len() != op_wire_spec(Operation::GetSrc7).len());
            assert(op_wire_spec(Operation::GetMiraV1Swaps)[9] != op_wire_spec(Operation::GetMiraV1Pools)[9]);
            assert(op_wire_spec(Operation::GetMiraV1Swaps).len() != op_wire_spec(Operation::GetMiraV1Liqudity).len());
            assert(op_unwire_spec(op_wire_spec(Operation::GetMiraV1Swaps)) == Some(Operation::GetMiraV1Swaps));
        },
    }
}

/// The chained lookup finds every format under its own name.
proof fn lemma_format_unwire_complete(f: Format)
    ensures
        format_unwire_spec(format_wire_spec(f)) == Some(f),
{
    match f {
        Format::JsonStream => {
            assert(format_unwire_spec(format_wire_spec(Format::JsonStream)) == Some(Format::JsonStream));
        },
        Format::Arrow => {
            assert(format_wire_spec(Format::Arrow).len() != format_wire_spec(Format::JsonStream).len());
            assert(format_unwire_spec(format_wire_spec(Format::Arrow)) == Some(Format::Arrow));
        },
        Format::ArrowStream => {
            assert(format_wire_spec(Format::ArrowStream).len() != format_wire_spec(Format::JsonStream).len());
            assert(format_wire_spec(Format::ArrowStream).len() != format_wire_spec(Format::Arrow).len());
            assert(format_unwire_spec(format_wire_spec(Format::ArrowStream)) == Some(Format::ArrowStream));
        },
        Format::ArrowIpc => {
            assert(format_wire_spec(Format::ArrowIpc).len() != format_wire_spec(Format::JsonStream).len());
            assert(format_wire_spec(Format::ArrowIpc).len() != format_wire_spec(Format::Arrow).len());
            assert(format_wire_spec(Format::ArrowIpc).len() != format_wire_spec(Format::ArrowStream).len());
            assert(format_unwire_spec(format_wire_spec(Format::ArrowIpc)) == Some(Format::ArrowIpc));
        },
        Format::CsvStream => {
            assert(format_wire_spec(Format::CsvStream).len() != format_wire_spec(Format::JsonStream).len());
            assert(format_wire_spec(Format::CsvStream).len() != format_wire_spec(Format::Arrow).len());
            assert(format_wire_spec(Format::CsvStream).len() != format_wire_spec(Format::ArrowStream).len());
            assert(format_wire_spec(Format::CsvStream).len() != format_wire_spec(Format::ArrowIpc).len());
            assert(format_unwire_spec(format_wire_spec(Format::CsvStream)) == Some(Format::CsvStream));
        },
    }
}


/// The shape class a value's first byte announces: quoted text, a digit
/// run, or a block-endpoint object.
pub open spec fn value_class(v: ParamValue) -> int {
    match v {
        ParamValue::Text(_) => 0,
        ParamValue::Uint(_) => 1,
        ParamValue::Block(b) => match b {
            Bound::FromLatest(_) => 2,
            Bound::Exact(_) => 2,
            _ => 0,
        },
    }
}

/// The text between the quotes of a quoted-class value.
pub open spec fn quoted_core(v: ParamValue) -> Seq<u8> {
    match v {
        ParamValue::Text(t) => t@,
        ParamValue::Block(Bound::Unset) => seq![78, 111, 110, 101],
        ParamValue::Block(Bound::Latest) => seq![76, 97, 116, 101, 115, 116],
        ParamValue::Block(Bound::Subscribe) => seq![83, 117, 98, 115, 99, 114, 105, 98, 101],
        _ => Seq::empty(),
    }
}

pub open spec fn value_wf(v: ParamValue) -> bool {
    match v {
        ParamValue::Text(t) => plain_text(t@),
        _ => true,
    }
}

/// What each shape class promises of a value's bytes.
proof fn lemma_value_shape(v: ParamValue)
    requires
        value_wf(v),
    ensures
        value_bytes(v).len() >= 1,
        value_class(v) == 0 ==> value_bytes(v) == seq![34u8] + quoted_core(v) + seq![34u8]
            && no_quote(quoted_core(v)) && value_bytes(v)[0] == 34,
        value_class(v) == 1 ==> all_dec_digits(value_bytes(v)) && is_dec_digit(value_bytes(v)[0]),
        value_class(v) == 2 ==> value_bytes(v)[0] == 123,
{
    match v {
        ParamValue::Text(t) => {
            assert(value_bytes(v) =~= seq![34u8] + quoted_core(v) + seq![34u8]);
        },
        ParamValue::Uint(n) => {
            crate::ids::lemma_dec_digits_are_digits(n);
        },
        ParamValue::Block(b) => {
            match b {
                Bound::Unset => {
                    assert(value_bytes(v) =~= seq![34u8] + quoted_core(v) + seq![34u8]);
                },
                Bound::Latest => {
                    assert(value_bytes(v) =~= seq![34u8] + quoted_core(v) + seq![34u8]);
                },
                Bound::Subscribe => {
                    assert(value_bytes(v) =~= seq![34u8] + quoted_core(v) + seq![34u8]);
                },
                Bound::FromLatest(n) => {
                    assert(value_bytes(v)[0] == mark_from_latest()[0]);
                },
                Bound::Exact(n) => {
                    assert(value_bytes(v)[0] == mark_exact()[0]);
                },
            }
        },
    }
}

/// A value followed by a comma reads one way: equal documents carry equal
/// value bytes and equal rests.
#[verifier::rlimit(100)]
proof fn lemma_value_unique(v1: ParamValue, r1: Seq<u8>, v2: ParamValue, r2: Seq<u8>)
    requires
        value_bytes(v1) + r1 == value_bytes(v2) + r2,
        value_wf(v1),
        value_wf(v2),
        r1.len() > 0,
        r1[0] == 44,
        r2.len() > 0,
        r2[0] == 44,
    ensures
        value_bytes(v1) == value_bytes(v2),
        r1 == r2,
{
    let b1 = value_bytes(v1);
    let b2 = value_bytes(v2);
    lemma_value_shape(v1);
    lemma_value_shape(v2);
    assert((b1 + r1)[0] == b1[0]);
    assert((b2 + r2)[0] == b2[0]);
    assert(b1[0] == b2[0]);
    if value_class(v1) != value_class(v2) {
        assert(false);
    }
    if value_class(v1) == 0 {
        let c1 = quoted_core(v1);
        let c2 = quoted_core(v2);
        assert(b1 + r1 =~= seq![34u8] + (c1 + seq![34u8] + r1));
        assert(b2 + r2 =~= seq![34u8] + (c2 + seq![34u8] + r2));
        lemma_strip_prefix(seq![34u8], c1 + seq![34u8] + r1, c2 + seq![34u8] + r2);
        lemma_quote_token_unique(c1, r1, c2, r2);
        assert(b1 == b2);
    } else if value_class(v1) == 1 {
        lemma_digit_run_unique(b1, r1, b2, r2);
    } else {
        match (v1, v2) {
            (ParamValue::Block(u1), ParamValue::Block(u2)) => {
                match (u1, u2) {
                    (Bound::FromLatest(n1), Bound::FromLatest(n2)) => {
                        crate::ids::lemma_dec_digits_are_digits(n1);
                        crate::ids::lemma_dec_digits_are_digits(n2);
                        assert(b1 + r1 =~= mark_from_latest() + (dec_digits(n1) + (seq![125u8]
                            + r1)));
                        assert(b2 + r2 =~= mark_from_latest() + (dec_digits(n2) + (seq![125u8]
                            + r2)));
                        lemma_strip_prefix(
                            mark_from_latest(),
                            dec_digits(n1) + (seq![125u8] + r1),
                            dec_digits(n2) + (seq![125u8] + r2),
                        );
                        assert((seq![125u8] + r1)[0] == 125);
                        assert((seq![125u8] + r2)[0] == 125);
                        lemma_digit_run_unique(
                            dec_digits(n1),
                            seq![125u8] + r1,
                            dec_digits(n2),
                            seq![125u8] + r2,
                        );
                        lemma_strip_prefix(seq![125u8], r1, r2);
                        assert(b1 =~= b2);
                    },
                    (Bound::Exact(n1), Bound::Exact(n2)) => {
                        crate::ids::lemma_dec_digits_are_digits(n1);
                        crate::ids::lemma_dec_digits_are_digits(n2);
                        assert(b1 + r1 =~= mark_exact() + (dec_digits(n1) + (seq![125u8] + r1)));
                        assert(b2 + r2 =~= mark_exact() + (dec_digits(n2) + (seq![125u8] + r2)));
                        lemma_strip_prefix(
                            mark_exact(),
                            dec_digits(n1) + (seq![125u8] + r1),
                            dec_digits(n2) + (seq![125u8] + r2),
                        );
                        assert((seq![125u8] + r1)[0] == 125);
                        assert((seq![125u8] + r2)[0] == 125);
                        lemma_digit_run_unique(
                            dec_digits(n1),
                            seq![125u8] + r1,
                            dec_digits(n2),
                            seq![125u8] + r2,
                        );
                        lemma_strip_prefix(seq![125u8], r1, r2);
                        assert(b1 =~= b2);
                    },
                    (Bound::FromLatest(n1), Bound::Exact(n2)) => {
                        assert((b1 + r1)[2] == mark_from_latest()[2]);
                        assert((b2 + r2)[2] == mark_exact()[2]);
                        assert(false);
                    },
                    (Bound::Exact(n1), Bound::FromLatest(n2)) => {
                        assert((b1 + r1)[2] == mark_exact()[2]);
                        assert((b2 + r2)[2] == mark_from_latest()[2]);
                        assert(false);
                    },
                    _ => {
                        assert(false);
                    },
                }
            },
            _ => {
                assert(false);
            },
        }
    }
}

/// A parameter unit followed by a comma reads one way.
proof fn lemma_param_unique(p1: Param, r1: Seq<u8>, p2: Param, r2: Seq<u8>)
    requires
        param_bytes(p1) + r1 == param_bytes(p2) + r2,
        param_wf(p1),
        param_wf(p2),
        r1.len() > 0,
        r1[0] == 44,
        r2.len() > 0,
        r2[0] == 44,
    ensures
        p1.key@ == p2.key@,
        value_bytes(p1.value) == value_bytes(p2.value),
        r1 == r2,
{
    let k1 = p1.key@;
    let k2 = p2.key@;
    let v1 = value_bytes(p1.value);
    let v2 = value_bytes(p2.value);
    assert(param_bytes(p1) + r1 =~= seq![44u8, 34u8] + (k1 + seq![34u8] + (seq![58u8] + (v1
        + r1))));
    assert(param_bytes(p2) + r2 =~= seq![44u8, 34u8] + (k2 + seq![34u8] + (seq![58u8] + (v2
        + r2))));
    lemma_strip_prefix(
        seq![44u8, 34u8],
        k1 + seq![34u8] + (seq![58u8] + (v1 + r1)),
        k2 + seq![34u8] + (seq![58u8] + (v2 + r2)),
    );
    assert(no_quote(k1));
    assert(no_quote(k2));
    lemma_quote_token_unique(
        k1,
        seq![58u8] + (v1 + r1),
        k2,
        seq![58u8] + (v2 + r2),
    );
    lemma_strip_prefix(seq![58u8], v1 + r1, v2 + r2);
    lemma_value_unique(p1.value, r1, p2.value, r2);
}


/// Splitting equal documents at the same offset gives equal halves.
proof fn lemma_split_at(x1: Seq<u8>, y1: Seq<u8>, x2: Seq<u8>, y2: Seq<u8>)
    requires
        x1 + y1 == x2 + y2,
        x1.len() == x2.len(),
    ensures
        x1 == x2,
        y1 == y2,
{
    let l = x1 + y1;
    let r = x2 + y2;
    assert(l.len() == x1.len() + y1.len());
    assert(r.len() == x2.len() + y2.len());
    assert(y1.len() == y2.len());
    assert(x1 =~= x2) by {
        assert(forall|i: int| 0 <= i < x1.len() ==> l[i] == #[trigger] x1[i] && r[i] == x2[i]);
    }
    assert(y1 =~= y2) by {
        assert(forall|i: int|
            0 <= i < y1.len() ==> l[x1.len() + i] == #[trigger] y1[i] && r[x1.len() + i]
                == y2[i]);
    }
}

/// A parameter region followed by the format marker begins with a comma.
proof fn lemma_region_head(ps: Seq<Param>, t: Seq<u8>)
    requires
        t.len() >= 11,
        t.subrange(0, 11) == mark_format(),
    ensures
        (params_bytes(ps) + t).len() > 0,
        (params_bytes(ps) + t)[0] == 44,
{
    if ps.len() == 0 {
        assert(params_bytes(ps) + t =~= t);
        assert(t[0] == mark_format()[0]);
    } else {
        assert((params_bytes(ps) + t)[0] == param_bytes(ps[0])[0]);
    }
}

/// The parameter region before the format marker reads one way: the two
/// parameter lists pair up, field name for field name and value bytes
/// for value bytes, and the tails agree.
#[verifier::rlimit(100)]
proof fn lemma_params_region_unique(ps1: Seq<Param>, t1: Seq<u8>, ps2: Seq<Param>, t2: Seq<u8>)
    requires
        params_bytes(ps1) + t1 == params_bytes(ps2) + t2,
        forall|i: int| 0 <= i < ps1.len() ==> param_wf(#[trigger] ps1[i]),
        forall|i: int| 0 <= i < ps2.len() ==> param_wf(#[trigger] ps2[i]),
        t1.len() >= 11,
        t1.subrange(0, 11) == mark_format(),
        t2.len() >= 11,
        t2.subrange(0, 11) == mark_format(),
    ensures
        ps1.len() == ps2.len(),
        forall|i: int|
            0 <= i < ps1.len() ==> (#[trigger] ps1[i]).key@ == ps2[i].key@ && value_bytes(
                ps1[i].value,
            ) == value_bytes(ps2[i].value),
        t1 == t2,
    decreases ps1.len() + ps2.len(),
{
    let fmtname = seq![102u8, 111, 114, 109, 97, 116];
    if ps1.len() == 0 && ps2.len() == 0 {
        assert(params_bytes(ps1) + t1 =~= t1);
        assert(params_bytes(ps2) + t2 =~= t2);
    } else if ps1.len() == 0 {
        let p = ps2[0];
        assert(param_wf(p));
        assert(params_bytes(ps2) + t2 =~= param_bytes(p) + (params_bytes(ps2.drop_first())
            + t2));
        assert(t1 =~= mark_format() + t1.subrange(11, t1.len() as int));
        assert(mark_format() =~= seq![44u8, 34u8] + fmtname + seq![34u8, 58u8, 34u8]);
        assert(t1 =~= seq![44u8, 34u8] + (fmtname + seq![34u8] + (seq![58u8, 34u8]
            + t1.subrange(11, t1.len() as int))));
        assert(param_bytes(p) + (params_bytes(ps2.drop_first()) + t2) =~= seq![44u8, 34u8]
            + (p.key@ + seq![34u8] + (seq![58u8] + (value_bytes(p.value) + (params_bytes(
            ps2.drop_first(),
        ) + t2)))));
        lemma_strip_prefix(
            seq![44u8, 34u8],
            fmtname + seq![34u8] + (seq![58u8, 34u8] + t1.subrange(11, t1.len() as int)),
            p.key@ + seq![34u8] + (seq![58u8] + (value_bytes(p.value) + (params_bytes(
                ps2.drop_first(),
            ) + t2))),
        );
        assert(no_quote(fmtname));
        assert(no_quote(p.key@));
        lemma_quote_token_unique(
            fmtname,
            seq![58u8, 34u8] + t1.subrange(11, t1.len() as int),
            p.key@,
            seq![58u8] + (value_bytes(p.value) + (params_bytes(ps2.drop_first()) + t2)),
        );
        assert(p.key@ == key_format());
        assert(false);
    } else if ps2.len() == 0 {
        let p = ps1[0];
        assert(param_wf(p));
        assert(params_bytes(ps1) + t1 =~= param_bytes(p) + (params_bytes(ps1.drop_first())
            + t1));
        assert(t2 =~= mark_format() + t2.subrange(11, t2.len() as int));
        assert(mark_format() =~= seq![44u8, 34u8] + fmtname + seq![34u8, 58u8, 34u8]);
        assert(t2 =~= seq![44u8, 34u8] + (fmtname + seq![34u8] + (seq![58u8, 34u8]
            + t2.subrange(11, t2.len() as int))));
        assert(param_bytes(p) + (params_bytes(ps1.drop_first()) + t1) =~= seq![44u8, 34u8]
            + (p.key@ + seq![34u8] + (seq![58u8] + (value_bytes(p.value) + (params_bytes(
            ps1.drop_first(),
        ) + t1)))));
        lemma_strip_prefix(
            seq![44u8, 34u8],
            p.key@ + seq![34u8] + (seq![58u8] + (value_bytes(p.value) + (params_bytes(
                ps1.drop_first(),
            ) + t1))),
            fmtname + seq![34u8] + (seq![58u8, 34u8] + t2.subrange(11, t2.len() as int)),
        );
        assert(no_quote(fmtname));
        assert(no_quote(p.key@));
        lemma_quote_token_unique(
            p.key@,
            seq![58u8] + (value_bytes(p.value) + (params_bytes(ps1.drop_first()) + t1)),
            fmtname,
            seq![58u8, 34u8] + t2.subrange(11, t2.len() as int),
        );
        assert(p.key@ == key_format());
        assert(false);
    } else {
        let p1 = ps1[0];
        let p2 = ps2[0];
        let rest1 = params_bytes(ps1.drop_first()) + t1;
        let rest2 = params_bytes(ps2.drop_first()) + t2;
        assert(forall|i: int|
            0 <= i < ps1.drop_first().len() ==> #[trigger] ps1.drop_first()[i] == ps1[i + 1]);
        assert(forall|i: int|
            0 <= i < ps2.drop_first().len() ==> #[trigger] ps2.drop_first()[i] == ps2[i + 1]);
        lemma_region_head(ps1.drop_first(), t1);
        lemma_region_head(ps2.drop_first(), t2);
        assert(params_bytes(ps1) + t1 =~= param_bytes(p1) + rest1);
        assert(params_bytes(ps2) + t2 =~= param_bytes(p2) + rest2);
        lemma_param_unique(p1, rest1, p2, rest2);
        lemma_params_region_unique(ps1.drop_first(), t1, ps2.drop_first(), t2);
        assert(ps1.len() == ps2.len());
        assert(forall|i: int|
            0 <= i < ps1.len() ==> (#[trigger] ps1[i]).key@ == ps2[i].key@ && value_bytes(
                ps1[i].value,
            ) == value_bytes(ps2[i].value)) by {
            assert(forall|i: int|
                1 <= i < ps1.len() ==> ps1.drop_first()[i - 1] == #[trigger] ps1[i]
                    && ps2.drop_first()[i - 1] == ps2[i]);
        }
    }
}


/// The canonical identifier string is thirty-six bytes long.
proof fn lemma_uuid_len(v: u128)
    ensures
        uuid_bytes(v).len() == 36,
{
    crate::ids::lemma_hex_digits_are_digits(v, 32);
}

/// Two identifiers with the same canonical string are the same.
proof fn lemma_uuid_inj(v1: u128, v2: u128)
    requires
        uuid_bytes(v1) == uuid_bytes(v2),
    ensures
        v1 == v2,
{
    let h1 = hex_digits(v1, 32);
    let h2 = hex_digits(v2, 32);
    crate::ids::lemma_hex_digits_are_digits(v1, 32);
    crate::ids::lemma_hex_digits_are_digits(v2, 32);
    assert(uuid_bytes(v1) =~= h1.subrange(0, 8) + (seq![45u8] + (h1.subrange(8, 12) + (seq![
        45u8,
    ] + (h1.subrange(12, 16) + (seq![45u8] + (h1.subrange(16, 20) + (seq![45u8] + h1.subrange(
        20,
        32,
    )))))))));
    assert(uuid_bytes(v2) =~= h2.subrange(0, 8) + (seq![45u8] + (h2.subrange(8, 12) + (seq![
        45u8,
    ] + (h2.subrange(12, 16) + (seq![45u8] + (h2.subrange(16, 20) + (seq![45u8] + h2.subrange(
        20,
        32,
    )))))))));
    lemma_split_at(
        h1.subrange(0, 8),
        seq![45u8] + (h1.subrange(8, 12) + (seq![45u8] + (h1.subrange(12, 16) + (seq![45u8] + (
        h1.subrange(16, 20) + (seq![45u8] + h1.subrange(20, 32))))))),
        h2.subrange(0, 8),
        seq![45u8] + (h2.subrange(8, 12) + (seq![45u8] + (h2.subrange(12, 16) + (seq![45u8] + (
        h2.subrange(16, 20) + (seq![45u8] + h2.subrange(20, 32))))))),
    );
    lemma_strip_prefix(
        seq![45u8],
        h1.subrange(8, 12) + (seq![45u8] + (h1.subrange(12, 16) + (seq![45u8] + (h1.subrange(
            16,
            20,
        ) + (seq![45u8] + h1.subrange(20, 32)))))),
        h2.subrange(8, 12) + (seq![45u8] + (h2.subrange(12, 16) + (seq![45u8] + (h2.subrange(
            16,
            20,
        ) + (seq![45u8] + h2.subrange(20, 32)))))),
    );
    lemma_split_at(
        h1.subrange(8, 12),
        seq![45u8] + (h1.subrange(12, 16) + (seq![45u8] + (h1.subrange(16, 20) + (seq![45u8]
            + h1.subrange(20, 32))))),
        h2.subrange(8, 12),
        seq![45u8] + (h2.subrange(12, 16) + (seq![45u8] + (h2.subrange(16, 20) + (seq![45u8]
            + h2.subrange(20, 32))))),
    );
    lemma_strip_prefix(
        seq![45u8],
        h1.subrange(12, 16) + (seq![45u8] + (h1.subrange(16, 20) + (seq![45u8] + h1.subrange(
            20,
            32,
        )))),
        h2.subrange(12, 16) + (seq![45u8] + (h2.subrange(16, 20) + (seq![45u8] + h2.subrange(
            20,
            32,
        )))),
    );
    lemma_split_at(
        h1.subrange(12, 16),
        seq![45u8] + (h1.subrange(16, 20) + (seq![45u8] + h1.subrange(20, 32))),
        h2.subrange(12, 16),
        seq![45u8] + (h2.subrange(16, 20) + (seq![45u8] + h2.subrange(20, 32))),
    );
    lemma_strip_prefix(
        seq![45u8],
        h1.subrange(16, 20) + (seq![45u8] + h1.subrange(20, 32)),
        h2.subrange(16, 20) + (seq![45u8] + h2.subrange(20, 32)),
    );
    lemma_split_at(
        h1.subrange(16, 20),
        seq![45u8] + h1.subrange(20, 32),
        h2.subrange(16, 20),
        seq![45u8] + h2.subrange(20, 32),
    );
    lemma_strip_prefix(seq![45u8], h1.subrange(20, 32), h2.subrange(20, 32));
    assert(h1 =~= h2) by {
        assert(forall|i: int|
            0 <= i < 8 ==> h1.subrange(0, 8)[i] == #[trigger] h1[i] && h2.subrange(0, 8)[i]
                == h2[i]);
        assert(forall|i: int|
            8 <= i < 12 ==> h1.subrange(8, 12)[i - 8] == #[trigger] h1[i] && h2.subrange(
                8,
                12,
            )[i - 8] == h2[i]);
        assert(forall|i: int|
            12 <= i < 16 ==> h1.subrange(12, 16)[i - 12] == #[trigger] h1[i] && h2.subrange(
                12,
                16,
            )[i - 12] == h2[i]);
        assert(forall|i: int|
            16 <= i < 20 ==> h1.subrange(16, 20)[i - 16] == #[trigger] h1[i] && h2.subrange(
                16,
                20,
            )[i - 16] == h2[i]);
        assert(forall|i: int|
            20 <= i < 32 ==> h1.subrange(20, 32)[i - 20] == #[trigger] h1[i] && h2.subrange(
                20,
                32,
            )[i - 20] == h2[i]);
    }
    crate::ids::lemma_uuid_value(v1);
    crate::ids::lemma_uuid_value(v2);
}

/// The format-and-deltas tail of the document, from the format marker on.
pub open spec fn fmt_tail(e: Envelope) -> Seq<u8> {
    mark_format() + (format_wire_spec(e.format) + (mark_deltas() + (bool_bytes(e.deltas)
        + seq![125u8])))
}

/// The document re-grouped from the front.
#[verifier::rlimit(100)]
proof fn lemma_envelope_reassoc(e: Envelope)
    ensures
        envelope_bytes(e) == mark_head() + (uuid_bytes(e.id) + (mark_operation() + (
        op_wire_spec(e.operation) + (seq![34u8] + (params_bytes(e.params@) + fmt_tail(e)))))),
{
    assert(envelope_bytes(e) =~= mark_head() + (uuid_bytes(e.id) + (mark_operation() + (
    op_wire_spec(e.operation) + (seq![34u8] + (params_bytes(e.params@) + fmt_tail(e)))))));
}

/// Equal documents agree up to the parameter region: same identifier,
/// same operation, and the regions with their tails coincide.
#[verifier::rlimit(100)]
proof fn lemma_envelope_prefix(a: Envelope, b: Envelope)
    requires
        envelope_bytes(a) == envelope_bytes(b),
    ensures
        a.id == b.id,
        a.operation == b.operation,
        params_bytes(a.params@) + fmt_tail(a) == params_bytes(b.params@) + fmt_tail(b),
{
    let ua = uuid_bytes(a.id);
    let ub = uuid_bytes(b.id);
    let opa = op_wire_spec(a.operation);
    let opb = op_wire_spec(b.operation);
    let t3a = params_bytes(a.params@) + fmt_tail(a);
    let t3b = params_bytes(b.params@) + fmt_tail(b);
    let t2a = opa + (seq![34u8] + t3a);
    let t2b = opb + (seq![34u8] + t3b);
    let t1a = mark_operation() + t2a;
    let t1b = mark_operation() + t2b;
    let t0a = ua + t1a;
    let t0b = ub + t1b;
    lemma_envelope_reassoc(a);
    lemma_envelope_reassoc(b);
    lemma_strip_prefix(mark_head(), t0a, t0b);
    lemma_uuid_len(a.id);
    lemma_uuid_len(b.id);
    lemma_split_at(ua, t1a, ub, t1b);
    lemma_uuid_inj(a.id, b.id);
    lemma_strip_prefix(mark_operation(), t2a, t2b);
    lemma_op_wire_plain(a.operation);
    lemma_op_wire_plain(b.operation);
    assert(t2a =~= opa + seq![34u8] + t3a);
    assert(t2b =~= opb + seq![34u8] + t3b);
    lemma_quote_token_unique(opa, t3a, opb, t3b);
    lemma_op_unwire_complete(a.operation);
    lemma_op_unwire_complete(b.operation);
}

/// Equal tails agree on format and delta flag.
proof fn lemma_envelope_suffix(a: Envelope, b: Envelope)
    requires
        fmt_tail(a) == fmt_tail(b),
    ensures
        a.format == b.format,
        a.deltas == b.deltas,
{
    let fa = format_wire_spec(a.format);
    let fb = format_wire_spec(b.format);
    let da = bool_bytes(a.deltas);
    let db = bool_bytes(b.deltas);
    lemma_strip_prefix(
        mark_format(),
        fa + (mark_deltas() + (da + seq![125u8])),
        fb + (mark_deltas() + (db + seq![125u8])),
    );
    let mdrest = mark_deltas().subrange(1, 11);
    assert(mark_deltas() =~= seq![34u8] + mdrest);
    assert(fa + (mark_deltas() + (da + seq![125u8])) =~= fa + seq![34u8] + (mdrest + (da
        + seq![125u8])));
    assert(fb + (mark_deltas() + (db + seq![125u8])) =~= fb + seq![34u8] + (mdrest + (db
        + seq![125u8])));
    lemma_format_wire_plain(a.format);
    lemma_format_wire_plain(b.format);
    lemma_quote_token_unique(fa, mdrest + (da + seq![125u8]), fb, mdrest + (db + seq![125u8]));
    lemma_format_unwire_complete(a.format);
    lemma_format_unwire_complete(b.format);
    lemma_strip_prefix(mdrest, da + seq![125u8], db + seq![125u8]);
    if a.deltas != b.deltas {
        assert((da + seq![125u8]).len() == da.len() + 1);
        assert((db + seq![125u8]).len() == db.len() + 1);
        assert(false);
    }
}

/// The canonical document determines the envelope: two well-formed
/// envelopes with the same encoding agree on identifier, operation,
/// format, delta flag, and on the whole flat parameter mapping — field
/// name for field name, value bytes for value bytes. Together with
/// `encode_envelope` being exact and `decode_envelope` being sound, any
/// re-decoding of an encoded envelope recovers exactly what was encoded.
#[verifier::rlimit(100)]
pub proof fn lemma_envelope_unambiguous(a: Envelope, b: Envelope)
    requires
        env_wf(a),
        env_wf(b),
        envelope_bytes(a) == envelope_bytes(b),
    ensures
        a.id == b.id,
        a.operation == b.operation,
        a.format == b.format,
        a.deltas == b.deltas,
        a.params@.len() == b.params@.len(),
        forall|i: int|
            0 <= i < a.params@.len() ==> (#[trigger] a.params@[i]).key@ == b.params@[i].key@
                && value_bytes(a.params@[i].value) == value_bytes(b.params@[i].value),
{
    lemma_envelope_prefix(a, b);
    let t4a = fmt_tail(a);
    let t4b = fmt_tail(b);
    assert(t4a.len() >= 11);
    assert(t4a.subrange(0, 11) =~= mark_format());
    assert(t4b.len() >= 11);
    assert(t4b.subrange(0, 11) =~= mark_format());
    lemma_params_region_unique(a.params@, t4a, b.params@, t4b);
    lemma_envelope_suffix(a, b);
}

} // verus!
