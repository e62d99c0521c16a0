//! The caller-facing layer: connection configuration, the handshake
//! strings, per-request envelope construction, and the per-item filter
//! that drops empty bodies before they reach the caller.

use vstd::prelude::*;

use base64::Engine;

use crate::chain::{chain_is_fuel, ChainId};
use crate::envelope::{env_wf, param_wf, Envelope, Format, Operation, Param, ParamValue};
use crate::error::WsError;

verus! {

/// A connected client around a provider `T`.
pub struct Client<T> {
    pub inner: T,
}

impl<T> Client<T> {
    pub fn new(inner: T) -> (r: Self)
        ensures
            r.inner == inner,
    {
        Client { inner }
    }
}

/// Connection configuration, built up fluently and then connected.
pub struct ClientBuilder {
    pub endpoint: String,
    pub is_secure: bool,
    pub username: Option<String>,
    pub password: Option<String>,
}

impl ClientBuilder {
    /// Sets the endpoint of the client.
    pub fn endpoint(self, endpoint: &str) -> (r: Self)
        ensures
            r.endpoint@ == endpoint@,
            r.is_secure == self.is_secure,
            r.username == self.username,
            r.password == self.password,
    {
        ClientBuilder {
            endpoint: String::from_str(endpoint),
            is_secure: self.is_secure,
            username: self.username,
            password: self.password,
        }
    }

    /// Sets the credentials of the client.
    pub fn credential(self, username: &str, password: &str) -> (r: Self)
        ensures
            r.endpoint == self.endpoint,
            r.is_secure == self.is_secure,
            (r.username matches Some(u) && u@ == username@),
            (r.password matches Some(p) && p@ == password@),
    {
        ClientBuilder {
            endpoint: self.endpoint,
            is_secure: self.is_secure,
            username: Some(String::from_str(username)),
            password: Some(String::from_str(password)),
        }
    }

    /// Sets whether the connection is made over TLS. Default is true.
    pub fn secure(self, is_secure: bool) -> (r: Self)
        ensures
            r.endpoint == self.endpoint,
            r.is_secure == is_secure,
            r.username == self.username,
            r.password == self.password,
    {
        ClientBuilder {
            endpoint: self.endpoint,
            is_secure,
            username: self.username,
            password: self.password,
        }
    }
}

impl Default for ClientBuilder {
    /// The documented default host, TLS on, no credentials. Credentials
    /// and host read from the environment are the embedding program's
    /// business.
    fn default() -> (r: Self)
        ensures
            r.endpoint@ == "app.pangea.foundation"@,
            r.is_secure == true,
            r.username is None,
            r.password is None,
    {
        ClientBuilder {
            endpoint: String::from_str("app.pangea.foundation"),
            is_secure: true,
            username: None,
            password: None,
        }
    }
}

/// The socket URL of the handshake.
pub fn handshake_url(endpoint: &str, is_secure: bool) -> (r: String)
    ensures
        r@ == (if is_secure {
            "wss://"@
        } else {
            "ws://"@
        }) + endpoint@ + "/v1/websocket"@,
{
    let mut s = if is_secure {
        String::from_str("wss://")
    } else {
        String::from_str("ws://")
    };
    s.append(endpoint);
    s.append("/v1/websocket");
    s
}

/// What the base64 engine yields; a function of the input bytes alone.
pub uninterp spec fn base64_of(bytes: Seq<u8>) -> Seq<char>;

/// Relies on base64's standard engine: padded standard-alphabet encoding,
/// four output characters for every whole or partial three input bytes.
#[verifier::external_body]
fn b64_standard(data: &[u8]) -> (r: String)
    ensures
        r@ == base64_of(data@),
        r@.len() == 4 * ((data@.len() + 2) / 3),
{
    base64::engine::general_purpose::STANDARD.encode(data)
}

/// The value of the authorization header of the handshake: HTTP Basic
/// over `user:pass`.
pub fn basic_auth_value(username: &str, password: &str) -> (r: String)
    ensures
        r@ == "Basic "@ + base64_of(vstd::utf8::encode_utf8(username@ + ":"@ + password@)),
{
    let mut cred = String::from_str(username);
    cred.append(":");
    cred.append(password);
    let encoded = b64_standard(cred.as_str().as_bytes());
    let mut out = String::from_str("Basic ");
    out.append(encoded.as_str());
    out
}

/// Relies on uuid's version-4 generator: a fresh random identifier.
/// Nothing is promised of the value beyond the version nibble.
#[verifier::external_body]
pub fn fresh_id() -> (r: u128)
    ensures
        ((r >> 76) & 0xf) == 4,
{
    uuid::Uuid::new_v4().as_u128()
}

/// Every parameter usable and no field name taken twice.
pub open spec fn params_wf(ps: Seq<Param>) -> bool {
    &&& forall|i: int| 0 <= i < ps.len() ==> param_wf(#[trigger] ps[i])
    &&& forall|i: int, j: int| 0 <= i < j < ps.len() ==> ps[i].key@ != ps[j].key@
}

/// Checks one parameter's shape.
fn check_param(p: &Param) -> (r: bool)
    ensures
        r == param_wf(*p),
{
    if !crate::envelope::check_key(&p.key) {
        return false;
    }
    match &p.value {
        ParamValue::Text(t) => crate::envelope::check_plain(t),
        ParamValue::Uint(_) => true,
        ParamValue::Block(_) => true,
    }
}

/// Builds the request envelope, refusing parameter lists the wire format
/// cannot carry faithfully: a bad field name, a duplicate, a string value
/// needing escapes.
pub fn build_envelope(
    id: u128,
    operation: Operation,
    params: Vec<Param>,
    format: Format,
    deltas: bool,
) -> (r: Option<Envelope>)
    ensures
        match r {
            Some(env) => {
                &&& env_wf(env)
                &&& params_wf(params@)
                &&& env.id == id
                &&& env.operation == operation
                &&& env.params == params
                &&& env.format == format
                &&& env.deltas == deltas
            },
            None => !params_wf(params@),
        },
{
    let mut i: usize = 0;
    while i < params.len()
        invariant
            0 <= i <= params@.len(),
            forall|k: int| 0 <= k < i ==> param_wf(#[trigger] params@[k]),
            forall|k1: int, k2: int| 0 <= k1 < k2 < i ==> params@[k1].key@ != params@[k2].key@,
        decreases params@.len() - i,
    {
        if !check_param(&params[i]) {
            assert(!param_wf(params@[i as int]));
            return None;
        }
        let mut j: usize = 0;
        while j < i
            invariant
                0 <= j <= i < params@.len(),
                forall|k: int| 0 <= k < j ==> params@[k].key@ != params@[i as int].key@,
            decreases i - j,
        {
            if crate::envelope::vec_eq(&params[j].key, &params[i].key) {
                assert(params@[j as int].key@ == params@[i as int].key@);
                return None;
            }
            j = j + 1;
        }
        i = i + 1;
    }
    let env = Envelope { id, operation, params, format, deltas };
    Some(env)
}

/// The per-item filter the facade wraps a caller stream in: an empty data
/// chunk produces no item; everything else passes through unchanged.
pub fn filter_chunk(item: Result<Vec<u8>, WsError>) -> (r: Option<Result<Vec<u8>, WsError>>)
    ensures
        r == (if (item matches Ok(d) && d@.len() == 0) {
            Option::<Result<Vec<u8>, WsError>>::None
        } else {
            Option::Some(item)
        }),
{
    match item {
        Ok(d) => {
            if d.len() == 0 {
                None
            } else {
                Some(Ok(d))
            }
        },
        Err(e) => Some(Err(e)),
    }
}

/// Validates a Fuel query's chain set: every named chain must belong to
/// the Fuel family, or the request fails synchronously with the offending
/// set and nothing is transmitted.
pub fn check_chain(chains: &Vec<ChainId>) -> (r: Result<(), WsError>)
    ensures
        match r {
            Ok(_) => forall|i: int| 0 <= i < chains@.len() ==> chain_is_fuel(#[trigger] chains@[i]),
            Err(e) => (e matches WsError::InvalidChainId(cs) && cs@ == chains@) && exists|i: int|
                0 <= i < chains@.len() && !chain_is_fuel(#[trigger] chains@[i]),
        },
{
    let mut i: usize = 0;
    while i < chains.len()
        invariant
            0 <= i <= chains@.len(),
            forall|k: int| 0 <= k < i ==> chain_is_fuel(#[trigger] chains@[k]),
        decreases chains@.len() - i,
    {
        if !chains[i].is_fuel() {
            assert(!chain_is_fuel(chains@[i as int]));
            let copy = clone_chains(chains);
            return Err(WsError::InvalidChainId(copy));
        }
        i = i + 1;
    }
    Ok(())
}

/// A value copy of a chain list.
fn clone_chains(chains: &Vec<ChainId>) -> (r: Vec<ChainId>)
    ensures
        r@ == chains@,
{
    let mut out: Vec<ChainId> = Vec::new();
    let mut i: usize = 0;
    while i < chains.len()
        invariant
            0 <= i <= chains@.len(),
            out@ == chains@.subrange(0, i as int),
        decreases chains@.len() - i,
    {
        out.push(chains[i]);
        assert(chains@.subrange(0, i + 1) =~= chains@.subrange(0, i as int) + seq![
            chains@[i as int],
        ]);
        i = i + 1;
    }
    assert(chains@.subrange(0, chains@.len() as int) =~= chains@);
    out
}

} // verus!
