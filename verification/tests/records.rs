use pangea_client::chain::{default_chains, ChainId};
use pangea_client::client::{build_envelope, check_chain, filter_chunk, ClientBuilder};
use pangea_client::envelope::{encode_envelope, Bound, Format, Operation, ParamValue};
use pangea_client::error::WsError;
use pangea_client::mira::{EventType, Side};
use pangea_client::requests::{
    GetFuelBlocksRequest, GetMiraPoolsRequest, GetSparkOrderRequest, GetSrc20,
};
use pangea_client::status::decode_status;

#[test]
fn fuel_blocks_request_defaults() {
    let r = GetFuelBlocksRequest::default();
    assert_eq!(r.chains, vec![ChainId::FUEL]);
    assert_eq!(r.from_block, Bound::Latest);
    assert_eq!(r.to_block, Bound::Latest);
    assert_eq!(r.da_block_number__gte, None);
    assert_eq!(r.da_block_number__lte, None);
}

#[test]
fn src20_request_reads_from_the_chain_start() {
    let r = GetSrc20::default();
    assert_eq!(r.from_block, Bound::Exact(0));
    assert_eq!(r.to_block, Bound::Latest);
    assert!(r.symbol__in.is_empty());
    assert_eq!(pangea_client::requests::default_src20_from_block(), Bound::Exact(0));
}

#[test]
fn default_chains_is_the_fuel_mainnet() {
    assert_eq!(default_chains(), vec![ChainId::FUEL]);
}

#[test]
fn record_flattens_with_empty_filters_omitted() {
    let mut r = GetFuelBlocksRequest::default();
    r.da_block_number__gte = Some(5);
    let ps = r.params();
    assert_eq!(ps.len(), 4); // chains, from, to, gte; lte omitted
    assert_eq!(ps[0].key, b"chains".to_vec());
    match &ps[0].value {
        ParamValue::Text(t) => assert_eq!(t, &b"fuel".to_vec()),
        other => panic!("expected a text filter, got {:?}", other),
    }
    assert_eq!(ps[3].key, b"da_block_number__gte".to_vec());
    match &ps[3].value {
        ParamValue::Uint(n) => assert_eq!(*n, 5),
        other => panic!("expected a number, got {:?}", other),
    }
}

#[test]
fn set_filters_join_with_commas() {
    let mut r = GetSparkOrderRequest::default();
    r.order_id__in = vec!["aa".to_string(), "bb".to_string(), "cc".to_string()];
    let ps = r.params();
    let p = ps.iter().find(|p| p.key == b"order_id__in".to_vec()).unwrap();
    match &p.value {
        ParamValue::Text(t) => assert_eq!(t, &b"aa,bb,cc".to_vec()),
        other => panic!("expected a joined filter, got {:?}", other),
    }
}

#[test]
fn a_record_reaches_the_wire_whole() {
    let mut r = GetFuelBlocksRequest::default();
    r.chains = vec![ChainId::FUEL, ChainId::FUELTESTNET];
    r.from_block = Bound::Exact(100);
    let env = build_envelope(3, Operation::GetBlocks, r.params(), Format::JsonStream, false)
        .expect("record parameters are well formed");
    let text = String::from_utf8(encode_envelope(&env)).unwrap();
    assert!(text.contains("\"chains\":\"fuel,fueltestnet\""));
    assert!(text.contains("\"from_block\":{\"Exact\":100}"));
    assert!(text.contains("\"to_block\":\"Latest\""));
}

#[test]
fn mira_record_flattens_like_the_rest() {
    let r = GetMiraPoolsRequest {
        chains: default_chains(),
        from_block: Bound::Latest,
        to_block: Bound::Latest,
        pool_address__in: vec!["p1".to_string()],
        asset0_address__in: vec![],
        asset1_address__in: vec![],
        assets__in: vec![],
    };
    let ps = r.params();
    assert_eq!(ps.len(), 4); // chains, from, to, pool filter
}

#[test]
fn fuel_queries_reject_other_chains() {
    let r = GetSparkOrderRequest { chains: vec![ChainId::ETH], ..Default::default() };
    match check_chain(&r.chains) {
        Err(WsError::InvalidChainId(cs)) => assert_eq!(cs, vec![ChainId::ETH]),
        other => panic!("expected the chain set back, got {:?}", other),
    }
    assert!(check_chain(&vec![ChainId::FUEL, ChainId::FUELTESTNET]).is_ok());
}

#[test]
fn builder_accumulates_configuration() {
    let b = ClientBuilder::default();
    assert_eq!(b.endpoint, "app.pangea.foundation");
    assert!(b.is_secure);
    assert!(b.username.is_none());
    let b = b.endpoint("example.org").credential("u", "p").secure(false);
    assert_eq!(b.endpoint, "example.org");
    assert!(!b.is_secure);
    assert_eq!(b.username.as_deref(), Some("u"));
    assert_eq!(b.password.as_deref(), Some("p"));
}

#[test]
fn handshake_strings_are_exact() {
    assert_eq!(
        pangea_client::client::handshake_url("example.org", true),
        "wss://example.org/v1/websocket"
    );
    assert_eq!(
        pangea_client::client::handshake_url("example.org", false),
        "ws://example.org/v1/websocket"
    );
    // RFC 7617's own example user-id and password
    assert_eq!(
        pangea_client::client::basic_auth_value("Aladdin", "open sesame"),
        "Basic QWxhZGRpbjpvcGVuIHNlc2FtZQ=="
    );
}

#[test]
fn fresh_identifiers_differ_and_carry_the_version() {
    let a = pangea_client::client::fresh_id();
    let b = pangea_client::client::fresh_id();
    assert_ne!(a, b);
    assert_eq!((a >> 76) & 0xf, 4);
}

#[test]
fn event_and_side_tags_round_trip() {
    assert_eq!(EventType::as_str(&EventType::Mint), "Mint");
    assert_eq!(EventType::as_str(&EventType::Burn), "Burn");
    assert_eq!(EventType::as_str(&EventType::Swap), "Swap");
    assert_eq!(EventType::try_from(0).unwrap(), EventType::Mint);
    assert_eq!(EventType::try_from(2).unwrap(), EventType::Swap);
    assert!(matches!(EventType::try_from(9), Err(WsError::UnknownEventType(9))));
    assert_eq!(Side::as_str(&Side::Buy), "Buy");
    assert_eq!(Side::try_from(1).unwrap(), Side::Sell);
    assert!(matches!(Side::try_from(7), Err(WsError::UnknownSide(7))));
}

#[test]
fn status_chunks_decode_field_by_field() {
    let chunk = "{\"type\": \"status\", \"chain\": 1, \"chain_code\": \"ETH\", \"chain_name\": \"Ethereum\", \"entity\": \"blocks\", \"latest_block_height\": 123456, \"service\": \"api\", \"status\": \"ok\", \"timestamp\": 1700000000}".as_bytes().to_vec();
    let st = decode_status(&chunk).expect("a well-formed record");
    assert_eq!(st.kind, "status");
    assert_eq!(st.chain, 1);
    assert_eq!(st.chain_code, "ETH");
    assert_eq!(st.chain_name, "Ethereum");
    assert_eq!(st.entity, "blocks");
    assert_eq!(st.latest_block_height, 123456);
    assert_eq!(st.service, "api");
    assert_eq!(st.status, "ok");
    assert_eq!(st.timestamp, 1700000000);
    assert!(matches!(
        decode_status(&b"not a record".to_vec()),
        Err(WsError::UnexpectedMessageFormat)
    ));
}

#[test]
fn empty_chunk_filtering_applies_before_decoding() {
    assert!(filter_chunk(Ok(Vec::new())).is_none());
    assert!(matches!(filter_chunk(Ok(b"x".to_vec())), Some(Ok(_))));
    assert!(matches!(
        filter_chunk(Err(WsError::PingTimeout)),
        Some(Err(WsError::PingTimeout))
    ));
}
