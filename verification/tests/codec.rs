use pangea_client::client::build_envelope;
use pangea_client::envelope::{
    decode_envelope, encode_envelope, Bound, Format, Operation, Param, ParamValue,
};

fn sample_params() -> Vec<Param> {
    vec![
        Param { key: b"chains".to_vec(), value: ParamValue::Text(b"eth".to_vec()) },
        Param { key: b"from_block".to_vec(), value: ParamValue::Block(Bound::FromLatest(2)) },
        Param { key: b"to_block".to_vec(), value: ParamValue::Block(Bound::Latest) },
    ]
}

const SAMPLE_ID: u128 = 0x00112233445566778899aabbccddeeff;

#[test]
fn encodes_the_documented_envelope() {
    let env = build_envelope(SAMPLE_ID, Operation::GetBlocks, sample_params(), Format::JsonStream, false)
        .expect("well-formed params");
    let bytes = encode_envelope(&env);
    let expected = "{\"id\":\"00112233-4455-6677-8899-aabbccddeeff\",\"operation\":\"getBlocks\",\"chains\":\"eth\",\"from_block\":{\"FromLatest\":2},\"to_block\":\"Latest\",\"format\":\"JsonStream\",\"deltas\":false}";
    assert_eq!(String::from_utf8(bytes).unwrap(), expected);
}

#[test]
fn encoded_envelope_is_valid_json_with_the_right_fields() {
    let env = build_envelope(SAMPLE_ID, Operation::GetBlocks, sample_params(), Format::JsonStream, false)
        .unwrap();
    let bytes = encode_envelope(&env);
    let v: serde_json::Value = serde_json::from_slice(&bytes).expect("valid JSON");
    assert_eq!(v["id"].as_str().unwrap(), "00112233-4455-6677-8899-aabbccddeeff");
    assert_eq!(v["operation"].as_str().unwrap(), "getBlocks");
    assert_eq!(v["chains"].as_str().unwrap(), "eth");
    assert_eq!(v["from_block"]["FromLatest"].as_u64().unwrap(), 2);
    assert_eq!(v["to_block"].as_str().unwrap(), "Latest");
    assert_eq!(v["format"].as_str().unwrap(), "JsonStream");
    assert_eq!(v["deltas"].as_bool().unwrap(), false);
}

#[test]
fn envelope_round_trips_through_its_own_decoder() {
    let env = build_envelope(
        7,
        Operation::GetSparkOrder,
        vec![
            Param { key: b"chains".to_vec(), value: ParamValue::Text(b"fuel".to_vec()) },
            Param { key: b"from_block".to_vec(), value: ParamValue::Block(Bound::Exact(10)) },
            Param { key: b"to_block".to_vec(), value: ParamValue::Block(Bound::Subscribe) },
            Param { key: b"mint_amount__gte".to_vec(), value: ParamValue::Uint(999) },
        ],
        Format::ArrowIpc,
        true,
    )
    .unwrap();
    let bytes = encode_envelope(&env);
    let back = decode_envelope(&bytes).expect("canonical document decodes");
    assert_eq!(back.id, env.id);
    assert_eq!(back.operation, env.operation);
    assert_eq!(back.format, env.format);
    assert_eq!(back.deltas, env.deltas);
    assert_eq!(back.params.len(), env.params.len());
    // the decoded envelope encodes to the very same document
    assert_eq!(encode_envelope(&back), bytes);
}

#[test]
fn decoder_rejects_a_bad_document() {
    assert!(decode_envelope(&b"not json".to_vec()).is_none());
    assert!(decode_envelope(&b"{\"id\":\"zz\"}".to_vec()).is_none());
    // trailing junk after the closing brace is refused
    let env = build_envelope(7, Operation::GetStatus, vec![], Format::JsonStream, false).unwrap();
    let mut bytes = encode_envelope(&env);
    bytes.push(b' ');
    assert!(decode_envelope(&bytes).is_none());
}

#[test]
fn build_envelope_refuses_bad_parameter_lists() {
    // a reserved field name
    let p = vec![Param { key: b"format".to_vec(), value: ParamValue::Uint(1) }];
    assert!(build_envelope(1, Operation::GetLogs, p, Format::JsonStream, false).is_none());
    // a duplicate field name
    let p = vec![
        Param { key: b"a".to_vec(), value: ParamValue::Uint(1) },
        Param { key: b"a".to_vec(), value: ParamValue::Uint(2) },
    ];
    assert!(build_envelope(1, Operation::GetLogs, p, Format::JsonStream, false).is_none());
    // a string value that would need escaping
    let p = vec![Param { key: b"x".to_vec(), value: ParamValue::Text(b"a\"b".to_vec()) }];
    assert!(build_envelope(1, Operation::GetLogs, p, Format::JsonStream, false).is_none());
}

#[test]
fn every_operation_name_round_trips() {
    let ops = vec![
        (Operation::GetStatus, "getStatus"),
        (Operation::GetBlocks, "getBlocks"),
        (Operation::GetLogs, "getLogs"),
        (Operation::GetTxs, "getTxs"),
        (Operation::GetReceipts, "getReceipts"),
        (Operation::GetFuelLogsDecoded, "getDecodedLogs"),
        (Operation::GetMessages, "getMessages"),
        (Operation::GetUnspentUtxos, "getUnspentUtxos"),
        (Operation::GetUniswapV2Pairs, "getUniswapV2Pairs"),
        (Operation::GetUniswapV2Prices, "getUniswapV2Prices"),
        (Operation::GetUniswapV3Fees, "getUniswapV3Fees"),
        (Operation::GetUniswapV3Pools, "getUniswapV3Pools"),
        (Operation::GetUniswapV3Positions, "getUniswapV3Positions"),
        (Operation::GetUniswapV3Prices, "getUniswapV3Prices"),
        (Operation::GetCurveTokens, "getCurveTokens"),
        (Operation::GetCurvePools, "getCurvePools"),
        (Operation::GetCurvePrices, "getCurvePrices"),
        (Operation::GetTransfers, "getTransfers"),
        (Operation::GetErc20, "getErc20"),
        (Operation::GetErc20Approvals, "getErc20Approvals"),
        (Operation::GetErc20Transfers, "getErc20Transfers"),
        (Operation::GetSparkMarket, "getSparkMarket"),
        (Operation::GetSparkOrder, "getSparkOrder"),
        (Operation::GetSrc20, "getSrc20"),
        (Operation::GetSrc7, "getSrc7"),
        (Operation::GetMiraV1Pools, "getMiraV1Pools"),
        (Operation::GetMiraV1Liqudity, "getMiraV1Liqudity"),
        (Operation::GetMiraV1Swaps, "getMiraV1Swaps"),
    ];
    for (op, name) in ops {
        assert_eq!(pangea_client::envelope::op_wire(&op), name.as_bytes().to_vec());
        assert_eq!(pangea_client::envelope::op_unwire(&name.as_bytes().to_vec()), Some(op));
    }
}

#[test]
fn format_names_round_trip() {
    let fmts = vec![
        (Format::JsonStream, "JsonStream"),
        (Format::Arrow, "Arrow"),
        (Format::ArrowStream, "ArrowStream"),
        (Format::ArrowIpc, "ArrowIpc"),
        (Format::CsvStream, "CsvStream"),
    ];
    for (f, name) in fmts {
        assert_eq!(pangea_client::envelope::format_wire(&f), name.as_bytes().to_vec());
        assert_eq!(pangea_client::envelope::format_unwire(&name.as_bytes().to_vec()), Some(f));
    }
    assert_eq!(Format::default(), Format::JsonStream);
    assert_eq!(Bound::default(), Bound::Latest);
}

#[test]
fn every_operation_round_trips_through_the_decoder() {
    let ops = vec![
        Operation::GetStatus,
        Operation::GetBlocks,
        Operation::GetLogs,
        Operation::GetTxs,
        Operation::GetReceipts,
        Operation::GetFuelLogsDecoded,
        Operation::GetMessages,
        Operation::GetUnspentUtxos,
        Operation::GetUniswapV2Pairs,
        Operation::GetUniswapV2Prices,
        Operation::GetUniswapV3Fees,
        Operation::GetUniswapV3Pools,
        Operation::GetUniswapV3Positions,
        Operation::GetUniswapV3Prices,
        Operation::GetCurveTokens,
        Operation::GetCurvePools,
        Operation::GetCurvePrices,
        Operation::GetTransfers,
        Operation::GetErc20,
        Operation::GetErc20Approvals,
        Operation::GetErc20Transfers,
        Operation::GetSparkMarket,
        Operation::GetSparkOrder,
        Operation::GetSrc20,
        Operation::GetSrc7,
        Operation::GetMiraV1Pools,
        Operation::GetMiraV1Liqudity,
        Operation::GetMiraV1Swaps,
    ];
    for (i, op) in ops.into_iter().enumerate() {
        let env = build_envelope(i as u128, op, sample_params(), Format::CsvStream, true)
            .unwrap();
        let bytes = encode_envelope(&env);
        let back = decode_envelope(&bytes).expect("a canonical document decodes");
        assert_eq!(back.operation, op);
        assert_eq!(back.id, i as u128);
        assert_eq!(encode_envelope(&back), bytes);
    }
}

#[test]
fn largest_numbers_survive_the_wire() {
    let p = vec![Param { key: b"n".to_vec(), value: ParamValue::Uint(u64::MAX) }];
    let env = build_envelope(u128::MAX, Operation::GetLogs, p, Format::JsonStream, true).unwrap();
    let bytes = encode_envelope(&env);
    let text = String::from_utf8(bytes.clone()).unwrap();
    assert!(text.contains("\"id\":\"ffffffff-ffff-ffff-ffff-ffffffffffff\""));
    assert!(text.contains("\"n\":18446744073709551615"));
    let back = decode_envelope(&bytes).unwrap();
    assert_eq!(back.id, u128::MAX);
    match &back.params[0].value {
        ParamValue::Uint(n) => assert_eq!(*n, u64::MAX),
        other => panic!("expected a number, got {:?}", other),
    }
}
