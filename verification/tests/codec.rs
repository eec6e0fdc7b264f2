use doordb_client::cbor::{
    expect_bytes, read_head, read_text, read_unsigned, write_head, write_text,
};
use doordb_client::codec::{mark_bytes, read_mark, write_mark, Mark};
use doordb_client::{
    decode_envelope, decode_query, encode_envelope, encode_query, DecodeError, Envelope, Method,
    Query, Response, TextMethod,
};
use std::collections::BTreeMap;

fn every_query() -> Vec<Query> {
    vec![
        Query::Counter { key: "c".to_string(), method: Method::Create },
        Query::Counter { key: "c".to_string(), method: Method::Delete },
        Query::Counter { key: "visits/2024".to_string(), method: Method::Get },
        Query::Counter { key: String::new(), method: Method::Increment },
        Query::Text(TextMethod::Delete { key: "k".to_string() }),
        Query::Text(TextMethod::Read { key: "gr\u{fc}\u{df}e \u{2713}".to_string() }),
        Query::Text(TextMethod::Write { key: "k".to_string(), value: "v".to_string() }),
        Query::Text(TextMethod::Write { key: "x".repeat(300), value: "y".repeat(70_000) }),
    ]
}

fn every_envelope() -> Vec<Envelope> {
    vec![
        Ok(Response::Counter(0)),
        Ok(Response::Counter(23)),
        Ok(Response::Counter(24)),
        Ok(Response::Counter(255)),
        Ok(Response::Counter(256)),
        Ok(Response::Counter(65_535)),
        Ok(Response::Counter(65_536)),
        Ok(Response::Counter(4_294_967_295)),
        Ok(Response::Counter(4_294_967_296)),
        Ok(Response::Counter(u64::MAX)),
        Ok(Response::Text(String::new())),
        Ok(Response::Text("v".to_string())),
        Ok(Response::Text("\u{1f600} na\u{ef}ve".to_string())),
        Err("boom".to_string()),
        Err(String::new()),
    ]
}

fn text(s: &str) -> serde_cbor::Value {
    serde_cbor::Value::Text(s.to_string())
}

fn map(entries: Vec<(&str, serde_cbor::Value)>) -> serde_cbor::Value {
    let mut m: BTreeMap<serde_cbor::Value, serde_cbor::Value> = BTreeMap::new();
    for (k, v) in entries {
        m.insert(text(k), v);
    }
    serde_cbor::Value::Map(m)
}

fn method_name(method: Method) -> &'static str {
    match method {
        Method::Create => "Create",
        Method::Delete => "Delete",
        Method::Get => "Get",
        Method::Increment => "Increment",
    }
}

fn query_tree(query: &Query) -> serde_cbor::Value {
    match query {
        Query::Counter { key, method } => map(vec![(
            "Counter",
            map(vec![("key", text(key)), ("method", text(method_name(*method)))]),
        )]),
        Query::Text(TextMethod::Delete { key }) => {
            map(vec![("Text", map(vec![("Delete", map(vec![("key", text(key))]))]))])
        }
        Query::Text(TextMethod::Read { key }) => {
            map(vec![("Text", map(vec![("Read", map(vec![("key", text(key))]))]))])
        }
        Query::Text(TextMethod::Write { key, value }) => map(vec![(
            "Text",
            map(vec![("Write", map(vec![("key", text(key)), ("value", text(value))]))]),
        )]),
    }
}

fn envelope_tree(envelope: &Envelope) -> serde_cbor::Value {
    match envelope {
        Ok(Response::Counter(n)) => map(vec![(
            "Ok",
            map(vec![("Counter", serde_cbor::Value::Integer(*n as i128))]),
        )]),
        Ok(Response::Text(s)) => map(vec![("Ok", map(vec![("Text", text(s))]))]),
        Err(message) => map(vec![("Err", text(message))]),
    }
}

#[test]
fn query_round_trip_every_variant() {
    for query in every_query() {
        let bytes = encode_query(&query);
        assert_eq!(decode_query(&bytes), Ok(query));
    }
}

#[test]
fn envelope_round_trip_every_variant() {
    for envelope in every_envelope() {
        let bytes = encode_envelope(&envelope);
        assert_eq!(decode_envelope(&bytes), Ok(envelope));
    }
}

#[test]
fn text_write_query_bytes() {
    let query = Query::Text(TextMethod::Write { key: "k".to_string(), value: "v".to_string() });
    assert_eq!(
        encode_query(&query),
        b"\xa1\x64Text\xa1\x65Write\xa2\x63key\x61k\x65value\x61v".to_vec()
    );
}

#[test]
fn text_delete_and_read_query_bytes() {
    let delete = Query::Text(TextMethod::Delete { key: "k".to_string() });
    assert_eq!(encode_query(&delete), b"\xa1\x64Text\xa1\x66Delete\xa1\x63key\x61k".to_vec());
    let read = Query::Text(TextMethod::Read { key: "missing".to_string() });
    assert_eq!(encode_query(&read), b"\xa1\x64Text\xa1\x64Read\xa1\x63key\x67missing".to_vec());
}

#[test]
fn counter_query_bytes() {
    let increment = Query::Counter { key: "c".to_string(), method: Method::Increment };
    assert_eq!(
        encode_query(&increment),
        b"\xa1\x67Counter\xa2\x63key\x61c\x66method\x69Increment".to_vec()
    );
    let create = Query::Counter { key: "c".to_string(), method: Method::Create };
    assert_eq!(
        encode_query(&create),
        b"\xa1\x67Counter\xa2\x63key\x61c\x66method\x66Create".to_vec()
    );
    let delete = Query::Counter { key: "c".to_string(), method: Method::Delete };
    assert_eq!(
        encode_query(&delete),
        b"\xa1\x67Counter\xa2\x63key\x61c\x66method\x66Delete".to_vec()
    );
    let get = Query::Counter { key: "c".to_string(), method: Method::Get };
    assert_eq!(encode_query(&get), b"\xa1\x67Counter\xa2\x63key\x61c\x66method\x63Get".to_vec());
}

#[test]
fn envelope_bytes() {
    assert_eq!(
        encode_envelope(&Ok(Response::Text("v".to_string()))),
        b"\xa1\x62Ok\xa1\x64Text\x61v".to_vec()
    );
    assert_eq!(
        encode_envelope(&Ok(Response::Counter(5))),
        b"\xa1\x62Ok\xa1\x67Counter\x05".to_vec()
    );
    assert_eq!(encode_envelope(&Err("boom".to_string())), b"\xa1\x63Err\x64boom".to_vec());
}

#[test]
fn head_takes_the_shortest_width() {
    let cases: Vec<(u64, Vec<u8>)> = vec![
        (0, vec![0x00]),
        (23, vec![0x17]),
        (24, vec![0x18, 0x18]),
        (255, vec![0x18, 0xff]),
        (256, vec![0x19, 0x01, 0x00]),
        (500, vec![0x19, 0x01, 0xf4]),
        (65_535, vec![0x19, 0xff, 0xff]),
        (65_536, vec![0x1a, 0x00, 0x01, 0x00, 0x00]),
        (4_294_967_295, vec![0x1a, 0xff, 0xff, 0xff, 0xff]),
        (4_294_967_296, vec![0x1b, 0, 0, 0, 1, 0, 0, 0, 0]),
        (0x0102_0304_0506_0708, vec![0x1b, 1, 2, 3, 4, 5, 6, 7, 8]),
        (u64::MAX, vec![0x1b, 0xff, 0xff, 0xff, 0xff, 0xff, 0xff, 0xff, 0xff]),
    ];
    for (n, expected) in cases {
        let mut out: Vec<u8> = vec![0xee];
        write_head(&mut out, 0, n);
        assert_eq!(out[0], 0xee);
        assert_eq!(out[1..].to_vec(), expected);
        assert_eq!(read_head(&out, 1, 0), Some((n, out.len())));
        assert_eq!(read_unsigned(&out, 1), Some((n, out.len())));
        assert_eq!(read_head(&out, 1, 3), None);
    }
}

#[test]
fn head_carries_the_major_type() {
    let mut out: Vec<u8> = Vec::new();
    write_head(&mut out, 3, 5);
    write_head(&mut out, 5, 2);
    write_head(&mut out, 7, 300);
    assert_eq!(out, vec![0x65, 0xa2, 0xf9, 0x01, 0x2c]);
    assert_eq!(read_head(&out, 0, 3), Some((5, 1)));
    assert_eq!(read_head(&out, 1, 5), Some((2, 2)));
    assert_eq!(read_head(&out, 2, 7), Some((300, 5)));
    assert_eq!(read_head(&out, 5, 7), None);
    assert_eq!(read_head(&out, usize::MAX, 7), None);
}

#[test]
fn head_in_a_longer_width_is_refused() {
    assert_eq!(read_head(&[0x18, 0x17], 0, 0), None);
    assert_eq!(read_head(&[0x19, 0x00, 0xff], 0, 0), None);
    assert_eq!(read_head(&[0x1a, 0x00, 0x00, 0xff, 0xff], 0, 0), None);
    assert_eq!(read_head(&[0x1b, 0, 0, 0, 0, 0xff, 0xff, 0xff, 0xff], 0, 0), None);
}

#[test]
fn head_that_is_cut_short_is_refused() {
    assert_eq!(read_head(&[], 0, 0), None);
    assert_eq!(read_head(&[0x18], 0, 0), None);
    assert_eq!(read_head(&[0x19, 0x01], 0, 0), None);
    assert_eq!(read_head(&[0x1a, 0x01, 0x00, 0x00], 0, 0), None);
    assert_eq!(read_head(&[0x1b, 1, 0, 0, 0, 0, 0, 0], 0, 0), None);
}

#[test]
fn head_of_reserved_or_indefinite_width_is_refused() {
    assert_eq!(read_head(&[0x1c], 0, 0), None);
    assert_eq!(read_head(&[0x1d], 0, 0), None);
    assert_eq!(read_head(&[0x1e], 0, 0), None);
    assert_eq!(read_head(&[0x7f, 0x61, 0x61, 0xff], 0, 3), None);
}

#[test]
fn text_item_is_utf8_behind_its_length() {
    let mut out: Vec<u8> = Vec::new();
    write_text(&mut out, "gr\u{fc}n");
    assert_eq!(out, vec![0x65, b'g', b'r', 0xc3, 0xbc, b'n']);
    assert_eq!(read_text(&out, 0), Some(("gr\u{fc}n".to_string(), 6)));
    let long = "a".repeat(24);
    let mut out: Vec<u8> = Vec::new();
    write_text(&mut out, &long);
    assert_eq!(out[..2].to_vec(), vec![0x78, 24]);
    assert_eq!(read_text(&out, 0), Some((long, 26)));
}

#[test]
fn text_item_that_is_not_utf8_is_refused() {
    assert_eq!(read_text(&[0x62, 0xc3, 0x28], 0), None);
    assert_eq!(read_text(&[0x61, 0xff], 0), None);
    assert_eq!(read_text(&[0x63, 0xed, 0xa0, 0x80], 0), None);
    assert_eq!(read_text(&[0x62, 0xc3, 0xbc], 0), Some(("\u{fc}".to_string(), 3)));
    assert_eq!(read_text(&[0x62, 0xc0, 0x80], 0), None);
    assert_eq!(read_text(&[0x63, 0xe0, 0x80, 0x80], 0), None);
    assert_eq!(read_text(&[0x64, 0xf4, 0x90, 0x80, 0x80], 0), None);
    assert_eq!(read_text(&[0x61, 0x80], 0), None);
    assert_eq!(read_text(&[0x62, 0xe2, 0x9c], 0), None);
    assert_eq!(
        read_text(&[0x64, 0xf0, 0x9f, 0x98, 0x80], 0),
        Some(("\u{1f600}".to_string(), 5))
    );
    assert_eq!(
        read_text(&[0x64, 0xf4, 0x8f, 0xbf, 0xbf], 0),
        Some(("\u{10ffff}".to_string(), 5))
    );
}

#[test]
fn text_item_that_is_cut_short_is_refused() {
    assert_eq!(read_text(&[0x63, b'a', b'b'], 0), None);
    assert_eq!(read_text(&[0x1b, 0xff, 0xff, 0xff, 0xff, 0xff, 0xff, 0xff, 0xff], 0), None);
    assert_eq!(read_text(&[0x7b, 0xff, 0xff, 0xff, 0xff, 0xff, 0xff, 0xff, 0xff, b'a'], 0), None);
    assert_eq!(read_text(&[0x05], 0), None);
}

#[test]
fn expect_bytes_matches_in_place() {
    let bytes = b"abcdef";
    assert_eq!(expect_bytes(bytes, 2, b"cd"), Some(4));
    assert_eq!(expect_bytes(bytes, 2, b"ce"), None);
    assert_eq!(expect_bytes(bytes, 4, b"efg"), None);
    assert_eq!(expect_bytes(bytes, 6, b""), Some(6));
    assert_eq!(expect_bytes(bytes, 7, b""), None);
    assert_eq!(expect_bytes(bytes, usize::MAX, b"a"), None);
}

#[test]
fn marks_are_the_names_as_text_items() {
    assert_eq!(mark_bytes(Mark::CounterQuery), b"\xa1\x67Counter\xa2\x63key".to_vec());
    assert_eq!(mark_bytes(Mark::MethodField), b"\x66method".to_vec());
    assert_eq!(mark_bytes(Mark::TextQuery), b"\xa1\x64Text".to_vec());
    assert_eq!(mark_bytes(Mark::DeleteText), b"\xa1\x66Delete\xa1\x63key".to_vec());
    assert_eq!(mark_bytes(Mark::ReadText), b"\xa1\x64Read\xa1\x63key".to_vec());
    assert_eq!(mark_bytes(Mark::WriteText), b"\xa1\x65Write\xa2\x63key".to_vec());
    assert_eq!(mark_bytes(Mark::ValueField), b"\x65value".to_vec());
    assert_eq!(mark_bytes(Mark::Create), b"\x66Create".to_vec());
    assert_eq!(mark_bytes(Mark::Delete), b"\x66Delete".to_vec());
    assert_eq!(mark_bytes(Mark::Get), b"\x63Get".to_vec());
    assert_eq!(mark_bytes(Mark::Increment), b"\x69Increment".to_vec());
    assert_eq!(mark_bytes(Mark::CounterResponse), b"\xa1\x67Counter".to_vec());
    assert_eq!(mark_bytes(Mark::TextResponse), b"\xa1\x64Text".to_vec());
    assert_eq!(mark_bytes(Mark::Success), b"\xa1\x62Ok".to_vec());
    assert_eq!(mark_bytes(Mark::Failure), b"\xa1\x63Err".to_vec());
}

#[test]
fn marks_are_written_and_found() {
    let mut out: Vec<u8> = vec![0x00];
    write_mark(&mut out, Mark::Failure);
    assert_eq!(out, b"\x00\xa1\x63Err".to_vec());
    assert_eq!(read_mark(&out, 1, Mark::Failure), Some(6));
    assert_eq!(read_mark(&out, 1, Mark::Success), None);
    assert_eq!(read_mark(&out, 0, Mark::Failure), None);
}

#[test]
fn unknown_variant_name_is_a_decode_error() {
    assert_eq!(decode_envelope(b"\xa1\x65Maybe\x61v"), Err(DecodeError));
    assert_eq!(decode_envelope(b"\xa1\x62Ok\xa1\x65Blob!\x61v"), Err(DecodeError));
    assert_eq!(decode_query(b"\xa1\x66Binary\xa1\x63key\x61k"), Err(DecodeError));
    assert_eq!(decode_query(b"\xa1\x64Text\xa1\x66Append\xa1\x63key\x61k"), Err(DecodeError));
    assert_eq!(
        decode_query(b"\xa1\x67Counter\xa2\x63key\x61c\x66method\x65Reset"),
        Err(DecodeError)
    );
}

#[test]
fn malformed_frames_are_decode_errors() {
    assert_eq!(decode_envelope(b""), Err(DecodeError));
    assert_eq!(decode_envelope(b"\xff\x00\x13\x37"), Err(DecodeError));
    assert_eq!(decode_envelope(b"\xa1\x62Ok"), Err(DecodeError));
    assert_eq!(decode_envelope(b"\xa1\x62Ok\xa1\x67Counter"), Err(DecodeError));
    assert_eq!(decode_envelope(b"\xa1\x62Ok\xa1\x67Counter\x61v"), Err(DecodeError));
    assert_eq!(decode_envelope(b"\xa1\x62Ok\xa1\x64Text\x05"), Err(DecodeError));
    assert_eq!(decode_envelope(b"\xa1\x63Err\x64boo"), Err(DecodeError));
    assert_eq!(decode_envelope(b"\xa1\x63Err\x05"), Err(DecodeError));
    assert_eq!(decode_envelope(b"\xa1\x62Ok\xa1\x67Counter\x18\x05"), Err(DecodeError));
    assert_eq!(decode_query(b""), Err(DecodeError));
    assert_eq!(decode_query(b"\xa1\x64Text"), Err(DecodeError));
    assert_eq!(decode_query(b"\xa1\x67Counter\xa2\x63key\x61c"), Err(DecodeError));
    assert_eq!(decode_query(b"\xa1\x67Counter\xa2\x63key\x61c\x66method"), Err(DecodeError));
    assert_eq!(decode_query(b"\xa1\x64Text\xa1\x65Write\xa2\x63key\x61k"), Err(DecodeError));
    assert_eq!(
        decode_query(b"\xa1\x64Text\xa1\x65Write\xa2\x63key\x61k\x65value"),
        Err(DecodeError)
    );
}

#[test]
fn bytes_behind_the_value_are_a_decode_error() {
    assert_eq!(decode_envelope(b"\xa1\x63Err\x64boom\x00"), Err(DecodeError));
    assert_eq!(decode_envelope(b"\xa1\x62Ok\xa1\x67Counter\x05\x05"), Err(DecodeError));
    assert_eq!(decode_query(b"\xa1\x64Text\xa1\x64Read\xa1\x63key\x61k\xff"), Err(DecodeError));
    let mut twice = encode_query(&Query::Text(TextMethod::Read { key: "k".to_string() }));
    twice.extend(twice.clone());
    assert_eq!(decode_query(&twice), Err(DecodeError));
}

#[test]
fn envelope_is_not_a_query() {
    for envelope in every_envelope() {
        assert_eq!(decode_query(&encode_envelope(&envelope)), Err(DecodeError));
    }
    for query in every_query() {
        assert_eq!(decode_envelope(&encode_query(&query)), Err(DecodeError));
    }
}

#[test]
fn distinct_queries_have_distinct_bytes() {
    let all = every_query();
    for (i, a) in all.iter().enumerate() {
        for (j, b) in all.iter().enumerate() {
            assert_eq!(i == j, encode_query(a) == encode_query(b));
        }
    }
}

#[test]
fn queries_are_cbor_maps_by_name() {
    for query in every_query() {
        let bytes = encode_query(&query);
        let tree: serde_cbor::Value = serde_cbor::from_slice(&bytes).unwrap();
        assert_eq!(tree, query_tree(&query));
        assert_eq!(serde_cbor::to_vec(&query_tree(&query)).unwrap(), bytes);
    }
}

#[test]
fn envelopes_are_cbor_maps_by_name() {
    for envelope in every_envelope() {
        let bytes = encode_envelope(&envelope);
        let tree: serde_cbor::Value = serde_cbor::from_slice(&bytes).unwrap();
        assert_eq!(tree, envelope_tree(&envelope));
        assert_eq!(serde_cbor::to_vec(&envelope_tree(&envelope)).unwrap(), bytes);
    }
}

#[test]
fn envelopes_of_a_cbor_serializer_decode() {
    let failed: Result<String, String> = Err("no such key".to_string());
    let bytes = serde_cbor::to_vec(&failed).unwrap();
    assert_eq!(decode_envelope(&bytes), Ok(Err("no such key".to_string())));

    let mut counter: BTreeMap<String, u64> = BTreeMap::new();
    counter.insert("Counter".to_string(), 70_000);
    let counted: Result<BTreeMap<String, u64>, String> = Ok(counter);
    let bytes = serde_cbor::to_vec(&counted).unwrap();
    assert_eq!(decode_envelope(&bytes), Ok(Ok(Response::Counter(70_000))));

    let mut stored: BTreeMap<String, String> = BTreeMap::new();
    stored.insert("Text".to_string(), "v".to_string());
    let read: Result<BTreeMap<String, String>, String> = Ok(stored);
    let bytes = serde_cbor::to_vec(&read).unwrap();
    assert_eq!(decode_envelope(&bytes), Ok(Ok(Response::Text("v".to_string()))));
}

#[test]
fn no_head_has_a_major_type_above_seven() {
    assert_eq!(read_head(&[0x05], 0, 8), None);
    assert_eq!(read_head(&[0xff], 0, 255), None);
    assert_eq!(read_head(&[0xe5], 0, 7), Some((5, 1)));
}
