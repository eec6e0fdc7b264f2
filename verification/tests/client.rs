use doordb_client::client::{
    counter_reply, counter_request, expect_counter, expect_text, text_delete_request,
    text_read_request, text_reply, text_write_request,
};
use doordb_client::{
    decode_query, encode_envelope, encode_query, Client, ClientError, Envelope, Method, Query,
    Reply, Response, TextMethod,
};
use std::cell::RefCell;

fn methods() -> Vec<Method> {
    vec![Method::Create, Method::Delete, Method::Get, Method::Increment]
}

fn check_every_method<F: Fn(Vec<u8>) -> Reply>(
    client: &Client<F>,
    text: Result<String, ClientError>,
    counter: Result<u64, ClientError>,
) {
    assert_eq!(client.text_delete("k"), text);
    assert_eq!(client.text_read("k"), text);
    assert_eq!(client.text_write("k", "v"), text);
    for method in methods() {
        assert_eq!(client.counter_query(method, "c"), counter);
    }
}

#[test]
fn counter_query_refuses_a_text_response() {
    let client = Client::new(|_request: Vec<u8>| -> Reply {
        Ok(encode_envelope(&Ok(Response::Text("x".to_string()))))
    });
    for method in methods() {
        assert_eq!(
            client.counter_query(method, "c"),
            Err(ClientError::UnexpectedVariant(Response::Text("x".to_string())))
        );
    }
}

#[test]
fn text_operations_refuse_a_counter_response() {
    let client = Client::new(|_request: Vec<u8>| -> Reply {
        Ok(encode_envelope(&Ok(Response::Counter(0))))
    });
    let refused = Err(ClientError::UnexpectedVariant(Response::Counter(0)));
    assert_eq!(client.text_delete("k"), refused);
    assert_eq!(client.text_read("k"), refused);
    assert_eq!(client.text_write("k", "v"), refused);
}

#[test]
fn server_error_reaches_every_method() {
    let client =
        Client::new(|_request: Vec<u8>| -> Reply { Ok(encode_envelope(&Err("boom".to_string()))) });
    check_every_method(
        &client,
        Err(ClientError::Server("boom".to_string())),
        Err(ClientError::Server("boom".to_string())),
    );
}

#[test]
fn garbage_reply_is_a_decoding_error_for_every_method() {
    let client = Client::new(|_request: Vec<u8>| -> Reply { Ok(vec![0xde, 0xad, 0xbe, 0xef]) });
    check_every_method(&client, Err(ClientError::Decoding), Err(ClientError::Decoding));
    let empty = Client::new(|_request: Vec<u8>| -> Reply { Ok(Vec::new()) });
    check_every_method(&empty, Err(ClientError::Decoding), Err(ClientError::Decoding));
    assert_ne!(ClientError::Decoding, ClientError::Server(String::new()));
}

#[test]
fn transport_failure_reaches_every_method() {
    let client = Client::new(|_request: Vec<u8>| -> Reply { Err("broken pipe".to_string()) });
    check_every_method(
        &client,
        Err(ClientError::Transport("broken pipe".to_string())),
        Err(ClientError::Transport("broken pipe".to_string())),
    );
}

#[test]
fn text_write_end_to_end() {
    let sent: RefCell<Vec<Vec<u8>>> = RefCell::new(Vec::new());
    let client = Client::new(|request: Vec<u8>| -> Reply {
        sent.borrow_mut().push(request);
        Ok(encode_envelope(&Ok(Response::Text("v".to_string()))))
    });
    assert_eq!(client.text_write("k", "v"), Ok("v".to_string()));
    let sent = sent.borrow();
    assert_eq!(sent.len(), 1);
    assert_eq!(
        decode_query(&sent[0]),
        Ok(Query::Text(TextMethod::Write { key: "k".to_string(), value: "v".to_string() }))
    );
}

#[test]
fn counter_increment_end_to_end() {
    let sent: RefCell<Vec<Vec<u8>>> = RefCell::new(Vec::new());
    let client = Client::new(|request: Vec<u8>| -> Reply {
        sent.borrow_mut().push(request);
        Ok(encode_envelope(&Ok(Response::Counter(5))))
    });
    assert_eq!(client.counter_query(Method::Increment, "c"), Ok(5));
    let sent = sent.borrow();
    assert_eq!(sent.len(), 1);
    assert_eq!(
        decode_query(&sent[0]),
        Ok(Query::Counter { key: "c".to_string(), method: Method::Increment })
    );
}

#[test]
fn text_read_of_a_missing_key_end_to_end() {
    let sent: RefCell<Vec<Vec<u8>>> = RefCell::new(Vec::new());
    let client = Client::new(|request: Vec<u8>| -> Reply {
        sent.borrow_mut().push(request);
        Ok(encode_envelope(&Err("no such key".to_string())))
    });
    assert_eq!(client.text_read("missing"), Err(ClientError::Server("no such key".to_string())));
    let sent = sent.borrow();
    assert_eq!(sent.len(), 1);
    assert_eq!(
        decode_query(&sent[0]),
        Ok(Query::Text(TextMethod::Read { key: "missing".to_string() }))
    );
}

#[test]
fn text_delete_sends_one_delete_request() {
    let sent: RefCell<Vec<Vec<u8>>> = RefCell::new(Vec::new());
    let client = Client::new(|request: Vec<u8>| -> Reply {
        sent.borrow_mut().push(request);
        Ok(encode_envelope(&Ok(Response::Text("old".to_string()))))
    });
    assert_eq!(client.text_delete("k"), Ok("old".to_string()));
    let sent = sent.borrow();
    assert_eq!(sent.len(), 1);
    assert_eq!(sent[0], encode_query(&Query::Text(TextMethod::Delete { key: "k".to_string() })));
}

#[test]
fn every_counter_method_is_sent_under_its_name() {
    for method in methods() {
        let sent: RefCell<Vec<Vec<u8>>> = RefCell::new(Vec::new());
        let client = Client::new(|request: Vec<u8>| -> Reply {
            sent.borrow_mut().push(request);
            Ok(encode_envelope(&Ok(Response::Counter(u64::MAX))))
        });
        assert_eq!(client.counter_query(method, "c"), Ok(u64::MAX));
        let sent = sent.borrow();
        assert_eq!(sent.len(), 1);
        assert_eq!(decode_query(&sent[0]), Ok(Query::Counter { key: "c".to_string(), method }));
    }
}

#[test]
fn an_echoing_service_round_trips_through_the_client() {
    let client = Client::new(|request: Vec<u8>| -> Reply {
        let envelope: Envelope = match decode_query(&request) {
            Ok(Query::Text(TextMethod::Write { key: _, value })) => Ok(Response::Text(value)),
            Ok(Query::Text(TextMethod::Read { key })) => Err(format!("no such key: {}", key)),
            Ok(Query::Text(TextMethod::Delete { key })) => Ok(Response::Text(key)),
            Ok(Query::Counter { key, method: _ }) => Ok(Response::Counter(key.len() as u64)),
            Err(_) => Err("bad request".to_string()),
        };
        Ok(encode_envelope(&envelope))
    });
    assert_eq!(client.text_write("k", "gr\u{fc}n"), Ok("gr\u{fc}n".to_string()));
    assert_eq!(client.text_read("k"), Err(ClientError::Server("no such key: k".to_string())));
    assert_eq!(client.text_delete("gone"), Ok("gone".to_string()));
    assert_eq!(client.counter_query(Method::Get, "four"), Ok(4));
}

#[test]
fn requests_are_the_encoded_queries() {
    assert_eq!(
        text_delete_request("k"),
        encode_query(&Query::Text(TextMethod::Delete { key: "k".to_string() }))
    );
    assert_eq!(
        text_read_request("k"),
        encode_query(&Query::Text(TextMethod::Read { key: "k".to_string() }))
    );
    assert_eq!(
        text_write_request("k", "v"),
        encode_query(&Query::Text(TextMethod::Write {
            key: "k".to_string(),
            value: "v".to_string()
        }))
    );
    assert_eq!(
        counter_request(Method::Get, "c"),
        encode_query(&Query::Counter { key: "c".to_string(), method: Method::Get })
    );
    assert_eq!(
        text_write_request("k", "v"),
        b"\xa1\x64Text\xa1\x65Write\xa2\x63key\x61k\x65value\x61v".to_vec()
    );
}

#[test]
fn narrowing_keeps_value_and_message() {
    assert_eq!(expect_text(Ok(Response::Text("v".to_string()))), Ok("v".to_string()));
    assert_eq!(
        expect_text(Ok(Response::Counter(7))),
        Err(ClientError::UnexpectedVariant(Response::Counter(7)))
    );
    assert_eq!(expect_text(Err("boom".to_string())), Err(ClientError::Server("boom".to_string())));
    assert_eq!(expect_counter(Ok(Response::Counter(7))), Ok(7));
    assert_eq!(
        expect_counter(Ok(Response::Text("7".to_string()))),
        Err(ClientError::UnexpectedVariant(Response::Text("7".to_string())))
    );
    assert_eq!(
        expect_counter(Err("boom".to_string())),
        Err(ClientError::Server("boom".to_string()))
    );
}

#[test]
fn replies_are_decoded_then_narrowed() {
    assert_eq!(text_reply(Ok(b"\xa1\x62Ok\xa1\x64Text\x61v".to_vec())), Ok("v".to_string()));
    assert_eq!(counter_reply(Ok(b"\xa1\x62Ok\xa1\x67Counter\x05".to_vec())), Ok(5));
    assert_eq!(
        text_reply(Ok(b"\xa1\x63Err\x6bno such key".to_vec())),
        Err(ClientError::Server("no such key".to_string()))
    );
    assert_eq!(text_reply(Ok(b"\xa1\x62Ok\xa1\x64Text\x62v".to_vec())), Err(ClientError::Decoding));
    assert_eq!(counter_reply(Ok(b"\xa1\x62Ok".to_vec())), Err(ClientError::Decoding));
    assert_eq!(
        text_reply(Err("door closed".to_string())),
        Err(ClientError::Transport("door closed".to_string()))
    );
    assert_eq!(
        counter_reply(Err("door closed".to_string())),
        Err(ClientError::Transport("door closed".to_string()))
    );
}

#[test]
fn server_error_message_is_the_exact_text() {
    let client =
        Client::new(|_request: Vec<u8>| -> Reply { Ok(encode_envelope(&Err("boom".to_string()))) });
    assert_eq!(client.text_delete("k").unwrap_err().message(), "boom");
    assert_eq!(client.text_read("k").unwrap_err().message(), "boom");
    assert_eq!(client.text_write("k", "v").unwrap_err().message(), "boom");
    assert_eq!(client.counter_query(Method::Get, "c").unwrap_err().message(), "boom");
    let missing = Client::new(|_request: Vec<u8>| -> Reply {
        Ok(encode_envelope(&Err("no such key".to_string())))
    });
    assert_eq!(missing.text_read("missing").unwrap_err().message(), "no such key");
}

#[test]
fn every_error_kind_has_its_message() {
    assert_eq!(ClientError::Transport("door closed".to_string()).message(), "door closed");
    assert_eq!(ClientError::Decoding.message(), "Failed to deserialize response");
    assert_eq!(
        ClientError::UnexpectedVariant(Response::Counter(1)).message(),
        "Response from server was not a text"
    );
    assert_eq!(
        ClientError::UnexpectedVariant(Response::Text("x".to_string())).message(),
        "Response from server was not a counter"
    );
    assert_eq!(ClientError::Server(String::new()).message(), "");
}
