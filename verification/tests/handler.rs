use netreactor::config::ServerConfig;
use netreactor::handler::{handle_client, response, Reply, RequestError, REQUEST_CAPACITY};

fn server() -> ServerConfig {
    ServerConfig { address: String::from("127.0.0.1:18080"), endpoints: Vec::new() }
}

#[test]
fn ping_gets_the_fixed_response() {
    let reply = handle_client(b"ping", &server());
    assert_eq!(
        reply,
        Ok(Reply::Respond {
            request: String::from("ping"),
            response: b"HTTP/1.1 200 OK\r\n\r\n".to_vec(),
        })
    );
}

#[test]
fn empty_read_gets_no_response() {
    assert_eq!(handle_client(b"", &server()), Ok(Reply::Silent));
}

#[test]
fn bytes_that_are_not_text_are_an_error() {
    assert_eq!(handle_client(&[0xff], &server()), Err(RequestError::NotText));
    assert_eq!(handle_client(&[0x61, 0xc3], &server()), Err(RequestError::NotText));
}

#[test]
fn response_is_nineteen_bytes() {
    let bytes = response();
    assert_eq!(bytes.len(), 19);
    assert_eq!(bytes, b"HTTP/1.1 200 OK\r\n\r\n".to_vec());
    assert_eq!(REQUEST_CAPACITY, 1024);
}

#[test]
fn any_text_gets_the_same_response() {
    let requests: [&[u8]; 5] = [
        b"x",
        b"GET / HTTP/1.1\r\nHost: localhost\r\n\r\n",
        b"\0",
        "gr\u{fc}\u{df}e \u{1f980}".as_bytes(),
        b"HTTP/1.1 200 OK\r\n\r\n",
    ];
    for request in requests {
        match handle_client(request, &server()) {
            Ok(Reply::Respond { request: logged, response }) => {
                assert_eq!(logged.as_bytes(), request);
                assert_eq!(response, b"HTTP/1.1 200 OK\r\n\r\n".to_vec());
            }
            other => panic!("unexpected outcome {:?}", other),
        }
    }
}

#[test]
fn full_buffer_of_text_is_answered() {
    let request = vec![b'a'; REQUEST_CAPACITY];
    assert_eq!(
        handle_client(&request, &server()),
        Ok(Reply::Respond { request: "a".repeat(1024), response: response() })
    );
}

#[test]
fn text_cut_in_the_middle_of_a_character_is_not_text() {
    let whole = "\u{20ac}".as_bytes();
    assert!(matches!(handle_client(whole, &server()), Ok(Reply::Respond { .. })));
    assert_eq!(handle_client(&whole[..2], &server()), Err(RequestError::NotText));
    assert_eq!(handle_client(&whole[1..], &server()), Err(RequestError::NotText));
}

#[test]
fn overlong_and_surrogate_encodings_are_not_text() {
    assert_eq!(handle_client(&[0xc0, 0xaf], &server()), Err(RequestError::NotText));
    assert_eq!(handle_client(&[0xed, 0xa0, 0x80], &server()), Err(RequestError::NotText));
    assert_eq!(handle_client(&[0xf4, 0x90, 0x80, 0x80], &server()), Err(RequestError::NotText));
}

#[test]
fn configuration_plays_no_part_in_the_reply() {
    let other = ServerConfig {
        address: String::from("[::1]:9"),
        endpoints: vec![String::from("/a"), String::from("/b")],
    };
    assert_eq!(handle_client(b"ping", &other), handle_client(b"ping", &server()));
    assert_eq!(handle_client(b"", &other), handle_client(b"", &server()));
}
