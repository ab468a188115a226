use chat_server::protocol::{
    decode_request, encode_response, message_to_request, response_to_json, ChatRequest,
    ChatResponse,
};
use chat_server::server_database::UserCredentialsRaw;
use chat_server::user_service::{
    AuthenticationError, PasswordError, RegistrationError, UserNameError,
};

fn credentials(name: &str, password: &str) -> UserCredentialsRaw {
    UserCredentialsRaw { name: name.to_string(), password: password.to_string() }
}

fn registration_failure(error: RegistrationError) -> String {
    response_to_json(&ChatResponse::RegistrationResult { result: false, error: Some(error) })
}

#[test]
fn authentication_result_as_json() {
    assert_eq!(
        response_to_json(&ChatResponse::AuthenticationResult { result: true, error: None }),
        r#"{"AuthenticationResult":{"result":true,"error":null}}"#
    );
    assert_eq!(
        response_to_json(&ChatResponse::AuthenticationResult {
            result: false,
            error: Some(AuthenticationError::WrongNameOrPassword)
        }),
        r#"{"AuthenticationResult":{"result":false,"error":"WrongNameOrPassword"}}"#
    );
}

#[test]
fn registration_result_as_json() {
    assert_eq!(
        response_to_json(&ChatResponse::RegistrationResult { result: true, error: None }),
        r#"{"RegistrationResult":{"result":true,"error":null}}"#
    );
    assert_eq!(
        registration_failure(RegistrationError::NameAlreadyInUse),
        r#"{"RegistrationResult":{"result":false,"error":"NameAlreadyInUse"}}"#
    );
    assert_eq!(
        registration_failure(RegistrationError::IncorrectName(UserNameError::MultipleDots)),
        r#"{"RegistrationResult":{"result":false,"error":{"IncorrectName":"MultipleDots"}}}"#
    );
    assert_eq!(
        registration_failure(RegistrationError::IncorrectName(UserNameError::MultipleUnderscores)),
        r#"{"RegistrationResult":{"result":false,"error":{"IncorrectName":"MultipleUnderscores"}}}"#
    );
    assert_eq!(
        registration_failure(RegistrationError::IncorrectName(UserNameError::UnallowedCharacter)),
        r#"{"RegistrationResult":{"result":false,"error":{"IncorrectName":"UnallowedCharacter"}}}"#
    );
    assert_eq!(
        registration_failure(RegistrationError::IncorrectName(UserNameError::IncorrectLength(
            7, 32
        ))),
        r#"{"RegistrationResult":{"result":false,"error":{"IncorrectName":{"IncorrectLength":[7,32]}}}}"#
    );
    assert_eq!(
        registration_failure(RegistrationError::IncorrectPassword(
            PasswordError::IncorrectLength(8, 32)
        )),
        r#"{"RegistrationResult":{"result":false,"error":{"IncorrectPassword":{"IncorrectLength":[8,32]}}}}"#
    );
    assert_eq!(
        registration_failure(RegistrationError::IncorrectPassword(
            PasswordError::UnallowedCharacter
        )),
        r#"{"RegistrationResult":{"result":false,"error":{"IncorrectPassword":"UnallowedCharacter"}}}"#
    );
}

#[test]
fn message_and_connection_as_json() {
    assert_eq!(
        response_to_json(&ChatResponse::Message {
            user_name: "alice_01".to_string(),
            message: "hi".to_string()
        }),
        r#"{"Message":{"user_name":"alice_01","message":"hi"}}"#
    );
    assert_eq!(
        response_to_json(&ChatResponse::Connection {
            user_name: "bob_____02".to_string(),
            is_connected: true
        }),
        r#"{"Connection":{"user_name":"bob_____02","is_connected":true}}"#
    );
    assert_eq!(
        response_to_json(&ChatResponse::Connection {
            user_name: "bob_____02".to_string(),
            is_connected: false
        }),
        r#"{"Connection":{"user_name":"bob_____02","is_connected":false}}"#
    );
}

#[test]
fn texts_are_escaped_in_json() {
    assert_eq!(
        response_to_json(&ChatResponse::Message {
            user_name: "a\"b".to_string(),
            message: "line one\nsaid \"hi\" \\ \t\u{1}".to_string()
        }),
        "{\"Message\":{\"user_name\":\"a\\\"b\",\"message\":\"line one\\nsaid \\\"hi\\\" \\\\ \\t\\u0001\"}}"
    );
    assert_eq!(
        response_to_json(&ChatResponse::Message {
            user_name: "".to_string(),
            message: "gr\u{fc}\u{df}e \u{1f600}".to_string()
        }),
        "{\"Message\":{\"user_name\":\"\",\"message\":\"gr\u{fc}\u{df}e \u{1f600}\"}}"
    );
}

#[test]
fn payload_is_the_json_in_utf8() {
    let response =
        ChatResponse::Message { user_name: "alice_01".to_string(), message: "\u{e9}".to_string() };
    assert_eq!(encode_response(&response), response_to_json(&response).into_bytes());
    assert_eq!(
        encode_response(&response),
        b"{\"Message\":{\"user_name\":\"alice_01\",\"message\":\"\xc3\xa9\"}}".to_vec()
    );
}

#[test]
fn written_json_reads_back() {
    let response = ChatResponse::Message {
        user_name: "al\"ice".to_string(),
        message: "a\\b\n\u{7}c \u{1f600}".to_string(),
    };
    let document: serde_json::Value = serde_json::from_slice(&encode_response(&response)).unwrap();
    assert_eq!(document["Message"]["user_name"].as_str(), Some("al\"ice"));
    assert_eq!(document["Message"]["message"].as_str(), Some("a\\b\n\u{7}c \u{1f600}"));
    let response = ChatResponse::RegistrationResult {
        result: false,
        error: Some(RegistrationError::IncorrectName(UserNameError::IncorrectLength(7, 32))),
    };
    let document: serde_json::Value = serde_json::from_slice(&encode_response(&response)).unwrap();
    assert_eq!(document["RegistrationResult"]["result"].as_bool(), Some(false));
    assert_eq!(
        document["RegistrationResult"]["error"]["IncorrectName"]["IncorrectLength"][0].as_u64(),
        Some(7)
    );
    assert_eq!(
        document["RegistrationResult"]["error"]["IncorrectName"]["IncorrectLength"][1].as_u64(),
        Some(32)
    );
}

#[test]
fn requests_are_read() {
    assert_eq!(
        message_to_request(
            br#"{"Authentication":{"user_credentials_raw":{"name":"alice_01","password":"Secret!9"}}}"#
        ),
        Some(ChatRequest::Authentication {
            user_credentials_raw: credentials("alice_01", "Secret!9")
        })
    );
    assert_eq!(
        message_to_request(
            br#"{"Registration":{"user_credentials_raw":{"name":"alice_01","password":"Secret!9"}}}"#
        ),
        Some(ChatRequest::Registration {
            user_credentials_raw: credentials("alice_01", "Secret!9")
        })
    );
    assert_eq!(
        message_to_request(br#"{"Message":{"message":"hi"}}"#),
        Some(ChatRequest::Message { message: "hi".to_string() })
    );
}

#[test]
fn requests_are_read_whatever_the_layout() {
    assert_eq!(
        message_to_request(b" {\n \"Message\" : { \"message\" : \"a\\nb \\u00e9 \\\"q\\\"\" }\n}\n"),
        Some(ChatRequest::Message { message: "a\nb \u{e9} \"q\"".to_string() })
    );
    assert_eq!(
        message_to_request(
            br#"{"Registration":{"user_credentials_raw":{"password":"Secret!9","name":"alice_01"}}}"#
        ),
        Some(ChatRequest::Registration {
            user_credentials_raw: credentials("alice_01", "Secret!9")
        })
    );
    assert_eq!(
        message_to_request("{\"Message\":{\"message\":\"gr\u{fc}\u{df}e\"}}".as_bytes()),
        Some(ChatRequest::Message { message: "gr\u{fc}\u{df}e".to_string() })
    );
}

#[test]
fn members_that_no_field_asks_for_are_passed_over() {
    assert_eq!(
        message_to_request(br#"{"Message":{"message":"hi","extra":[1,2,3]}}"#),
        Some(ChatRequest::Message { message: "hi".to_string() })
    );
    assert_eq!(
        message_to_request(
            br#"{"Authentication":{"more":null,"user_credentials_raw":{"name":"n","age":3,"password":"p"}}}"#
        ),
        Some(ChatRequest::Authentication { user_credentials_raw: credentials("n", "p") })
    );
}

#[test]
fn payloads_that_are_no_utf8_are_no_request() {
    assert_eq!(message_to_request(b"\xff\xfe"), None);
    assert_eq!(message_to_request(b"{\"Message\":{\"message\":\"\xc3\"}}"), None);
    assert_eq!(message_to_request(b"{\"Message\":{\"message\":\"\xed\xa0\x80\"}}"), None);
}

#[test]
fn payloads_that_are_no_json_are_no_request() {
    assert_eq!(message_to_request(b""), None);
    assert_eq!(message_to_request(b"hello"), None);
    assert_eq!(message_to_request(br#"{"Message":{"message":"hi"}"#), None);
    assert_eq!(message_to_request(br#"{"Message":{"message":"hi"}} trailing"#), None);
    assert_eq!(message_to_request(br#"{'Message':{'message':'hi'}}"#), None);
}

#[test]
fn documents_that_are_no_request() {
    for text in [
        r#"null"#,
        r#"42"#,
        r#""Message""#,
        r#"[]"#,
        r#"{}"#,
        r#"{"Message":"hi"}"#,
        r#"{"Message":{}}"#,
        r#"{"Message":{"message":5}}"#,
        r#"{"Message":{"message":null}}"#,
        r#"{"Message":{"text":"hi"}}"#,
        r#"{"message":{"message":"hi"}}"#,
        r#"{"Shout":{"message":"hi"}}"#,
        r#"{"Message":{"message":"hi"},"Registration":{"user_credentials_raw":{"name":"n","password":"p"}}}"#,
        r#"{"Message":{"message":"hi"},"other":1}"#,
        r#"{"Authentication":{}}"#,
        r#"{"Authentication":{"user_credentials_raw":null}}"#,
        r#"{"Authentication":{"user_credentials_raw":{"name":"n"}}}"#,
        r#"{"Authentication":{"user_credentials_raw":{"password":"p"}}}"#,
        r#"{"Authentication":{"user_credentials_raw":{"name":1,"password":"p"}}}"#,
        r#"{"Authentication":{"name":"n","password":"p"}}"#,
        r#"{"Registration":{"user_credentials_raw":{"name":"n","password":true}}}"#,
    ] {
        assert_eq!(message_to_request(text.as_bytes()), None, "{}", text);
    }
}

#[test]
fn request_out_of_a_parsed_document() {
    let document: serde_json::Value =
        serde_json::from_str(r#"{"Message":{"message":"hi"}}"#).unwrap();
    assert_eq!(decode_request(&document), Some(ChatRequest::Message { message: "hi".to_string() }));
    let document: serde_json::Value =
        serde_json::from_str(r#"{"Message":{"message":"hi"},"b":1}"#).unwrap();
    assert_eq!(decode_request(&document), None);
    let document: serde_json::Value = serde_json::from_str(r#"["Message"]"#).unwrap();
    assert_eq!(decode_request(&document), None);
}

/// What a JSON string literal looks like, written out independently.
fn quoted(text: &str) -> String {
    let mut out = String::from("\"");
    for c in text.chars() {
        match c {
            '"' => out.push_str("\\\""),
            '\\' => out.push_str("\\\\"),
            '\u{8}' => out.push_str("\\b"),
            '\t' => out.push_str("\\t"),
            '\n' => out.push_str("\\n"),
            '\u{c}' => out.push_str("\\f"),
            '\r' => out.push_str("\\r"),
            c if (c as u32) < 0x20 => out.push_str(&format!("\\u00{:02x}", c as u32)),
            c => out.push(c),
        }
    }
    out.push('"');
    out
}

#[test]
fn every_character_is_escaped_as_stated() {
    let mut samples: Vec<char> = (0u8..=0x7f).map(|byte| byte as char).collect();
    samples.extend(['\u{80}', '\u{9f}', '\u{a0}', '\u{e9}', '\u{2028}', '\u{2029}', '\u{ffff}', '\u{1f600}', '\u{10ffff}']);
    for c in samples {
        let text: String = [c, 'x', c].iter().collect();
        assert_eq!(
            response_to_json(&ChatResponse::Message {
                user_name: text.clone(),
                message: c.to_string()
            }),
            format!(
                "{{\"Message\":{{\"user_name\":{},\"message\":{}}}}}",
                quoted(&text),
                quoted(&c.to_string())
            ),
            "{:?}",
            c
        );
    }
}

#[test]
fn control_characters_take_four_hexadecimal_digits() {
    assert_eq!(
        response_to_json(&ChatResponse::Connection {
            user_name: "\u{0}\u{1}\u{b}\u{1f}\u{7f}".to_string(),
            is_connected: true
        }),
        "{\"Connection\":{\"user_name\":\"\\u0000\\u0001\\u000b\\u001f\u{7f}\",\"is_connected\":true}}"
    );
}

#[test]
fn fields_given_by_position_are_not_read() {
    for text in [
        r#"{"Message":["hi"]}"#,
        r#"{"Message":[]}"#,
        r#"{"Authentication":[{"name":"n","password":"p"}]}"#,
        r#"{"Authentication":[["n","p"]]}"#,
        r#"{"Authentication":{"user_credentials_raw":["n","p"]}}"#,
        r#"{"Registration":{"user_credentials_raw":["n","p"]}}"#,
        r#"["Message",{"message":"hi"}]"#,
    ] {
        assert_eq!(message_to_request(text.as_bytes()), None, "{}", text);
    }
}

#[test]
fn of_a_repeated_key_the_last_value_counts() {
    assert_eq!(
        message_to_request(br#"{"Message":{"message":"first","message":"last"}}"#),
        Some(ChatRequest::Message { message: "last".to_string() })
    );
    assert_eq!(
        message_to_request(br#"{"Message":{"message":"first"},"Message":{"message":"last"}}"#),
        Some(ChatRequest::Message { message: "last".to_string() })
    );
    assert_eq!(
        message_to_request(br#"{"Message":{"message":"first","message":7}}"#),
        None
    );
    assert_eq!(
        message_to_request(
            br#"{"Authentication":{"user_credentials_raw":{"name":"a","password":"p","name":"b"}}}"#
        ),
        Some(ChatRequest::Authentication { user_credentials_raw: credentials("b", "p") })
    );
}
