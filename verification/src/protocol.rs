//! The requests that clients send and the responses that go back, with their
//! JSON encoding: a single-key object whose key names the variant.

use vstd::prelude::*;
use vstd::string::StringSliceAdditionalSpecFns;
use vstd::utf8::*;
use crate::json::{
    json_members,
    json_parse,
    json_quoted,
    json_text,
    member,
    member_count,
    parse_json,
    quote,
    text_of,
    utf8_text,
};
use crate::server_database::UserCredentialsRaw;
use crate::text::{decimal, push_decimal};
use crate::user_service::{AuthenticationError, PasswordError, RegistrationError, UserNameError};

verus! {

/// What a client asks for.
#[derive(Debug, PartialEq, Eq)]
pub enum ChatRequest {
    Authentication { user_credentials_raw: UserCredentialsRaw },
    Registration { user_credentials_raw: UserCredentialsRaw },
    Message { message: String },
}

/// What the server tells a client.
#[derive(Debug, PartialEq, Eq)]
#[allow(inconsistent_fields)]
pub enum ChatResponse {
    AuthenticationResult { result: bool, error: Option<AuthenticationError> },
    RegistrationResult { result: bool, error: Option<RegistrationError> },
    Message { user_name: String, message: String },
    Connection { user_name: String, is_connected: bool },
}

/// A request, its texts as sequences of characters.
pub enum RequestView {
    Authentication { name: Seq<char>, password: Seq<char> },
    Registration { name: Seq<char>, password: Seq<char> },
    Message { message: Seq<char> },
}

/// A response, its texts as sequences of characters.
#[allow(inconsistent_fields)]
pub enum ResponseView {
    AuthenticationResult { result: bool, error: Option<AuthenticationError> },
    RegistrationResult { result: bool, error: Option<RegistrationError> },
    Message { user_name: Seq<char>, message: Seq<char> },
    Connection { user_name: Seq<char>, is_connected: bool },
}

impl View for ChatRequest {
    type V = RequestView;

    open spec fn view(&self) -> RequestView {
        match *self {
            ChatRequest::Authentication { user_credentials_raw } => RequestView::Authentication {
                name: user_credentials_raw.name@,
                password: user_credentials_raw.password@,
            },
            ChatRequest::Registration { user_credentials_raw } => RequestView::Registration {
                name: user_credentials_raw.name@,
                password: user_credentials_raw.password@,
            },
            ChatRequest::Message { message } => RequestView::Message { message: message@ },
        }
    }
}

impl View for ChatResponse {
    type V = ResponseView;

    open spec fn view(&self) -> ResponseView {
        match *self {
            ChatResponse::AuthenticationResult { result, error } => {
                ResponseView::AuthenticationResult { result, error }
            },
            ChatResponse::RegistrationResult { result, error } => {
                ResponseView::RegistrationResult { result, error }
            },
            ChatResponse::Message { user_name, message } => ResponseView::Message {
                user_name: user_name@,
                message: message@,
            },
            ChatResponse::Connection { user_name, is_connected } => ResponseView::Connection {
                user_name: user_name@,
                is_connected,
            },
        }
    }
}

/// `true` or `false`.
pub open spec fn bool_json(value: bool) -> Seq<char> {
    if value {
        "true"@
    } else {
        "false"@
    }
}

pub open spec fn length_bounds_json(min: u32, max: u32) -> Seq<char> {
    "{\"IncorrectLength\":["@ + decimal(min as nat) + ","@ + decimal(max as nat) + "]}"@
}

pub open spec fn authentication_error_json(error: AuthenticationError) -> Seq<char> {
    match error {
        AuthenticationError::WrongNameOrPassword => "\"WrongNameOrPassword\""@,
    }
}

pub open spec fn user_name_error_json(error: UserNameError) -> Seq<char> {
    match error {
        UserNameError::IncorrectLength(min, max) => length_bounds_json(min, max),
        UserNameError::MultipleDots => "\"MultipleDots\""@,
        UserNameError::MultipleUnderscores => "\"MultipleUnderscores\""@,
        UserNameError::UnallowedCharacter => "\"UnallowedCharacter\""@,
    }
}

pub open spec fn password_error_json(error: PasswordError) -> Seq<char> {
    match error {
        PasswordError::IncorrectLength(min, max) => length_bounds_json(min, max),
        PasswordError::UnallowedCharacter => "\"UnallowedCharacter\""@,
    }
}

pub open spec fn registration_error_json(error: RegistrationError) -> Seq<char> {
    match error {
        RegistrationError::IncorrectName(inner) => "{\"IncorrectName\":"@ + user_name_error_json(
            inner,
        ) + "}"@,
        RegistrationError::IncorrectPassword(inner) => "{\"IncorrectPassword\":"@
            + password_error_json(inner) + "}"@,
        RegistrationError::NameAlreadyInUse => "\"NameAlreadyInUse\""@,
    }
}

/// The JSON text of a response: an object with the variant's name as its only
/// key, and under it the fields in the order of their declaration.
pub open spec fn response_json(response: ResponseView) -> Seq<char> {
    match response {
        ResponseView::AuthenticationResult { result, error } => {
            "{\"AuthenticationResult\":{\"result\":"@ + bool_json(result) + ",\"error\":"@ + (
            match error {
                Some(inner) => authentication_error_json(inner),
                None => "null"@,
            }) + "}}"@
        },
        ResponseView::RegistrationResult { result, error } => {
            "{\"RegistrationResult\":{\"result\":"@ + bool_json(result) + ",\"error\":"@ + (
            match error {
                Some(inner) => registration_error_json(inner),
                None => "null"@,
            }) + "}}"@
        },
        ResponseView::Message { user_name, message } => {
            "{\"Message\":{\"user_name\":"@ + json_quoted(user_name) + ",\"message\":"@
                + json_quoted(message) + "}}"@
        },
        ResponseView::Connection { user_name, is_connected } => {
            "{\"Connection\":{\"user_name\":"@ + json_quoted(user_name) + ",\"is_connected\":"@
                + bool_json(is_connected) + "}}"@
        },
    }
}

/// The payload bytes of a response: its JSON text in UTF-8.
pub open spec fn response_payload(response: ResponseView) -> Seq<u8> {
    encode_utf8(response_json(response))
}

fn push_bool(out: &mut String, value: bool)
    ensures
        final(out)@ == old(out)@ + bool_json(value),
{
    if value {
        out.append("true");
    } else {
        out.append("false");
    }
}

fn push_length_bounds(out: &mut String, min: u32, max: u32)
    ensures
        final(out)@ == old(out)@ + length_bounds_json(min, max),
{
    out.append("{\"IncorrectLength\":[");
    push_decimal(out, min);
    out.append(",");
    push_decimal(out, max);
    out.append("]}");
    assert(out@ =~= old(out)@ + length_bounds_json(min, max));
}

fn push_user_name_error(out: &mut String, error: UserNameError)
    ensures
        final(out)@ == old(out)@ + user_name_error_json(error),
{
    match error {
        UserNameError::IncorrectLength(min, max) => push_length_bounds(out, min, max),
        UserNameError::MultipleDots => out.append("\"MultipleDots\""),
        UserNameError::MultipleUnderscores => out.append("\"MultipleUnderscores\""),
        UserNameError::UnallowedCharacter => out.append("\"UnallowedCharacter\""),
    }
}

fn push_password_error(out: &mut String, error: PasswordError)
    ensures
        final(out)@ == old(out)@ + password_error_json(error),
{
    match error {
        PasswordError::IncorrectLength(min, max) => push_length_bounds(out, min, max),
        PasswordError::UnallowedCharacter => out.append("\"UnallowedCharacter\""),
    }
}

fn push_registration_error(out: &mut String, error: RegistrationError)
    ensures
        final(out)@ == old(out)@ + registration_error_json(error),
{
    match error {
        RegistrationError::IncorrectName(inner) => {
            out.append("{\"IncorrectName\":");
            push_user_name_error(out, inner);
            out.append("}");
        },
        RegistrationError::IncorrectPassword(inner) => {
            out.append("{\"IncorrectPassword\":");
            push_password_error(out, inner);
            out.append("}");
        },
        RegistrationError::NameAlreadyInUse => out.append("\"NameAlreadyInUse\""),
    }
    assert(out@ =~= old(out)@ + registration_error_json(error));
}

/// Writes a response as JSON text.
pub fn response_to_json(response: &ChatResponse) -> (text: String)
    ensures
        text@ == response_json(response@),
{
    let mut out = String::new();
    match response {
        ChatResponse::AuthenticationResult { result, error } => {
            out.append("{\"AuthenticationResult\":{\"result\":");
            push_bool(&mut out, *result);
            out.append(",\"error\":");
            match error {
                Some(inner) => out.append("\"WrongNameOrPassword\""),
                None => out.append("null"),
            }
            out.append("}}");
        },
        ChatResponse::RegistrationResult { result, error } => {
            out.append("{\"RegistrationResult\":{\"result\":");
            push_bool(&mut out, *result);
            out.append(",\"error\":");
            match error {
                Some(inner) => push_registration_error(&mut out, *inner),
                None => out.append("null"),
            }
            out.append("}}");
        },
        ChatResponse::Message { user_name, message } => {
            out.append("{\"Message\":{\"user_name\":");
            out.append(quote(user_name.as_str()).as_str());
            out.append(",\"message\":");
            out.append(quote(message.as_str()).as_str());
            out.append("}}");
        },
        ChatResponse::Connection { user_name, is_connected } => {
            out.append("{\"Connection\":{\"user_name\":");
            out.append(quote(user_name.as_str()).as_str());
            out.append(",\"is_connected\":");
            push_bool(&mut out, *is_connected);
            out.append("}}");
        },
    }
    assert(out@ =~= response_json(response@));
    out
}

/// Writes a response as the payload of a frame.
pub fn encode_response(response: &ChatResponse) -> (payload: Vec<u8>)
    ensures
        payload@ == response_payload(response@),
{
    response_to_json(response).as_str().as_bytes_vec()
}

/// The text of the member `key` of a JSON object, where the value is an
/// object, has that member, and the member is a string.
pub open spec fn text_member(value: serde_json::Value, key: Seq<char>) -> Option<Seq<char>> {
    match json_members(value) {
        Some(members) => if members.contains_key(key) {
            json_text(members[key])
        } else {
            None
        },
        None => None,
    }
}

/// The name and password of a JSON object with the string members `name` and
/// `password`.
pub open spec fn credentials_of(value: serde_json::Value) -> Option<(Seq<char>, Seq<char>)> {
    if text_member(value, "name"@) is Some && text_member(value, "password"@) is Some {
        Some((text_member(value, "name"@)->0, text_member(value, "password"@)->0))
    } else {
        None
    }
}

/// The credentials under the member `user_credentials_raw` of a request body.
pub open spec fn body_credentials(body: serde_json::Value) -> Option<(Seq<char>, Seq<char>)> {
    match json_members(body) {
        Some(members) => if members.contains_key("user_credentials_raw"@) {
            credentials_of(members["user_credentials_raw"@])
        } else {
            None
        },
        None => None,
    }
}

/// The request that a JSON document stands for: an object with exactly one
/// member, whose key names the variant and whose value is an object that
/// holds the variant's fields by name. Members that no field asks for are
/// passed over. Fields given by position, as an array, are not read: such a
/// document stands for no request, and neither does any other.
pub open spec fn request_of(document: serde_json::Value) -> Option<RequestView> {
    match json_members(document) {
        Some(members) => if members.len() != 1 {
            None
        } else if members.contains_key("Authentication"@) {
            match body_credentials(members["Authentication"@]) {
                Some((name, password)) => Some(RequestView::Authentication { name, password }),
                None => None,
            }
        } else if members.contains_key("Registration"@) {
            match body_credentials(members["Registration"@]) {
                Some((name, password)) => Some(RequestView::Registration { name, password }),
                None => None,
            }
        } else if members.contains_key("Message"@) {
            match text_member(members["Message"@], "message"@) {
                Some(message) => Some(RequestView::Message { message }),
                None => None,
            }
        } else {
            None
        },
        None => None,
    }
}

/// The request that the payload of a frame stands for: the payload is UTF-8,
/// its text is a JSON document, and the document is a request.
pub open spec fn request_of_bytes(message: Seq<u8>) -> Option<RequestView> {
    if valid_utf8(message) {
        match json_parse(decode_utf8(message)) {
            Some(document) => request_of(document),
            None => None,
        }
    } else {
        None
    }
}

/// The view of a request that may be absent.
pub open spec fn request_view(request: Option<ChatRequest>) -> Option<RequestView> {
    match request {
        Some(request) => Some(request@),
        None => None,
    }
}

fn decode_text_member(value: &serde_json::Value, key: &str) -> (text: Option<String>)
    ensures
        text is Some <==> text_member(*value, key@) is Some,
        text matches Some(t) ==> text_member(*value, key@) == Some(t@),
{
    match member(value, key) {
        Some(found) => match text_of(found) {
            Some(text) => Some(text.to_owned()),
            None => None,
        },
        None => None,
    }
}

fn decode_credentials(body: &serde_json::Value) -> (credentials: Option<UserCredentialsRaw>)
    ensures
        credentials is Some <==> body_credentials(*body) is Some,
        credentials matches Some(c) ==> body_credentials(*body) == Some((c.name@, c.password@)),
{
    match member(body, "user_credentials_raw") {
        Some(raw) => {
            match decode_text_member(raw, "name") {
                Some(name) => match decode_text_member(raw, "password") {
                    Some(password) => Some(UserCredentialsRaw { name, password }),
                    None => None,
                },
                None => None,
            }
        },
        None => None,
    }
}

/// Reads a request out of a parsed JSON document.
pub fn decode_request(document: &serde_json::Value) -> (request: Option<ChatRequest>)
    ensures
        request_view(request) == request_of(*document),
{
    match member_count(document) {
        Some(count) => {
            if count != 1 {
                return None;
            }
        },
        None => {
            return None;
        },
    }
    if let Some(body) = member(document, "Authentication") {
        match decode_credentials(body) {
            Some(user_credentials_raw) => Some(ChatRequest::Authentication { user_credentials_raw }),
            None => None,
        }
    } else if let Some(body) = member(document, "Registration") {
        match decode_credentials(body) {
            Some(user_credentials_raw) => Some(ChatRequest::Registration { user_credentials_raw }),
            None => None,
        }
    } else if let Some(body) = member(document, "Message") {
        match decode_text_member(body, "message") {
            Some(message) => Some(ChatRequest::Message { message }),
            None => None,
        }
    } else {
        None
    }
}

/// Reads a request out of the payload of a frame. A payload that is not
/// UTF-8, not JSON, or not a request gives `None`. Where the text repeats a
/// key within one object, the parser keeps the last value, and the request is
/// read from that.
pub fn message_to_request(message: &[u8]) -> (request: Option<ChatRequest>)
    ensures
        request_view(request) == request_of_bytes(message@),
{
    match utf8_text(message) {
        Some(text) => {
            proof {
                encode_utf8_decode_utf8(text@);
            }
            match parse_json(text) {
                Some(document) => decode_request(&document),
                None => None,
            }
        },
        None => None,
    }
}

} // verus!
