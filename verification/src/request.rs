//! The request that a network destination asks for.
//!
//! A destination names a method, an address, static query parameters and
//! headers, and one of six layouts for the body. From these and the payload
//! this module lays out one request; sending it is left to the caller.

use vstd::prelude::*;
use vstd::utf8::{decode_utf8, valid_utf8};
use crate::config::{Body, HttpUploader, HttpUploaderView, Pairs};
use crate::text::{push_str, str_eq, string_of, text_of, to_uppercase, uppercase};

verus! {

/// The request methods.
#[derive(Clone, Copy, Debug, PartialEq, Eq)]
pub enum Method {
    Get,
    Post,
    Put,
    Delete,
    Head,
    Options,
    Connect,
    Patch,
}

/// The body of a request.
#[derive(Clone, Debug, PartialEq, Eq)]
pub enum RequestBody {
    /// A form of parts: the payload under `name`, then one text part for each
    /// of `fields`.
    Multipart { name: String, file: Vec<u8>, fields: Vec<(String, String)> },
    /// Text, sent under the content type given.
    Text { content_type: String, text: String },
    /// The payload as it is, sent under the content type given.
    Bytes { content_type: String, bytes: Vec<u8> },
}

/// A request, ready to be sent.
#[derive(Clone, Debug, PartialEq, Eq)]
pub struct HttpRequest {
    pub method: Method,
    pub url: String,
    pub query: Vec<(String, String)>,
    pub headers: Vec<(String, String)>,
    pub body: RequestBody,
}

/// Why no request could be laid out.
#[derive(Clone, Copy, Debug, PartialEq, Eq)]
pub enum EncodeError {
    /// The payload does not parse as a url-encoded form.
    NotUrlEncoded,
    /// The payload is not UTF-8 text.
    NotUtf8,
}

/// The mathematical content of a request body.
pub enum BodyView {
    Multipart { name: Seq<char>, file: Seq<u8>, fields: Pairs },
    Text { content_type: Seq<char>, text: Seq<char> },
    Bytes { content_type: Seq<char>, bytes: Seq<u8> },
}

/// The mathematical content of a request.
pub struct RequestView {
    pub method: Method,
    pub url: Seq<char>,
    pub query: Pairs,
    pub headers: Pairs,
    pub body: BodyView,
}

impl View for RequestBody {
    type V = BodyView;

    open spec fn view(&self) -> BodyView {
        match self {
            RequestBody::Multipart { name, file, fields } => BodyView::Multipart {
                name: name@,
                file: file@,
                fields: fields.deep_view(),
            },
            RequestBody::Text { content_type, text } => BodyView::Text {
                content_type: content_type@,
                text: text@,
            },
            RequestBody::Bytes { content_type, bytes } => BodyView::Bytes {
                content_type: content_type@,
                bytes: bytes@,
            },
        }
    }
}

impl View for HttpRequest {
    type V = RequestView;

    open spec fn view(&self) -> RequestView {
        RequestView {
            method: self.method,
            url: self.url@,
            query: self.query.deep_view(),
            headers: self.headers.deep_view(),
            body: self.body@,
        }
    }
}

/// The pairs that a url-encoded form holds, keys and values decoded, as
/// `serde_urlencoded::from_bytes` reads them; nothing where it refuses the
/// bytes.
pub uninterp spec fn urlencoded_pairs(data: Seq<u8>) -> Option<Pairs>;

/// The JSON string literal for a text, quotes and escapes included, as
/// serde_json prints it.
pub uninterp spec fn json_string_literal(s: Seq<char>) -> Seq<char>;

/// An error of `serde_urlencoded::from_bytes`.
#[verifier::external_type_specification]
#[verifier::external_body]
pub struct ExFormError(serde_urlencoded::de::Error);

/// `serde_urlencoded::from_bytes` for a list of pairs of strings: the pairs of
/// the form in the order they stand in, or the crate's error.
#[verifier::external_body]
fn parse_form(data: &[u8]) -> (parsed: Result<Vec<(String, String)>, serde_urlencoded::de::Error>)
    ensures
        match parsed {
            Ok(pairs) => urlencoded_pairs(data@) == Some(pairs.deep_view()),
            Err(_) => urlencoded_pairs(data@) is None,
        },
{
    serde_urlencoded::from_bytes::<Vec<(String, String)>>(data)
}

/// The text of a JSON string value, printed by serde_json: `Display` of
/// `serde_json::Value::String`.
#[verifier::external_body]
fn json_literal(s: &str) -> (literal: String)
    ensures
        literal@ == json_string_literal(s@),
{
    serde_json::Value::String(s.to_owned()).to_string()
}

/// `core::str::from_utf8`: the bytes as text where they are UTF-8, nothing
/// where they are not.
#[verifier::external_body]
fn utf8_text(bytes: &[u8]) -> (text: Option<&str>)
    ensures
        text is Some <==> valid_utf8(bytes@),
        text is Some ==> text->0@ == decode_utf8(bytes@),
{
    core::str::from_utf8(bytes).ok()
}

/// The method that an upper-case token names. A token that names none of the
/// eight methods stands for `POST`.
pub open spec fn method_of(upper: Seq<char>) -> Method {
    if upper == "GET"@ {
        Method::Get
    } else if upper == "POST"@ {
        Method::Post
    } else if upper == "PUT"@ {
        Method::Put
    } else if upper == "DELETE"@ {
        Method::Delete
    } else if upper == "HEAD"@ {
        Method::Head
    } else if upper == "OPTIONS"@ {
        Method::Options
    } else if upper == "CONNECT"@ {
        Method::Connect
    } else if upper == "PATCH"@ {
        Method::Patch
    } else {
        Method::Post
    }
}

impl Method {
    /// The method that an upper-case token names; `POST` for any other token.
    pub fn from_token(upper: &str) -> (method: Method)
        ensures
            method == method_of(upper@),
    {
        if str_eq(upper, "GET") {
            Method::Get
        } else if str_eq(upper, "POST") {
            Method::Post
        } else if str_eq(upper, "PUT") {
            Method::Put
        } else if str_eq(upper, "DELETE") {
            Method::Delete
        } else if str_eq(upper, "HEAD") {
            Method::Head
        } else if str_eq(upper, "OPTIONS") {
            Method::Options
        } else if str_eq(upper, "CONNECT") {
            Method::Connect
        } else if str_eq(upper, "PATCH") {
            Method::Patch
        } else {
            Method::Post
        }
    }

    /// The method that a token names in any mix of upper and lower case.
    pub fn parse(token: &str) -> (method: Method)
        ensures
            method == method_of(uppercase(token@)),
    {
        let upper = to_uppercase(token);
        Method::from_token(upper.as_str())
    }
}

/// The pairs of an optional list; none where there is no list.
pub open spec fn pairs_of(list: Option<Pairs>) -> Pairs {
    match list {
        Some(pairs) => pairs,
        None => Seq::empty(),
    }
}

/// The name that the payload is sent under: the configured one, or `image`.
pub open spec fn field_name(u: HttpUploaderView) -> Seq<char> {
    match u.file_form_name {
        Some(name) => name,
        None => "image"@,
    }
}

/// The pairs from position `i` on, written `key=value` and joined by `&`.
pub open spec fn joined_from(pairs: Pairs, i: int) -> Seq<char>
    decreases pairs.len() - i,
{
    if i < 0 || i >= pairs.len() {
        Seq::empty()
    } else if i + 1 == pairs.len() {
        pairs[i].0 + seq!['='] + pairs[i].1
    } else {
        pairs[i].0 + seq!['='] + pairs[i].1 + seq!['&'] + joined_from(pairs, i + 1)
    }
}

/// The pairs written `key=value` and joined by `&`.
pub open spec fn joined(pairs: Pairs) -> Seq<char> {
    joined_from(pairs, 0)
}

/// The object with one key, from the literals of the key and of its value.
pub open spec fn json_document(name_literal: Seq<char>, text_literal: Seq<char>) -> Seq<char> {
    seq!['{'] + name_literal + seq![':'] + text_literal + seq!['}']
}

/// The document of two elements that holds the name and the text.
pub open spec fn xml_document(name: Seq<char>, text: Seq<char>) -> Seq<char> {
    "<xml><name>"@ + name + "</name><file>"@ + text + "</file></xml>"@
}

/// The body that a destination asks for, over a payload.
pub open spec fn encoded_body(u: HttpUploaderView, data: Seq<u8>) -> Result<BodyView, EncodeError> {
    match u.body {
        Body::MultipartFormData => Ok(
            BodyView::Multipart { name: field_name(u), file: data, fields: pairs_of(u.arguments) },
        ),
        Body::FormURLEncoded => match urlencoded_pairs(data) {
            Some(pairs) => Ok(
                BodyView::Text {
                    content_type: "application/x-www-form-urlencoded"@,
                    text: joined(pairs),
                },
            ),
            None => Err(EncodeError::NotUrlEncoded),
        },
        Body::JSON => if valid_utf8(data) {
            Ok(
                BodyView::Text {
                    content_type: "application/json"@,
                    text: json_document(
                        json_string_literal(field_name(u)),
                        json_string_literal(decode_utf8(data)),
                    ),
                },
            )
        } else {
            Err(EncodeError::NotUtf8)
        },
        Body::XML => if valid_utf8(data) {
            Ok(
                BodyView::Text {
                    content_type: "application/xml"@,
                    text: xml_document(field_name(u), decode_utf8(data)),
                },
            )
        } else {
            Err(EncodeError::NotUtf8)
        },
        Body::Binary | Body::Unencoded => Ok(
            BodyView::Bytes { content_type: "application/octet-stream"@, bytes: data },
        ),
    }
}

/// The request that a destination asks for, over a payload.
pub open spec fn planned_request(u: HttpUploaderView, data: Seq<u8>) -> Result<
    RequestView,
    EncodeError,
> {
    match encoded_body(u, data) {
        Ok(body) => Ok(
            RequestView {
                method: method_of(uppercase(u.request_method)),
                url: u.request_url,
                query: pairs_of(u.parameters),
                headers: pairs_of(u.headers),
                body,
            },
        ),
        Err(e) => Err(e),
    }
}

/// A copy of a list of pairs.
pub fn copy_pairs(pairs: &Vec<(String, String)>) -> (copy: Vec<(String, String)>)
    ensures
        copy.deep_view() == pairs.deep_view(),
{
    let mut copy: Vec<(String, String)> = Vec::new();
    let mut i: usize = 0;
    while i < pairs.len()
        invariant
            i <= pairs.len(),
            copy.len() == i,
            forall|k: int| 0 <= k < i ==> #[trigger] copy@[k].deep_view() == pairs@[k].deep_view(),
        decreases pairs.len() - i,
    {
        let pair = &pairs[i];
        copy.push((pair.0.clone(), pair.1.clone()));
        i += 1;
    }
    assert(copy.deep_view() =~= pairs.deep_view());
    copy
}

fn copy_optional_pairs(list: &Option<Vec<(String, String)>>) -> (copy: Vec<(String, String)>)
    ensures
        copy.deep_view() == pairs_of(list.deep_view()),
{
    match list {
        Some(pairs) => copy_pairs(pairs),
        None => {
            let copy: Vec<(String, String)> = Vec::new();
            assert(copy.deep_view() =~= Seq::empty());
            copy
        },
    }
}

/// A copy of a run of bytes.
pub fn copy_bytes(data: &[u8]) -> (copy: Vec<u8>)
    ensures
        copy@ == data@,
{
    let mut copy: Vec<u8> = Vec::new();
    let mut i: usize = 0;
    while i < data.len()
        invariant
            i <= data.len(),
            copy@ == data@.take(i as int),
        decreases data.len() - i,
    {
        copy.push(data[i]);
        i += 1;
    }
    copy
}

/// Writes pairs as `key=value`, joined by `&`.
pub fn join_pairs(pairs: &Vec<(String, String)>) -> (text: String)
    ensures
        text@ == joined(pairs.deep_view()),
{
    let mut out: Vec<char> = Vec::new();
    let mut i: usize = 0;
    let ghost all = pairs.deep_view();
    while i < pairs.len()
        invariant
            i <= pairs.len(),
            all == pairs.deep_view(),
            joined(all) == out@ + joined_from(all, i as int),
        decreases pairs.len() - i,
    {
        let ghost before = out@;
        let ghost rest = joined_from(all, i as int);
        assert(all[i as int] == (pairs@[i as int].0@, pairs@[i as int].1@));
        push_str(&mut out, pairs[i].0.as_str());
        out.push('=');
        push_str(&mut out, pairs[i].1.as_str());
        if i + 1 < pairs.len() {
            out.push('&');
        }
        i += 1;
        assert(before + rest =~= out@ + joined_from(all, i as int));
    }
    assert(out@ + Seq::<char>::empty() =~= out@);
    string_of(&out)
}

/// Writes the object with one key from the literals of the key and of its
/// value.
pub fn write_json_document(name_literal: &str, text_literal: &str) -> (text: String)
    ensures
        text@ == json_document(name_literal@, text_literal@),
{
    let mut out: Vec<char> = Vec::new();
    out.push('{');
    push_str(&mut out, name_literal);
    out.push(':');
    push_str(&mut out, text_literal);
    out.push('}');
    assert(out@ =~= json_document(name_literal@, text_literal@));
    string_of(&out)
}

/// Writes the document of two elements that holds the name and the text.
pub fn write_xml_document(name: &str, text: &str) -> (document: String)
    ensures
        document@ == xml_document(name@, text@),
{
    let mut out: Vec<char> = Vec::new();
    push_str(&mut out, "<xml><name>");
    push_str(&mut out, name);
    push_str(&mut out, "</name><file>");
    push_str(&mut out, text);
    push_str(&mut out, "</file></xml>");
    assert(out@ =~= xml_document(name@, text@));
    string_of(&out)
}

/// The text for a form that was read: its pairs written `key=value` and
/// joined by `&`, or the error that the payload is no form.
pub fn form_text(parsed: Result<Vec<(String, String)>, serde_urlencoded::de::Error>) -> (text:
    Result<String, EncodeError>)
    ensures
        match parsed {
            Ok(pairs) => text matches Ok(t) && t@ == joined(pairs.deep_view()),
            Err(_) => text == Err::<String, EncodeError>(EncodeError::NotUrlEncoded),
        },
{
    match parsed {
        Ok(pairs) => Ok(join_pairs(&pairs)),
        Err(_) => Err(EncodeError::NotUrlEncoded),
    }
}

/// Reads the payload as a url-encoded form and writes its pairs out again,
/// decoded, as `key=value` joined by `&`.
pub fn deserialize_to_x_www_form_urlencoded(data: &[u8]) -> (text: Result<String, EncodeError>)
    ensures
        match text {
            Ok(t) => urlencoded_pairs(data@) matches Some(pairs) && t@ == joined(pairs),
            Err(e) => urlencoded_pairs(data@) is None && e == EncodeError::NotUrlEncoded,
        },
{
    form_text(parse_form(data))
}

/// The name that the payload is sent under.
pub fn file_form_name(u: &HttpUploader) -> (name: String)
    ensures
        name@ == field_name(u@),
{
    match &u.file_form_name {
        Some(name) => name.clone(),
        None => text_of("image"),
    }
}

/// Lays out the body that a destination asks for.
pub fn encode_body(u: &HttpUploader, data: &[u8]) -> (body: Result<RequestBody, EncodeError>)
    ensures
        match body {
            Ok(b) => encoded_body(u@, data@) == Ok::<BodyView, EncodeError>(b@),
            Err(e) => encoded_body(u@, data@) == Err::<BodyView, EncodeError>(e),
        },
{
    let name = file_form_name(u);
    match u.body {
        Body::MultipartFormData => Ok(
            RequestBody::Multipart {
                name,
                file: copy_bytes(data),
                fields: copy_optional_pairs(&u.arguments),
            },
        ),
        Body::FormURLEncoded => match deserialize_to_x_www_form_urlencoded(data) {
            Ok(text) => Ok(
                RequestBody::Text {
                    content_type: text_of("application/x-www-form-urlencoded"),
                    text,
                },
            ),
            Err(e) => Err(e),
        },
        Body::JSON => match utf8_text(data) {
            Some(payload) => {
                let key = json_literal(name.as_str());
                let value = json_literal(payload);
                Ok(
                    RequestBody::Text {
                        content_type: text_of("application/json"),
                        text: write_json_document(key.as_str(), value.as_str()),
                    },
                )
            },
            None => Err(EncodeError::NotUtf8),
        },
        Body::XML => match utf8_text(data) {
            Some(payload) => Ok(
                RequestBody::Text {
                    content_type: text_of("application/xml"),
                    text: write_xml_document(name.as_str(), payload),
                },
            ),
            None => Err(EncodeError::NotUtf8),
        },
        Body::Binary | Body::Unencoded => Ok(
            RequestBody::Bytes {
                content_type: text_of("application/octet-stream"),
                bytes: copy_bytes(data),
            },
        ),
    }
}

/// Lays out the request that a destination asks for: its method, its address,
/// its static query parameters and headers, and the body in its layout. No
/// request comes of a payload that the layout cannot hold.
pub fn build_request(u: &HttpUploader, data: &[u8]) -> (request: Result<HttpRequest, EncodeError>)
    ensures
        match request {
            Ok(r) => planned_request(u@, data@) == Ok::<RequestView, EncodeError>(r@),
            Err(e) => planned_request(u@, data@) == Err::<RequestView, EncodeError>(e),
        },
{
    match encode_body(u, data) {
        Ok(body) => Ok(
            HttpRequest {
                method: Method::parse(u.request_method.as_str()),
                url: u.request_url.clone(),
                query: copy_optional_pairs(&u.parameters),
                headers: copy_optional_pairs(&u.headers),
                body,
            },
        ),
        Err(e) => Err(e),
    }
}

} // verus!
