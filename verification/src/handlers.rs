//! The text that the individual route handlers compute from the parts of a
//! request that the framework extracts for them.

use crate::text::{decimal, push_decimal};
use vstd::prelude::*;
use vstd::string::StringExecFns;
use vstd::utf8::{decode_utf8, valid_utf8};

verus! {

/// A person, as the JSON routes read and write it.
#[derive(Debug)]
pub struct Person {
    pub name: String,
}

/// The query parameters of `GET /users?name=..&age=..`.
#[derive(Debug)]
pub struct GetUserQueryParams {
    pub name: String,
    pub age: u64,
}

/// The query parameter of `GET /users/:name/posts?limit=..`.
#[derive(Debug)]
pub struct MultipleParams {
    pub limit: u64,
}

/// The path segment of `GET /users/:name/posts`.
#[derive(Debug)]
pub struct PathName {
    pub name: String,
}

/// Decodes `bytes` as UTF-8 by calling std's `String::from_utf8`. Trusted,
/// as std documents it: the call succeeds exactly on valid UTF-8 (vstd's
/// `valid_utf8`), and the string then holds the decoded characters.
#[verifier::external_body]
fn string_from_utf8(bytes: Vec<u8>) -> (s: Option<String>)
    ensures
        s is Some <==> valid_utf8(bytes@),
        s matches Some(t) ==> t@ == decode_utf8(bytes@),
{
    String::from_utf8(bytes).ok()
}

/// The body of a request, read as text. The request's body must be valid
/// UTF-8.
pub fn basic_request_handler(body: Vec<u8>) -> (text: String)
    requires
        valid_utf8(body@),
    ensures
        text@ == decode_utf8(body@),
{
    match string_from_utf8(body) {
        Some(text) => text,
        None => {
            assert(false);
            String::new()
        },
    }
}

/// The answer to `GET /users/:name/posts/:post_id`: `<name>:<post_id>`.
pub fn path2_handler(name: String, post_id: u64) -> (text: String)
    ensures
        text@ == name@ + ":"@ + decimal(post_id as nat),
{
    let mut text = name;
    text.append(":");
    push_decimal(&mut text, post_id);
    text
}

/// The answer to `GET /users?name=..&age=..`: `name=<name>&age=<age>`.
pub fn query_handler(query: GetUserQueryParams) -> (text: String)
    ensures
        text@ == "name="@ + query.name@ + "&age="@ + decimal(query.age as nat),
{
    let mut text = String::from_str("name=");
    text.append(query.name.as_str());
    text.append("&age=");
    push_decimal(&mut text, query.age);
    text
}

/// The answer to `GET /users/:name/posts?limit=..`: `<name>:<limit>`.
pub fn multiple_handler(params: MultipleParams, path: PathName) -> (text: String)
    ensures
        text@ == path.name@ + ":"@ + decimal(params.limit as nat),
{
    let mut text = path.name;
    text.append(":");
    push_decimal(&mut text, params.limit);
    text
}

/// The person named after the path that was requested.
pub fn handler_trait_handler(path: String) -> (person: Person)
    ensures
        person.name@ == path@,
{
    Person { name: path }
}

/// The person that `GET /` answers with as JSON: John Doe.
pub fn json_response_handler() -> (person: Person)
    ensures
        person.name@ == "John Doe"@,
{
    Person { name: String::from_str("John Doe") }
}

/// One header field of a request: its name and its value, as bytes.
#[derive(Debug)]
pub struct HeaderField {
    pub name: Vec<u8>,
    pub value: Vec<u8>,
}

/// The header fields of a request, in the order the request lists them.
#[derive(Debug)]
pub struct RequestHeaders {
    pub fields: Vec<HeaderField>,
}

impl View for RequestHeaders {
    type V = Seq<(Seq<u8>, Seq<u8>)>;

    open spec fn view(&self) -> Seq<(Seq<u8>, Seq<u8>)> {
        self.fields@.map_values(|f: HeaderField| (f.name@, f.value@))
    }
}

/// The lower-case form of an ASCII letter; any other byte stays as it is.
pub open spec fn ascii_lower(b: u8) -> u8 {
    if 65 <= b <= 90 {
        (b + 32) as u8
    } else {
        b
    }
}

/// The bytes of the header name `content-type`.
pub open spec fn content_type_name() -> Seq<u8> {
    seq![99u8, 111u8, 110u8, 116u8, 101u8, 110u8, 116u8, 45u8, 116u8, 121u8, 112u8, 101u8]
}

/// `name` is `Content-Type`, compared without regard to ASCII case, as
/// header names are compared.
pub open spec fn names_content_type(name: Seq<u8>) -> bool {
    &&& name.len() == content_type_name().len()
    &&& forall|i: int| 0 <= i < name.len() ==> ascii_lower(#[trigger] name[i]) == content_type_name()[i]
}

/// The value of the first `Content-Type` field among `fields`, if any.
pub open spec fn content_type_of(fields: Seq<(Seq<u8>, Seq<u8>)>) -> Option<Seq<u8>>
    decreases fields.len(),
{
    if fields.len() == 0 {
        None
    } else if names_content_type(fields[0].0) {
        Some(fields[0].1)
    } else {
        content_type_of(fields.drop_first())
    }
}

/// The bytes of `Content-Type` in any mix of letter case are exactly the
/// names that `names_content_type` accepts: each byte is the byte of
/// `content-type` or, for a letter, its upper-case form.
pub proof fn lemma_content_type_name_any_case(name: Seq<u8>)
    ensures
        names_content_type(name) <==> {
            let lit = "content-type"@;
            &&& name.len() == lit.len()
            &&& forall|i: int|
                0 <= i < lit.len() ==> #[trigger] name[i] as int == lit[i] as int || ('a' <= lit[i]
                    <= 'z' && name[i] as int + 32 == lit[i] as int)
        },
{
    reveal_strlit("content-type");
    let lit = "content-type"@;
    assert(lit.len() == 12);
    assert forall|i: int| 0 <= i < 12 implies #[trigger] content_type_name()[i] as int == lit[i] as int by {
        assert(content_type_name() =~= seq![99u8, 111u8, 110u8, 116u8, 101u8, 110u8, 116u8, 45u8, 116u8, 121u8, 112u8, 101u8]);
    }
}

/// The first field that names `Content-Type`, wherever it stands, gives the
/// value; where no field names it, there is none.
pub proof fn lemma_content_type_is_first_match(fields: Seq<(Seq<u8>, Seq<u8>)>)
    ensures
        forall|k: int|
            0 <= k < fields.len() && names_content_type(#[trigger] fields[k].0) && (forall|j: int|
                0 <= j < k ==> !names_content_type(#[trigger] fields[j].0)) ==> content_type_of(
                fields,
            ) == Some(fields[k].1),
        (forall|k: int| 0 <= k < fields.len() ==> !names_content_type(#[trigger] fields[k].0))
            <==> content_type_of(fields) is None,
    decreases fields.len(),
{
    if fields.len() > 0 {
        let rest = fields.drop_first();
        lemma_content_type_is_first_match(rest);
        assert forall|k: int|
            0 <= k < fields.len() && names_content_type(#[trigger] fields[k].0) && (forall|j: int|
                0 <= j < k ==> !names_content_type(#[trigger] fields[j].0)) implies content_type_of(
            fields,
        ) == Some(fields[k].1) by {
            if k > 0 {
                assert(!names_content_type(fields[0].0));
                assert(rest[k - 1] == fields[k]);
                assert forall|j: int| 0 <= j < k - 1 implies !names_content_type(
                    #[trigger] rest[j].0,
                ) by {
                    assert(rest[j] == fields[j + 1]);
                    assert(!names_content_type(fields[j + 1].0));
                }
            }
        }
        if content_type_of(fields) is None {
            assert forall|k: int| 0 <= k < fields.len() implies !names_content_type(
                #[trigger] fields[k].0,
            ) by {
                if k > 0 {
                    assert(rest[k - 1] == fields[k]);
                }
            }
        } else {
            if forall|k: int| 0 <= k < fields.len() ==> !names_content_type(#[trigger] fields[k].0) {
                assert(!names_content_type(fields[0].0));
                assert forall|k: int| 0 <= k < rest.len() implies !names_content_type(
                    #[trigger] rest[k].0,
                ) by {
                    assert(rest[k] == fields[k + 1]);
                }
            }
        }
    }
}

/// A byte that a header value may hold where it is read as text: a tab or
/// a visible ASCII character.
pub open spec fn is_visible_ascii(b: u8) -> bool {
    (32 <= b < 127) || b == 9
}

/// The characters of a sequence of ASCII bytes.
pub open spec fn ascii_chars(bytes: Seq<u8>) -> Seq<char> {
    bytes.map_values(|b: u8| b as char)
}

/// The error text of a request without a `Content-Type` header.
pub open spec fn no_content_type_message() -> Seq<char> {
    "No Content-Type header found"@
}

fn is_content_type_name(name: &Vec<u8>) -> (b: bool)
    ensures
        b == names_content_type(name@),
{
    let target: Vec<u8> = vec![99u8, 111u8, 110u8, 116u8, 101u8, 110u8, 116u8, 45u8, 116u8, 121u8, 112u8, 101u8];
    assert(target@ =~= content_type_name());
    if name.len() != target.len() {
        return false;
    }
    let mut i: usize = 0;
    while i < name.len()
        invariant
            name.len() == target.len(),
            target@ == content_type_name(),
            0 <= i <= name.len(),
            forall|j: int| 0 <= j < i ==> ascii_lower(#[trigger] name@[j]) == content_type_name()[j],
        decreases name.len() - i,
    {
        let b = name[i];
        let lower = if 65 <= b && b <= 90 { b + 32 } else { b };
        if lower != target[i] {
            return false;
        }
        i = i + 1;
    }
    true
}

proof fn lemma_ascii_bytes_decode(bytes: Seq<u8>)
    requires
        forall|i: int| 0 <= i < bytes.len() ==> #[trigger] bytes[i] < 128,
    ensures
        valid_utf8(bytes),
        decode_utf8(bytes) == ascii_chars(bytes),
{
    let chars = ascii_chars(bytes);
    assert(vstd::utf8::is_ascii_chars(chars));
    vstd::utf8::is_ascii_chars_encode_utf8(chars);
    assert(vstd::utf8::encode_utf8(chars) =~= bytes);
    vstd::utf8::encode_utf8_valid_utf8(chars);
    vstd::utf8::encode_utf8_decode_utf8(chars);
}

/// The answer to a request that reports its `Content-Type`: the value of
/// the first such header field as text, or an error where there is none.
/// That value must consist of tabs and visible ASCII characters.
pub fn header_handler(headers: &RequestHeaders) -> (r: Result<String, String>)
    requires
        content_type_of(headers@) matches Some(v) ==> forall|i: int|
            0 <= i < v.len() ==> is_visible_ascii(#[trigger] v[i]),
    ensures
        match content_type_of(headers@) {
            Some(v) => r matches Ok(text) && text@ == ascii_chars(v),
            None => r matches Err(msg) && msg@ == no_content_type_message(),
        },
        forall|k: int|
            0 <= k < headers@.len() && names_content_type(#[trigger] headers@[k].0) && (forall|j: int|
                0 <= j < k ==> !names_content_type(#[trigger] headers@[j].0)) ==> (r matches Ok(text)
                && text@ == ascii_chars(headers@[k].1)),
        r is Err <==> forall|k: int|
            0 <= k < headers@.len() ==> !names_content_type(#[trigger] headers@[k].0),
{
    let mut i: usize = 0;
    assert(headers@.skip(0) =~= headers@);
    while i < headers.fields.len()
        invariant
            0 <= i <= headers.fields.len(),
            content_type_of(headers@) matches Some(v) ==> forall|k: int|
                0 <= k < v.len() ==> is_visible_ascii(#[trigger] v[k]),
            content_type_of(headers@) == content_type_of(headers@.skip(i as int)),
        decreases headers.fields.len() - i,
    {
        let field = &headers.fields[i];
        assert(headers@.skip(i as int)[0] == (field.name@, field.value@));
        assert(headers@.skip(i as int).drop_first() =~= headers@.skip(i + 1));
        if is_content_type_name(&field.name) {
            let value = field.value.clone();
            proof {
                assert(content_type_of(headers@) == Some(value@));
                assert forall|k: int| 0 <= k < value@.len() implies #[trigger] value@[k] < 128 by {
                    let v = content_type_of(headers@)->0;
                    assert(v == value@);
                    assert(is_visible_ascii(v[k]));
                }
                lemma_ascii_bytes_decode(value@);
                lemma_content_type_is_first_match(headers@);
            }
            match string_from_utf8(value) {
                Some(text) => {
                    return Ok(text);
                },
                None => {
                    assert(false);
                    return Ok(String::new());
                },
            }
        }
        i = i + 1;
    }
    assert(headers@.skip(i as int) =~= Seq::<(Seq<u8>, Seq<u8>)>::empty());
    proof {
        lemma_content_type_is_first_match(headers@);
    }
    Err(String::from_str("No Content-Type header found"))
}

/// The HTTP status of a successful reply: 200 OK.
pub const OK: u16 = 200;

/// A reply given in full: its status, content type and body.
#[derive(Debug)]
pub struct PlainReply {
    pub status: u16,
    pub content_type: String,
    pub body: String,
}

/// The reply of `GET /users` in the response exercise: 200, plain text,
/// empty body.
pub fn response_handler() -> (reply: PlainReply)
    ensures
        reply.status == OK,
        reply.content_type@ == "text/plain"@,
        reply.body@ == Seq::<char>::empty(),
{
    PlainReply { status: OK, content_type: String::from_str("text/plain"), body: String::new() }
}

/// The HTTP status of a failed reply: 500 Internal Server Error.
pub const INTERNAL_SERVER_ERROR: u16 = 500;

/// The body that `GET /` answers with in the body exercise.
pub fn body_handler() -> (body: &'static str)
    ensures
        body@ == "Hello, world!"@,
{
    "Hello, world!"
}

/// The answer of `GET /` in the result exercise: always the failure status
/// 500.
pub fn result_handler() -> (r: Result<String, u16>)
    ensures
        r == Err::<String, u16>(INTERNAL_SERVER_ERROR),
{
    Err(INTERNAL_SERVER_ERROR)
}

} // verus!
