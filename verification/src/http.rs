//! A completed HTTP response, held as plain values, and the two questions
//! that classification asks of it: which content type it declares, and
//! whether its body is text.

use vstd::prelude::*;
use vstd::utf8::{
    decode_utf8, encode_utf8, encode_utf8_decode_utf8, encode_utf8_valid_utf8, valid_utf8,
};

verus! {

/// One response header: its name and its value.
pub type HeaderView = (Seq<char>, Seq<char>);

/// What a [`Response`] holds, with each text as a sequence of characters.
pub struct ResponseView {
    pub url: Seq<char>,
    pub ok: bool,
    pub status: u16,
    pub status_text: Seq<char>,
    pub headers: Seq<HeaderView>,
    pub bytes: Seq<u8>,
}

/// The headers of a list, each by its view.
pub open spec fn header_views(headers: Seq<(String, String)>) -> Seq<HeaderView> {
    headers.map_values(|header: (String, String)| (header.0@, header.1@))
}

/// No two headers share a name.
pub open spec fn header_names_distinct(headers: Seq<HeaderView>) -> bool {
    forall|i: int, j: int|
        0 <= i < j < headers.len() ==> (#[trigger] headers[i]).0 != (#[trigger] headers[j]).0
}

/// Some header has the name `name`.
pub open spec fn has_header(headers: Seq<HeaderView>, name: Seq<char>) -> bool {
    exists|i: int| 0 <= i < headers.len() && (#[trigger] headers[i]).0 == name
}

/// The value of the header named `name`, if there is one.  Names are
/// compared as they stand, without folding case.
pub open spec fn header_value(headers: Seq<HeaderView>, name: Seq<char>) -> Option<Seq<char>> {
    if has_header(headers, name) {
        Some(headers[choose|i: int| 0 <= i < headers.len() && (#[trigger] headers[i]).0 == name].1)
    } else {
        None
    }
}

/// The content type that a response declares: the value of its
/// `content-type` header.
pub open spec fn declared_content_type(headers: Seq<HeaderView>) -> Option<Seq<char>> {
    header_value(headers, "content-type"@)
}

/// The body read as text: its decoding where the bytes are well-formed
/// UTF-8, nothing otherwise.
pub open spec fn body_text(bytes: Seq<u8>) -> Option<Seq<char>> {
    if valid_utf8(bytes) {
        Some(decode_utf8(bytes))
    } else {
        None
    }
}

/// A completed HTTP response: the URL that was reached, the status, the
/// headers and the body.  No two of its headers share a name.
#[derive(Debug, PartialEq, Eq)]
pub struct Response {
    url: String,
    ok: bool,
    status: u16,
    status_text: String,
    headers: Vec<(String, String)>,
    bytes: Vec<u8>,
}

impl View for Response {
    type V = ResponseView;

    closed spec fn view(&self) -> ResponseView {
        ResponseView {
            url: self.url@,
            ok: self.ok,
            status: self.status,
            status_text: self.status_text@,
            headers: header_views(self.headers@),
            bytes: self.bytes@,
        }
    }
}

/// Whether a header list holds a name twice.
fn names_distinct(headers: &Vec<(String, String)>) -> (distinct: bool)
    ensures
        distinct == header_names_distinct(header_views(headers@)),
{
    let ghost views = header_views(headers@);
    let mut j: usize = 0;
    while j < headers.len()
        invariant
            j <= headers.len(),
            views == header_views(headers@),
            forall|a: int, b: int|
                0 <= a < b < j ==> (#[trigger] views[a]).0 != (#[trigger] views[b]).0,
        decreases headers.len() - j,
    {
        let mut i: usize = 0;
        while i < j
            invariant
                i <= j < headers.len(),
                views == header_views(headers@),
                forall|a: int| 0 <= a < i ==> (#[trigger] views[a]).0 != views[j as int].0,
            decreases j - i,
        {
            if headers[i].0 == headers[j].0 {
                assert(views[i as int].0 == views[j as int].0);
                return false;
            }
            i += 1;
        }
        j += 1;
    }
    true
}

impl Response {
    #[verifier::type_invariant]
    spec fn well_formed(&self) -> bool {
        header_names_distinct(self@.headers)
    }

    /// Puts a response together from its parts.  The parts are accepted
    /// exactly when no two headers share a name.
    pub fn new(
        url: String,
        ok: bool,
        status: u16,
        status_text: String,
        headers: Vec<(String, String)>,
        bytes: Vec<u8>,
    ) -> (response: Option<Response>)
        ensures
            response is Some <==> header_names_distinct(header_views(headers@)),
            response is Some ==> response->0@ == (ResponseView {
                url: url@,
                ok,
                status,
                status_text: status_text@,
                headers: header_views(headers@),
                bytes: bytes@,
            }),
    {
        if names_distinct(&headers) {
            Some(Response { url, ok, status, status_text, headers, bytes })
        } else {
            None
        }
    }

    /// The URL that was reached.
    pub fn url(&self) -> (url: &String)
        ensures
            url@ == self@.url,
    {
        &self.url
    }

    /// Whether the status is one of success.
    pub fn ok(&self) -> (ok: bool)
        ensures
            ok == self@.ok,
    {
        self.ok
    }

    /// The status code.
    pub fn status(&self) -> (status: u16)
        ensures
            status == self@.status,
    {
        self.status
    }

    /// The status text.
    pub fn status_text(&self) -> (status_text: &String)
        ensures
            status_text@ == self@.status_text,
    {
        &self.status_text
    }

    /// The headers, in the order in which they were handed over.  Of every
    /// response this also says that no two of them share a name.
    pub fn headers(&self) -> (headers: &Vec<(String, String)>)
        ensures
            header_views(headers@) == self@.headers,
            header_names_distinct(self@.headers),
    {
        proof {
            use_type_invariant(self);
        }
        &self.headers
    }

    /// The raw bytes of the body.
    pub fn bytes(&self) -> (bytes: &Vec<u8>)
        ensures
            bytes@ == self@.bytes,
    {
        &self.bytes
    }

    /// Looks up the declared content type by calling
    /// `ehttp::Response::content_type` on this response, converted field by
    /// field.  That method looks the key `content-type` up in the
    /// response's map from header name to value.  The contract claims that
    /// the answer is the value that stands beside that name among the
    /// headers, or nothing where the name does not occur; it leaves out
    /// header lists in which a name occurs twice, of which the map would
    /// keep one entry only.
    #[verifier::external_body]
    fn lookup_content_type(&self) -> (content_type: Option<String>)
        requires
            header_names_distinct(self@.headers),
        ensures
            content_type is Some <==> declared_content_type(self@.headers) is Some,
            content_type is Some ==> content_type->0@ == declared_content_type(self@.headers)->0,
    {
        let response = ehttp::Response {
            url: self.url.clone(),
            ok: self.ok,
            status: self.status,
            status_text: self.status_text.clone(),
            headers: self.headers.iter().cloned().collect(),
            bytes: self.bytes.clone(),
        };
        response.content_type().map(|content_type| content_type.to_owned())
    }

    /// Decodes the body as text by calling `ehttp::Response::text` on this
    /// response, converted field by field.  That method is
    /// `std::str::from_utf8(..).ok()` on the body.  The contract claims what
    /// `from_utf8` documents: the text is there exactly when the bytes are
    /// well-formed UTF-8, and it is then their decoding.
    #[verifier::external_body]
    fn decode_body(&self) -> (text: Option<String>)
        ensures
            text is Some <==> body_text(self@.bytes) is Some,
            text is Some ==> text->0@ == body_text(self@.bytes)->0,
    {
        let response = ehttp::Response {
            url: self.url.clone(),
            ok: self.ok,
            status: self.status,
            status_text: self.status_text.clone(),
            headers: self.headers.iter().cloned().collect(),
            bytes: self.bytes.clone(),
        };
        response.text().map(|text| text.to_owned())
    }

    /// The content type that the response declares, if it declares one.
    pub fn content_type(&self) -> (content_type: Option<String>)
        ensures
            content_type is Some <==> declared_content_type(self@.headers) is Some,
            content_type is Some ==> content_type->0@ == declared_content_type(self@.headers)->0,
    {
        proof {
            use_type_invariant(self);
        }
        self.lookup_content_type()
    }

    /// The body as text, if it is well-formed UTF-8.
    pub fn text(&self) -> (text: Option<String>)
        ensures
            text is Some <==> body_text(self@.bytes) is Some,
            text is Some ==> text->0@ == body_text(self@.bytes)->0,
    {
        self.decode_body()
    }
}

/// Where names are distinct, the header found under a name is the only one
/// of that name, so its value is the value of that name.
pub proof fn lemma_header_value(headers: Seq<HeaderView>, i: int)
    requires
        header_names_distinct(headers),
        0 <= i < headers.len(),
    ensures
        header_value(headers, headers[i].0) == Some(headers[i].1),
{
    let name = headers[i].0;
    let j = choose|j: int| 0 <= j < headers.len() && (#[trigger] headers[j]).0 == name;
    assert(j == i);
}

/// A body that is the UTF-8 encoding of a text is read back as that text.
pub proof fn lemma_encoded_text_is_read_back(text: Seq<char>)
    ensures
        body_text(encode_utf8(text)) == Some(text),
{
    encode_utf8_valid_utf8(text);
    encode_utf8_decode_utf8(text);
}

} // verus!
