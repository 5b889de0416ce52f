//! The fetch pipeline's classification: what a completed response is shown
//! as.
//!
//! A response that declares an image type becomes an image, which the
//! renderer decodes from the response's body under the response's URL.  Any
//! other response is read as text.  Where that succeeds and the URL has an
//! extension, the text is also marked for syntax highlighting in the
//! language that the extension names; under a URL without extension the
//! text stays plain.  A body that is no text is binary.

use vstd::prelude::*;
use crate::http::{body_text, declared_content_type, Response, ResponseView};

verus! {

/// The image of a response: the URI under which the renderer keeps and
/// finds the response's bytes.
#[derive(Debug, PartialEq, Eq)]
pub struct ImageSource {
    pub uri: String,
}

/// Text to be shown with syntax highlighting: the text, and the language
/// tag to highlight it by.
#[derive(Debug, PartialEq, Eq)]
pub struct ColoredText {
    pub text: String,
    pub language: String,
}

/// What a [`ColoredText`] holds.
pub struct ColoredTextView {
    pub text: Seq<char>,
    pub language: Seq<char>,
}

impl View for ColoredText {
    type V = ColoredTextView;

    open spec fn view(&self) -> ColoredTextView {
        ColoredTextView { text: self.text@, language: self.language@ }
    }
}

/// One completed fetch, ready to be shown.
#[derive(Debug, PartialEq, Eq)]
pub struct Resource {
    /// The response as it came.
    pub response: Response,
    /// The body as text, where it is text and the response is no image.
    pub text: Option<String>,
    /// If set, the response was an image.
    pub image: Option<ImageSource>,
    /// If set, the response was text under a URL with an extension, to be
    /// highlighted by that extension.
    pub colored_text: Option<ColoredText>,
}

/// What a [`Resource`] holds.
pub struct ResourceView {
    pub response: ResponseView,
    pub text: Option<Seq<char>>,
    pub image: Option<Seq<char>>,
    pub colored_text: Option<ColoredTextView>,
}

impl View for Resource {
    type V = ResourceView;

    open spec fn view(&self) -> ResourceView {
        ResourceView {
            response: self.response@,
            text: match self.text {
                Some(text) => Some(text@),
                None => None,
            },
            image: match self.image {
                Some(image) => Some(image.uri@),
                None => None,
            },
            colored_text: match self.colored_text {
                Some(colored_text) => Some(colored_text@),
                None => None,
            },
        }
    }
}

/// The four ways in which a resource is shown.
#[derive(Clone, Copy, Debug, PartialEq, Eq, Structural)]
pub enum DisplayKind {
    Image,
    ColoredText,
    PlainText,
    Binary,
}

impl ResourceView {
    /// How the resource is shown: as its image if it has one, else as
    /// highlighted text, else as plain text, else as binary.
    pub open spec fn display_kind(self) -> DisplayKind {
        if self.image is Some {
            DisplayKind::Image
        } else if self.colored_text is Some {
            DisplayKind::ColoredText
        } else if self.text is Some {
            DisplayKind::PlainText
        } else {
            DisplayKind::Binary
        }
    }
}

/// A content type that begins with `image/`.
pub open spec fn is_image_type(content_type: Seq<char>) -> bool {
    "image/"@.is_prefix_of(content_type)
}

/// What follows the last `.` of a text: its longest suffix that holds no
/// `.`.
pub open spec fn after_last_dot(url: Seq<char>) -> Seq<char>
    decreases url.len(),
{
    if url.len() == 0 || url.last() == '.' {
        Seq::empty()
    } else {
        after_last_dot(url.drop_last()).push(url.last())
    }
}

/// The extension of a URL, which names its language: what follows the last
/// `.`.  A URL that holds no `.` has no extension.
pub open spec fn extension_of(url: Seq<char>) -> Option<Seq<char>> {
    if url.contains('.') {
        Some(after_last_dot(url))
    } else {
        None
    }
}

/// What text is highlighted as under a URL: the text with the URL's
/// extension as its language, or nothing under a URL without extension.
pub open spec fn highlighted(url: Seq<char>, text: Seq<char>) -> Option<ColoredTextView> {
    match extension_of(url) {
        Some(language) => Some(ColoredTextView { text, language }),
        None => None,
    }
}

/// The content type that classification goes by: the declared one, or the
/// empty text where none is declared.
pub open spec fn effective_content_type(response: ResponseView) -> Seq<char> {
    match declared_content_type(response.headers) {
        Some(content_type) => content_type,
        None => Seq::empty(),
    }
}

/// The resource that a response is classified as.
pub open spec fn classified(response: ResponseView) -> ResourceView {
    if is_image_type(effective_content_type(response)) {
        ResourceView { response, text: None, image: Some(response.url), colored_text: None }
    } else {
        match body_text(response.bytes) {
            Some(text) => ResourceView {
                response,
                text: Some(text),
                image: None,
                colored_text: highlighted(response.url, text),
            },
            None => ResourceView { response, text: None, image: None, colored_text: None },
        }
    }
}

/// What is shown for a failed fetch: the error's text, or the word
/// `Error` for an error without text.
pub open spec fn shown_error(error: Seq<char>) -> Seq<char> {
    if error.len() == 0 {
        "Error"@
    } else {
        error
    }
}

/// Whether a content type is an image type.
pub fn has_image_type(content_type: &str) -> (image: bool)
    ensures
        image == is_image_type(content_type@),
{
    let prefix = "image/";
    proof {
        reveal_strlit("image/");
    }
    if content_type.unicode_len() < 6 {
        return false;
    }
    let mut i: usize = 0;
    while i < 6
        invariant
            i <= 6,
            prefix@ == "image/"@,
            prefix@.len() == 6,
            content_type@.len() >= 6,
            forall|k: int| 0 <= k < i ==> content_type@[k] == prefix@[k],
        decreases 6 - i,
    {
        if content_type.get_char(i) != prefix.get_char(i) {
            return false;
        }
        i += 1;
    }
    true
}

/// The extension of a URL, found in one pass over its characters.
pub fn url_extension(url: &str) -> (extension: Option<String>)
    ensures
        extension is Some <==> extension_of(url@) is Some,
        extension is Some ==> extension->0@ == extension_of(url@)->0,
{
    let len: usize = url.unicode_len();
    let mut start: usize = 0;
    let mut i: usize = 0;
    for c in it: url.chars()
        invariant
            len == url@.len(),
            it.seq() == url@,
            i == it.index(),
            start <= i <= len,
            forall|k: int| start <= k < i ==> url@[k] != '.',
            start == 0 || url@[start - 1] == '.',
    {
        i += 1;
        if c == '.' {
            start = i;
        }
    }
    if start == 0 {
        None
    } else {
        proof {
            lemma_extension_is_the_last_suffix(url@, start as int);
        }
        Some(url.substring_char(start, len).to_owned())
    }
}

/// Marks text for highlighting in the language that the extension of the
/// response's URL names.  Under a URL without extension nothing is marked,
/// and the text is to be shown plain.
pub fn syntax_highlighting(response: &Response, text: &str) -> (colored_text: Option<ColoredText>)
    ensures
        colored_text is Some <==> response@.url.contains('.'),
        colored_text is Some ==> colored_text->0@ == (ColoredTextView {
            text: text@,
            language: after_last_dot(response@.url),
        }),
{
    match url_extension(response.url().as_str()) {
        Some(language) => Some(ColoredText { text: text.to_owned(), language }),
        None => None,
    }
}

/// The text to show for a failed fetch.
pub fn error_text(error: &str) -> (shown: String)
    ensures
        shown@ == shown_error(error@),
{
    if error.is_empty() {
        "Error".to_owned()
    } else {
        error.to_owned()
    }
}

impl Resource {
    /// Classifies a completed response.
    pub fn from_response(response: Response) -> (resource: Resource)
        ensures
            resource@ == classified(response@),
    {
        let content_type = match response.content_type() {
            Some(content_type) => content_type,
            None => String::new(),
        };
        if has_image_type(content_type.as_str()) {
            let image = ImageSource { uri: response.url().clone() };
            Resource { response, text: None, colored_text: None, image: Some(image) }
        } else {
            let text = response.text();
            let colored_text = match &text {
                Some(text) => syntax_highlighting(&response, text.as_str()),
                None => None,
            };
            Resource { response, text, colored_text, image: None }
        }
    }

    /// How the resource is shown.
    pub fn display_kind(&self) -> (kind: DisplayKind)
        ensures
            kind == self@.display_kind(),
    {
        if self.image.is_some() {
            DisplayKind::Image
        } else if self.colored_text.is_some() {
            DisplayKind::ColoredText
        } else if self.text.is_some() {
            DisplayKind::PlainText
        } else {
            DisplayKind::Binary
        }
    }
}

/// What follows the last `.` starts behind it: a suffix that holds no `.`
/// and that either is the whole text or stands behind a `.` is the suffix
/// that `after_last_dot` names.
pub proof fn lemma_extension_is_the_last_suffix(url: Seq<char>, start: int)
    requires
        0 <= start <= url.len(),
        forall|k: int| start <= k < url.len() ==> url[k] != '.',
        start == 0 || url[start - 1] == '.',
    ensures
        after_last_dot(url) == url.subrange(start, url.len() as int),
    decreases url.len(),
{
    if start < url.len() {
        let shorter = url.drop_last();
        lemma_extension_is_the_last_suffix(shorter, start);
        assert(shorter.subrange(start, shorter.len() as int).push(url.last()) =~= url.subrange(
            start,
            url.len() as int,
        ));
    }
}

/// How classification goes by the declared content type, the body and the
/// URL.  An image type gives an image and neither text nor highlighted
/// text.  Any other type with a body that is text gives the text and no
/// image, with highlighted text exactly when the URL has an extension, and
/// plain text otherwise.  Any other type with a body that is no text gives
/// none of the three.  In each case exactly one way of showing applies.
pub proof fn lemma_classification(response: ResponseView)
    ensures
        is_image_type(effective_content_type(response)) ==> {
            &&& classified(response).image == Some(response.url)
            &&& classified(response).text is None
            &&& classified(response).colored_text is None
            &&& classified(response).display_kind() == DisplayKind::Image
        },
        !is_image_type(effective_content_type(response)) && body_text(response.bytes) is Some ==> {
            &&& classified(response).image is None
            &&& classified(response).text == body_text(response.bytes)
            &&& classified(response).colored_text is Some <==> response.url.contains('.')
        },
        !is_image_type(effective_content_type(response)) && body_text(response.bytes) is Some
            && response.url.contains('.') ==> {
            &&& classified(response).colored_text->0.text == body_text(response.bytes)->0
            &&& classified(response).colored_text->0.language == after_last_dot(response.url)
            &&& classified(response).display_kind() == DisplayKind::ColoredText
        },
        !is_image_type(effective_content_type(response)) && body_text(response.bytes) is Some
            && !response.url.contains('.') ==> {
            &&& classified(response).colored_text is None
            &&& classified(response).display_kind() == DisplayKind::PlainText
        },
        !is_image_type(effective_content_type(response)) && body_text(response.bytes) is None ==> {
            &&& classified(response).image is None
            &&& classified(response).text is None
            &&& classified(response).colored_text is None
            &&& classified(response).display_kind() == DisplayKind::Binary
        },
        classified(response).response == response,
{
}

/// An extension holds no `.`, and it is the end of its URL, behind a `.`.
pub proof fn lemma_extension_is_a_suffix_without_dot(url: Seq<char>)
    requires
        url.contains('.'),
    ensures
        !after_last_dot(url).contains('.'),
        after_last_dot(url).len() < url.len(),
        url[url.len() - after_last_dot(url).len() - 1] == '.',
        url.subrange(url.len() - after_last_dot(url).len(), url.len() as int) == after_last_dot(url),
    decreases url.len(),
{
    let dot = choose|i: int| 0 <= i < url.len() && url[i] == '.';
    if url.last() != '.' {
        let shorter = url.drop_last();
        assert(shorter[dot] == '.');
        lemma_extension_is_a_suffix_without_dot(shorter);
        let suffix = after_last_dot(shorter);
        assert(url.subrange(url.len() - suffix.len() - 1, url.len() as int) =~= suffix.push(
            url.last(),
        ));
        assert forall|k: int| 0 <= k < suffix.push(url.last()).len() implies suffix.push(
            url.last(),
        )[k] != '.' by {
            if k < suffix.len() {
                assert(suffix.contains(suffix[k]));
            }
        }
    } else {
        assert(url.subrange(url.len() as int, url.len() as int) =~= Seq::<char>::empty());
    }
}

} // verus!
