use flashcards::http::Response;
use flashcards::resource::{
    error_text, has_image_type, syntax_highlighting, url_extension, ColoredText, DisplayKind, ImageSource,
    Resource,
};

fn response(url: &str, content_type: Option<&str>, bytes: &[u8]) -> Response {
    let mut headers = vec![("content-length".to_owned(), bytes.len().to_string())];
    if let Some(content_type) = content_type {
        headers.push(("content-type".to_owned(), content_type.to_owned()));
    }
    headers.push(("server".to_owned(), "test".to_owned()));
    Response::new(url.to_owned(), true, 200, "OK".to_owned(), headers, bytes.to_vec()).unwrap()
}

#[test]
fn response_keeps_its_parts() {
    let headers = vec![("a".to_owned(), "1".to_owned()), ("b".to_owned(), "2".to_owned())];
    let response =
        Response::new("https://x/y".to_owned(), false, 404, "Not Found".to_owned(), headers.clone(), vec![1, 2, 3])
            .unwrap();
    assert_eq!(response.url(), "https://x/y");
    assert!(!response.ok());
    assert_eq!(response.status(), 404);
    assert_eq!(response.status_text(), "Not Found");
    assert_eq!(response.headers(), &headers);
    assert_eq!(response.bytes(), &vec![1u8, 2, 3]);
}

#[test]
fn response_refuses_a_repeated_header_name() {
    let headers = vec![
        ("content-type".to_owned(), "text/plain".to_owned()),
        ("server".to_owned(), "x".to_owned()),
        ("content-type".to_owned(), "image/png".to_owned()),
    ];
    assert_eq!(Response::new(String::new(), true, 200, String::new(), headers, Vec::new()), None);
}

#[test]
fn content_type_is_the_value_of_its_header() {
    assert_eq!(
        response("https://x", Some("text/html; charset=utf-8"), b"").content_type(),
        Some("text/html; charset=utf-8".to_owned())
    );
    assert_eq!(response("https://x", None, b"").content_type(), None);
}

#[test]
fn content_type_header_name_is_matched_as_it_stands() {
    let headers = vec![("Content-Type".to_owned(), "image/png".to_owned())];
    let response = Response::new(String::new(), true, 200, String::new(), headers, Vec::new()).unwrap();
    assert_eq!(response.content_type(), None);
}

#[test]
fn text_is_the_decoded_body() {
    assert_eq!(response("https://x", None, "héllo ✓".as_bytes()).text(), Some("héllo ✓".to_owned()));
    assert_eq!(response("https://x", None, b"").text(), Some(String::new()));
    assert_eq!(response("https://x", None, &[0xff, 0xfe, 0x00]).text(), None);
    assert_eq!(response("https://x", None, &[0xc3]).text(), None);
}

#[test]
fn image_content_type_yields_an_image_only() {
    let resource = Resource::from_response(response("https://example.com/cat", Some("image/png"), &[137, 80, 78, 71]));
    assert_eq!(resource.image, Some(ImageSource { uri: "https://example.com/cat".to_owned() }));
    assert_eq!(resource.text, None);
    assert_eq!(resource.colored_text, None);
    assert_eq!(resource.display_kind(), DisplayKind::Image);
    assert_eq!(resource.response.bytes(), &vec![137u8, 80, 78, 71]);
}

#[test]
fn image_content_type_wins_over_a_text_body() {
    let resource = Resource::from_response(response("https://example.com/a.svg", Some("image/svg+xml"), b"<svg/>"));
    assert!(resource.image.is_some());
    assert_eq!(resource.text, None);
    assert_eq!(resource.colored_text, None);
}

#[test]
fn plain_text_yields_text_and_no_image() {
    let resource =
        Resource::from_response(response("https://example.com/notes.txt", Some("text/plain"), b"hello"));
    assert_eq!(resource.text, Some("hello".to_owned()));
    assert_eq!(resource.image, None);
    assert_eq!(
        resource.colored_text,
        Some(ColoredText { text: "hello".to_owned(), language: "txt".to_owned() })
    );
    assert_eq!(resource.display_kind(), DisplayKind::ColoredText);
}

#[test]
fn known_extension_yields_colored_text() {
    let resource =
        Resource::from_response(response("https://example.com/src/main.rs", Some("text/plain"), b"fn main() {}"));
    assert_eq!(resource.text, Some("fn main() {}".to_owned()));
    assert_eq!(resource.image, None);
    assert_eq!(
        resource.colored_text,
        Some(ColoredText { text: "fn main() {}".to_owned(), language: "rs".to_owned() })
    );
}

#[test]
fn undecodable_bytes_yield_binary() {
    let resource = Resource::from_response(response(
        "https://example.com/blob.bin",
        Some("application/octet-stream"),
        &[0x00, 0xff, 0xc0, 0x80],
    ));
    assert_eq!(resource.text, None);
    assert_eq!(resource.image, None);
    assert_eq!(resource.colored_text, None);
    assert_eq!(resource.display_kind(), DisplayKind::Binary);
}

#[test]
fn missing_content_type_is_read_as_text() {
    let resource = Resource::from_response(response("https://example.com/x.md", None, b"# T"));
    assert_eq!(resource.text, Some("# T".to_owned()));
    assert_eq!(resource.image, None);
    let resource = Resource::from_response(response("https://example.com/x.md", None, &[0xff]));
    assert_eq!(resource.display_kind(), DisplayKind::Binary);
}

#[test]
fn markdown_readme_end_to_end() {
    let resource =
        Resource::from_response(response("https://example.com/readme.md", Some("text/markdown"), b"# Hi"));
    assert_eq!(resource.text, Some("# Hi".to_owned()));
    assert_eq!(
        resource.colored_text,
        Some(ColoredText { text: "# Hi".to_owned(), language: "md".to_owned() })
    );
    assert_eq!(resource.image, None);
    assert_eq!(resource.response.url(), "https://example.com/readme.md");
}

#[test]
fn image_type_is_a_prefix_test() {
    assert!(has_image_type("image/png"));
    assert!(has_image_type("image/"));
    assert!(has_image_type("image/jpeg; q=1"));
    assert!(!has_image_type("image"));
    assert!(!has_image_type(""));
    assert!(!has_image_type("Image/png"));
    assert!(!has_image_type("text/plain"));
    assert!(!has_image_type(" image/png"));
    assert!(!has_image_type("imagé/png"));
}

#[test]
fn extension_is_what_follows_the_last_dot() {
    assert_eq!(url_extension("https://example.com/readme.md"), Some("md".to_owned()));
    assert_eq!(url_extension("a.b.c"), Some("c".to_owned()));
    assert_eq!(url_extension("archive.tar.gz"), Some("gz".to_owned()));
    assert_eq!(url_extension("trailing."), Some(String::new()));
    assert_eq!(url_extension("."), Some(String::new()));
    assert_eq!(url_extension(".hidden"), Some("hidden".to_owned()));
    assert_eq!(url_extension("é.ü✓"), Some("ü✓".to_owned()));
    assert_eq!(url_extension("https://example.com/readme"), Some("com/readme".to_owned()));
}

#[test]
fn url_without_dot_has_no_extension() {
    assert_eq!(url_extension("localhost"), None);
    assert_eq!(url_extension("http://localhost/readme"), None);
    assert_eq!(url_extension(""), None);
}

#[test]
fn syntax_highlighting_marks_text_by_the_extension() {
    let response = response("https://example.com/a/b.toml", None, b"");
    assert_eq!(
        syntax_highlighting(&response, "k = 1"),
        Some(ColoredText { text: "k = 1".to_owned(), language: "toml".to_owned() })
    );
    assert_eq!(
        syntax_highlighting(&response, ""),
        Some(ColoredText { text: String::new(), language: "toml".to_owned() })
    );
}

#[test]
fn syntax_highlighting_is_left_out_without_extension() {
    assert_eq!(syntax_highlighting(&response("localhost", None, b""), "text"), None);
    assert_eq!(syntax_highlighting(&response("http://localhost:8080/notes", None, b""), "text"), None);
    assert_eq!(syntax_highlighting(&response("", None, b""), ""), None);
}

#[test]
fn text_under_a_url_without_extension_stays_plain() {
    let resource = Resource::from_response(response("http://localhost/notes", Some("text/plain"), b"hello"));
    assert_eq!(resource.text, Some("hello".to_owned()));
    assert_eq!(resource.colored_text, None);
    assert_eq!(resource.image, None);
    assert_eq!(resource.display_kind(), DisplayKind::PlainText);
    let resource = Resource::from_response(response("localhost", None, b""));
    assert_eq!(resource.text, Some(String::new()));
    assert_eq!(resource.colored_text, None);
    assert_eq!(resource.display_kind(), DisplayKind::PlainText);
}

#[test]
fn binary_under_a_url_without_extension_stays_binary() {
    let resource = Resource::from_response(response("localhost", None, &[0xff]));
    assert_eq!(resource.text, None);
    assert_eq!(resource.colored_text, None);
    assert_eq!(resource.display_kind(), DisplayKind::Binary);
}

#[test]
fn display_falls_back_in_order() {
    let make = |text: Option<&str>, image: bool, colored: bool| Resource {
        response: response("https://example.com/x", None, b""),
        text: text.map(|text| text.to_owned()),
        image: if image { Some(ImageSource { uri: "u".to_owned() }) } else { None },
        colored_text: if colored {
            Some(ColoredText { text: "t".to_owned(), language: "rs".to_owned() })
        } else {
            None
        },
    };
    assert_eq!(make(Some("t"), true, true).display_kind(), DisplayKind::Image);
    assert_eq!(make(None, true, false).display_kind(), DisplayKind::Image);
    assert_eq!(make(Some("t"), false, true).display_kind(), DisplayKind::ColoredText);
    assert_eq!(make(Some("t"), false, false).display_kind(), DisplayKind::PlainText);
    assert_eq!(make(None, false, false).display_kind(), DisplayKind::Binary);
}

#[test]
fn empty_error_is_shown_as_error() {
    assert_eq!(error_text(""), "Error");
    assert_eq!(error_text("connection refused"), "connection refused");
    assert_eq!(error_text(" "), " ");
}
