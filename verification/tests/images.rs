use jira_summary::images::{
    decode_image_path, html_image_sources, image_request, image_sources, HtmlNode,
    ImageDownloadError,
};

fn element(name: &str, src: Option<Option<&str>>, children: Vec<HtmlNode>) -> HtmlNode {
    HtmlNode::Element {
        name: name.to_string(),
        src: src.map(|o| o.map(|s| s.to_string())),
        children,
    }
}

#[test]
fn image_sources_in_document_order() {
    let tree = vec![
        element(
            "p",
            None,
            vec![
                HtmlNode::Text("hello".to_string()),
                element("img", Some(Some("/a.png")), vec![]),
                element("span", None, vec![element("img", Some(Some("/b.png")), vec![])]),
            ],
        ),
        element("img", Some(None), vec![]),
        element("img", None, vec![]),
        element("div", Some(Some("/not-an-image")), vec![]),
        HtmlNode::Comment("c".to_string()),
        element("img", Some(Some("http://elsewhere/c.png")), vec![]),
    ];
    assert_eq!(image_sources(&tree), vec!["/a.png", "/b.png", "http://elsewhere/c.png"]);
}

#[test]
fn nested_image_comes_after_its_parent_image() {
    let tree = vec![element("img", Some(Some("/outer")), vec![element("img", Some(Some("/inner")), vec![])])];
    assert_eq!(image_sources(&tree), vec!["/outer", "/inner"]);
}

#[test]
fn image_sources_of_parsed_html() {
    let html = "<p>See <img src=\"/secure/a.png\" alt=\"x\"> and <b><img src=\"/b%20c.png\"></b></p><img src=\"https://ext/e.png\">";
    let srcs = html_image_sources(html).unwrap();
    assert_eq!(srcs, vec!["/secure/a.png", "/b%20c.png", "https://ext/e.png"]);
}

#[test]
fn html_without_images_has_no_sources() {
    assert!(html_image_sources("<p>plain text</p>").unwrap().is_empty());
}

#[test]
fn only_server_paths_are_fetched() {
    assert!(image_request("https://j", "http://x/y.png").is_none());
    assert!(image_request("https://j", "").is_none());
    let q = image_request("https://j", "/secure/a%20b.png").unwrap();
    assert_eq!(q.url, "https://j/secure/a%20b.png");
    assert_eq!(q.path, "secure/a%20b.png");
}

#[test]
fn image_paths_are_percent_decoded() {
    assert_eq!(decode_image_path("secure/a%20b.png").unwrap(), "secure/a b.png");
    assert_eq!(decode_image_path("plain/path.png").unwrap(), "plain/path.png");
    assert_eq!(decode_image_path("a+b%2Fc%2").unwrap(), "a+b/c%2");
    assert_eq!(decode_image_path("%zz%4").unwrap(), "%zz%4");
    assert_eq!(decode_image_path("caf%C3%A9").unwrap(), "caf\u{e9}");
    assert!(matches!(decode_image_path("bad%FF"), Err(ImageDownloadError::DecodePath(_))));
}

#[test]
fn image_error_messages() {
    let io = || std::io::Error::new(std::io::ErrorKind::Other, "x");
    assert_eq!(ImageDownloadError::CreateDir(io()).message(), "failed to create output directory");
    assert_eq!(ImageDownloadError::WriteFail(io()).message(), "failed to write output image");
    assert_eq!(ImageDownloadError::ReadImg(io()).message(), "failed to read image");
    assert_eq!(ImageDownloadError::OpenOutput(io()).message(), "failed to open output file");
    let utf8 = String::from_utf8(vec![0xff]).unwrap_err();
    assert_eq!(ImageDownloadError::DecodePath(utf8).message(), "failed to decode url");
}
