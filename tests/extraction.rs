use tweet_extract::chars::{has_text, is_whitespace, join_with_space, remove_all, trim};
use tweet_extract::colon::fix_colon_spacing;
use tweet_extract::media::{extract_media_links, is_profile_image};
use tweet_extract::pipeline::{
    assemble, extract, process_page, response_for, ExtractionConfig, ExtractionError,
    PROFILE_IMAGE_PREFIX,
};
use tweet_extract::text::{container_text, extract_text, join_text_nodes, TextContainer};

fn strings(v: &[&str]) -> Vec<String> {
    v.iter().map(|s| s.to_string()).collect()
}

fn nodes(v: &[&str]) -> TextContainer {
    TextContainer::new(strings(v), Vec::new())
}

#[test]
fn scenario_link_and_colon() {
    let c = nodes(&["Check this out", "https://t.co/abc", ": amazing"]);
    assert_eq!(container_text(&c), "Check this out t.co/abc: amazing");
}

#[test]
fn join_text_nodes_trims_joins_and_strips_schemes() {
    let r = join_text_nodes(strings(&["  Check this out ", "https://t.co/abc", "\n: amazing"]));
    assert_eq!(r, "Check this out t.co/abc : amazing");
    let r = join_text_nodes(strings(&["see http://a.com", "and https://b.com"]));
    assert_eq!(r, "see a.com and b.com");
}

#[test]
fn profile_image_excluded_media_included() {
    let sources = vec![
        Some("https://pbs.twimg.com/profile_images/123.jpg".to_string()),
        Some("https://pbs.twimg.com/media/xyz.jpg".to_string()),
    ];
    let links = extract_media_links(&sources, PROFILE_IMAGE_PREFIX);
    assert_eq!(links, vec!["https://pbs.twimg.com/media/xyz.jpg".to_string()]);
}

#[test]
fn media_links_keep_order_duplicates_and_skip_missing_sources() {
    let sources = vec![
        Some("b.jpg".to_string()),
        None,
        Some("https://pbs.twimg.com/profile_images/9.png".to_string()),
        Some("a.jpg".to_string()),
        Some("b.jpg".to_string()),
    ];
    let links = extract_media_links(&sources, PROFILE_IMAGE_PREFIX);
    assert_eq!(links, strings(&["b.jpg", "a.jpg", "b.jpg"]));
}

#[test]
fn profile_prefix_check() {
    assert!(is_profile_image("https://pbs.twimg.com/profile_images/1.jpg", PROFILE_IMAGE_PREFIX));
    assert!(!is_profile_image("https://pbs.twimg.com/media/1.jpg", PROFILE_IMAGE_PREFIX));
    assert!(!is_profile_image("https://pbs", PROFILE_IMAGE_PREFIX));
}

#[test]
fn no_containers_gives_empty_text() {
    let cfg = ExtractionConfig::platform_default();
    let r = extract("<html><body><p>nothing here</p></body></html>", &cfg);
    assert_eq!(r.text, "");
    assert!(r.texts.is_empty());
    assert!(r.media_links.is_empty());
    assert_eq!(r.combined(), "\n");
}

#[test]
fn timeout_fails_without_result() {
    let cfg = ExtractionConfig::platform_default();
    let r = process_page(Err(ExtractionError::Timeout("element not found".to_string())), &cfg);
    match r {
        Err(e) => {
            assert!(e.is_timeout());
            assert_eq!(e.description(), "element not found");
        }
        Ok(_) => panic!("a timeout gave a result"),
    }
}

#[test]
fn navigation_failure_is_not_a_timeout() {
    let cfg = ExtractionConfig::platform_default();
    let r = process_page(Err(ExtractionError::Navigation("dns".to_string())), &cfg);
    match r {
        Err(e) => assert!(!e.is_timeout()),
        Ok(_) => panic!("a navigation failure gave a result"),
    }
}

#[test]
fn extracted_text_has_no_edge_whitespace() {
    let c = nodes(&["  hello  ", " world \n"]);
    assert_eq!(container_text(&c), "hello world");
}

#[test]
fn extracted_text_has_no_scheme() {
    let c = nodes(&["visit http://a.com and https://b.com/x"]);
    let t = container_text(&c);
    assert_eq!(t, "visit a.com and b.com/x");
    assert!(!t.contains("http://") && !t.contains("https://"));
}

#[test]
fn colons_attached_and_followed_by_one_space() {
    assert_eq!(fix_colon_spacing("a : b"), "a: b");
    assert_eq!(fix_colon_spacing("a:b"), "a: b");
    assert_eq!(fix_colon_spacing("a \n\t:\n\n  b"), "a: b");
    assert_eq!(fix_colon_spacing("time 10 :30"), "time 10: 30");
    assert_eq!(fix_colon_spacing("no colon here"), "no colon here");
    assert_eq!(fix_colon_spacing("end:"), "end: ");
    assert_eq!(fix_colon_spacing("a\u{3000}:\u{a0}b"), "a: b");
}

#[test]
fn colon_spacing_is_idempotent() {
    for s in ["a : b", "x::y", " : lead", "tail :  ", "a: b: c", "plain"] {
        let once = fix_colon_spacing(s);
        assert_eq!(fix_colon_spacing(&once), once);
    }
}

#[test]
fn fallback_to_all_text_when_no_text_nodes() {
    let c = TextContainer::new(Vec::new(), strings(&["  Hello", "world :", "https://x.y  "]));
    assert_eq!(container_text(&c), "Hello world: x.y");
}

#[test]
fn blank_containers_are_discarded() {
    let cs = vec![
        nodes(&["first"]),
        nodes(&["  ", "\n"]),
        TextContainer::new(Vec::new(), Vec::new()),
        nodes(&["second"]),
    ];
    assert_eq!(extract_text(&cs), strings(&["first", "second"]));
}

#[test]
fn assemble_joins_texts_and_filters_media() {
    let cfg = ExtractionConfig::platform_default();
    let cs = vec![nodes(&["one :two"]), nodes(&["three"])];
    let sources = vec![Some("m.jpg".to_string()), Some("n.jpg".to_string())];
    let r = assemble(&cs, &sources, &cfg);
    assert_eq!(r.texts, strings(&["one: two", "three"]));
    assert_eq!(r.text, "one: two three");
    assert_eq!(r.combined(), "one: two three\nm.jpg n.jpg");
    assert_eq!(
        r.console_report(),
        "\nTweet Text:\none: two\nthree\n\nMedia Links:\nm.jpg\nn.jpg\n\nResult:\none: two three\nm.jpg n.jpg\n"
    );
}

#[test]
fn extract_from_rendered_page() {
    let cfg = ExtractionConfig::platform_default();
    let html = r#"<html><body>
        <div data-testid="tweetText">Check this out <a href="x">https://t.co/abc</a>: amazing</div>
        <div data-testid="tweetText"><span>Nested</span> <span>text :here</span></div>
        <img class="css-9pa8cd" src="https://pbs.twimg.com/profile_images/123.jpg">
        <img class="css-9pa8cd" src="https://pbs.twimg.com/media/xyz.jpg">
        <img class="css-9pa8cd">
        <img class="other" src="https://example.com/ignored.jpg">
        </body></html>"#;
    let r = extract(html, &cfg);
    // The second container's only direct text node is the blank between its
    // spans, so it gives no text.
    assert_eq!(r.texts, strings(&["Check this out: amazing"]));
    assert_eq!(r.text, "Check this out: amazing");
    assert_eq!(r.media_links, vec!["https://pbs.twimg.com/media/xyz.jpg".to_string()]);
}

#[test]
fn container_without_text_nodes_uses_all_text() {
    let cfg = ExtractionConfig::platform_default();
    let html = r#"<div data-testid="tweetText"><span>Only</span><span> nested :text</span></div>"#;
    let r = extract(html, &cfg);
    assert_eq!(r.text, "Only  nested: text");
}

#[test]
fn malformed_selector_selects_nothing() {
    let cfg = ExtractionConfig::new("div[".to_string(), "img[".to_string(), "p".to_string());
    let r = extract("<div>text</div><img src='a.jpg'>", &cfg);
    assert_eq!(r.text, "");
    assert!(r.media_links.is_empty());
}

#[test]
fn service_responses() {
    let cfg = ExtractionConfig::platform_default();
    let ok = process_page(Ok("<div data-testid=\"tweetText\">hi</div>".to_string()), &cfg);
    let resp = response_for(&ok);
    assert_eq!(resp.status, 200);
    assert_eq!(resp.body, "hi\n");
    let err = process_page(Err(ExtractionError::Navigation("net down".to_string())), &cfg);
    let resp = response_for(&err);
    assert_eq!(resp.status, 500);
    assert_eq!(resp.body, "Processing error: net down");
}

#[test]
fn character_helpers() {
    assert!(is_whitespace(' '));
    assert!(is_whitespace('\u{3000}'));
    assert!(is_whitespace('\u{85}'));
    assert!(!is_whitespace('a'));
    assert!(!is_whitespace('\u{200B}'));
    assert_eq!(trim("\t  a b \u{a0}"), "a b");
    assert_eq!(trim("   "), "");
    assert_eq!(remove_all("hthttps://tps://x", "https://"), "https://x");
    assert_eq!(remove_all("aaa", "aa"), "a");
    assert_eq!(join_with_space(&strings(&["a", "", "b"])), "a  b");
    assert_eq!(join_with_space(&Vec::new()), "");
    assert!(has_text(" x "));
    assert!(!has_text(" \n\t"));
}

#[test]
fn blank_nodes_and_trailing_colons_leave_no_edge_whitespace() {
    assert_eq!(container_text(&nodes(&["", "x"])), "x");
    assert_eq!(container_text(&nodes(&["\n", "Hello"])), "Hello");
    assert_eq!(container_text(&nodes(&["note:"])), "note:");
    // A blank node stays as an empty piece of the join.
    assert_eq!(join_text_nodes(strings(&["a", "  ", "b"])), "a  b");
    assert_eq!(join_text_nodes(strings(&["", "x"])), " x");
    // Two colons with only whitespace between them.
    assert_eq!(fix_colon_spacing("x : :y"), "x: : y");
}

#[test]
fn scheme_formed_by_a_removal_is_removed_too() {
    assert_eq!(join_text_nodes(strings(&["hhttps://ttps://x"])), "x");
    assert_eq!(join_text_nodes(strings(&["hthttps://tps://x"])), "x");
    assert_eq!(join_text_nodes(strings(&["htthttp://p://y"])), "y");
    let t = container_text(&nodes(&["hthttps://tps://x"]));
    assert_eq!(t, "x");
}

#[test]
fn joined_text_is_repunctuated() {
    let cfg = ExtractionConfig::platform_default();
    let r = assemble(&vec![nodes(&["x"]), nodes(&[": y"])], &Vec::new(), &cfg);
    assert_eq!(r.texts, strings(&["x", ": y"]));
    assert_eq!(r.text, "x: y");
    let r = assemble(&vec![nodes(&["a:"]), nodes(&["b"])], &Vec::new(), &cfg);
    assert_eq!(r.text, "a: b");
    let r = assemble(&vec![nodes(&["end :"])], &Vec::new(), &cfg);
    assert_eq!(r.text, "end:");
}

#[test]
fn page_with_link_between_line_breaks() {
    let cfg = ExtractionConfig::platform_default();
    let html = r#"<div data-testid="tweetText">Check this out<br>https://t.co/abc<br>: amazing</div>"#;
    let r = process_page(Ok(html.to_string()), &cfg);
    let resp = response_for(&r);
    assert_eq!(resp.status, 200);
    assert_eq!(resp.body, "Check this out t.co/abc: amazing\n");
}

#[test]
fn page_with_avatar_and_media_image() {
    let cfg = ExtractionConfig::platform_default();
    let html = r#"<div data-testid="tweetText">hi</div><img class="css-9pa8cd" src="https://pbs.twimg.com/profile_images/123.jpg"><img class="css-9pa8cd" src="https://pbs.twimg.com/media/xyz.jpg">"#;
    let r = process_page(Ok(html.to_string()), &cfg);
    let resp = response_for(&r);
    assert_eq!(resp.status, 200);
    assert_eq!(resp.body, "hi\nhttps://pbs.twimg.com/media/xyz.jpg");
}
