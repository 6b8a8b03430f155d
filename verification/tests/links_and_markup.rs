use instavox::links::{
    build_link_preview_data, choose_best_srcset_candidate, collect_source_descriptors,
    extract_best_link_image_from_html, extract_first_link_from_text,
    extract_img_candidates_from_html, extract_img_source_candidate,
    extract_meta_image_candidates_from_html, finish_link_image, has_any_marker,
    is_html_content_type, is_supported_post_link, link_url_has_image_extension,
    normalize_link_image_url, parse_dimension, pick_best_link_image, plan_link_image,
    score_image_candidate, source_descriptor, LinkImageCandidate, LinkImagePlan, SourceDescriptor,
    SourceWeight,
};
use instavox::markup::{
    decode_html_entities, escape_html_text, extract_attribute_value,
    extract_section_html_fragments, scan_tags, strip_html_tags,
};
use instavox::weburl::WebUrl;

fn url(text: &str) -> WebUrl {
    WebUrl::parse(text).ok().unwrap()
}

fn weights() -> Vec<SourceWeight> {
    [("", 10), ("100w", 20), ("800w", 30), ("2x", 40)]
        .iter()
        .map(|(d, w)| SourceWeight { descriptor: d.to_string(), weight: Some(*w) })
        .collect()
}

fn candidate(image_url: &str, score: i32) -> LinkImageCandidate {
    LinkImageCandidate { image_url: image_url.to_string(), score }
}

#[test]
fn links_of_posts() {
    assert!(is_supported_post_link(" "));
    assert!(is_supported_post_link(" https://ex.org/a "));
    assert!(!is_supported_post_link("ftp://ex.org"));
    assert!(!is_supported_post_link("mailto:a@b.c"));
    assert!(!is_supported_post_link("ex.org"));
    assert_eq!(
        extract_first_link_from_text("a (ftp://x) <http://ex.org/b>, https://c.org").as_deref(),
        Some("http://ex.org/b")
    );
    assert_eq!(extract_first_link_from_text("?! ..."), None);
}

#[test]
fn image_addresses() {
    assert!(link_url_has_image_extension(&url("https://ex.org/A.JPG?x=1")));
    assert!(!link_url_has_image_extension(&url("https://ex.org/a.svg")));
    let base = url("https://ex.org/dir/page");
    let n = |s: &str| normalize_link_image_url(&base, s);
    assert_eq!(n(" /a.png ").as_deref(), Some("https://ex.org/a.png"));
    assert_eq!(n("b.png").as_deref(), Some("https://ex.org/dir/b.png"));
    assert_eq!(n("//cdn.org/c.png").as_deref(), Some("https://cdn.org/c.png"));
    assert_eq!(n("http://o.org/?a=1&amp;b=2").as_deref(), Some("http://o.org/?a=1&b=2"));
    assert_eq!(n("DATA:image/png;base64,xx"), None);
    assert_eq!(n("javascript:alert(1)"), None);
    assert_eq!(n("ftp://ex.org/a.png"), None);
    assert_eq!(n("  "), None);
}

#[test]
fn sources_of_images() {
    match source_descriptor("640w") {
        SourceDescriptor::Width(t) => assert_eq!(t, "640"),
        _ => panic!(),
    }
    match source_descriptor("1.5x") {
        SourceDescriptor::Scale(t) => assert_eq!(t, "1.5"),
        _ => panic!(),
    }
    assert!(matches!(source_descriptor(""), SourceDescriptor::Plain));
    let t = weights();
    assert_eq!(
        choose_best_srcset_candidate("/a 100w, /b 800w,/c 100w,", &t).as_deref(),
        Some("/b")
    );
    assert_eq!(choose_best_srcset_candidate("/a, /b", &t).as_deref(), Some("/b"));
    assert_eq!(choose_best_srcset_candidate(" , ", &t), None);
    assert_eq!(
        extract_img_source_candidate("<img src='/s.png' data-src=\" /d.png \">", &t).as_deref(),
        Some("/d.png")
    );
    assert_eq!(
        extract_img_source_candidate("<img srcset=\"/a 100w, /b 2x\">", &t).as_deref(),
        Some("/b")
    );
    assert_eq!(extract_img_source_candidate("<img alt=x>", &t), None);
}

#[test]
fn scores_of_images() {
    assert!(has_any_marker("my-logo", &["icon", "logo"]));
    assert!(!has_any_marker("photo", &["icon", "logo"]));
    assert_eq!(parse_dimension("640px"), Some(640));
    assert_eq!(parse_dimension("0"), None);
    assert_eq!(parse_dimension("auto"), None);
    assert_eq!(parse_dimension("99999999999"), None);
    assert_eq!(score_image_candidate("<img>", "https://ex.org/a.jpg", 28), 38);
    assert_eq!(score_image_candidate("<img>", "https://ex.org/a.svg", 28), -27);
    assert_eq!(score_image_candidate("<img class=hero>", "https://ex.org/a", 28), 46);
    assert_eq!(score_image_candidate("<img>", "https://ex.org/logo.png", 28), -32);
    assert_eq!(score_image_candidate("<img width=800 height=600>", "https://ex.org/a", 28), 40);
    assert_eq!(score_image_candidate("<img width=50 height=600>", "https://ex.org/a", 28), -7);
    assert_eq!(score_image_candidate("<img width=50>", "https://ex.org/a", 28), 3);
    assert_eq!(score_image_candidate("<img style='display:none'>", "https://ex.org/a", 28), 3);
}

#[test]
fn the_best_image_of_a_page() {
    let base = url("https://ex.org/x");
    let t = weights();
    let html = "<head><meta property=\"og:image\" content=\"/og.png\">\
                <META NAME='twitter:image' CONTENT='/tw.png'><meta name=author content=x></head>\
                <main><img src=/m.png></main><img src=/logo.png>";
    let metas = extract_meta_image_candidates_from_html(html, &base);
    let found: Vec<(&str, i32)> = metas.iter().map(|c| (c.image_url.as_str(), c.score)).collect();
    assert_eq!(found, vec![("https://ex.org/og.png", 82), ("https://ex.org/tw.png", 82)]);
    let images = extract_img_candidates_from_html(html, &base, 28, &t);
    assert_eq!(images.len(), 2);
    assert_eq!(
        extract_best_link_image_from_html(html, &base, &t).as_deref(),
        Some("https://ex.org/og.png")
    );
    assert_eq!(
        extract_best_link_image_from_html("<article><img src=/a.png></article>", &base, &t)
            .as_deref(),
        Some("https://ex.org/a.png")
    );
    assert_eq!(extract_best_link_image_from_html("<img src=/logo.png>", &base, &t), None);
    assert_eq!(
        pick_best_link_image(vec![candidate("b", 9), candidate("a", 9), candidate("", 99)])
            .as_deref(),
        Some("a")
    );
    assert_eq!(pick_best_link_image(vec![candidate("b", 7)]), None);
    assert_eq!(
        pick_best_link_image(vec![candidate("b", 7), candidate("a", 8), candidate("b", 12)])
            .as_deref(),
        Some("b")
    );
}

#[test]
fn descriptors_of_a_page_are_collected() {
    let html = "<img srcset='/a 100w, /b 2x'><article><img data-srcset='/c 3x'></article>";
    let d = collect_source_descriptors(html);
    for wanted in ["100w", "2x", "3x"] {
        assert!(d.iter().any(|x| x == wanted), "{}", wanted);
    }
}

#[test]
fn images_of_links() {
    assert!(matches!(plan_link_image("  "), LinkImagePlan::Nothing));
    assert!(matches!(plan_link_image("not a link"), LinkImagePlan::Nothing));
    assert!(matches!(plan_link_image("ftp://ex.org/a.png"), LinkImagePlan::Nothing));
    match plan_link_image(" https://ex.org/a.png ") {
        LinkImagePlan::Direct(u) => assert_eq!(u, "https://ex.org/a.png"),
        _ => panic!(),
    }
    match plan_link_image(" https://ex.org/a ") {
        LinkImagePlan::Fetch { address, base } => {
            assert_eq!(address, "https://ex.org/a");
            let html = "<main><img src='b.png'></main>";
            assert_eq!(finish_link_image(&base, Some(html), &weights()), "https://ex.org/b.png");
            assert_eq!(finish_link_image(&base, None, &weights()), "");
        }
        _ => panic!(),
    }
    assert!(is_html_content_type("Text/HTML; charset=utf-8"));
    assert!(is_html_content_type("application/xhtml+xml"));
    assert!(!is_html_content_type("image/png"));
}

#[test]
fn previews_of_links() {
    let p = build_link_preview_data(" https://ex.org/a/b/?q=1 ");
    assert_eq!((p.title.as_str(), p.description.as_str()), ("ex.org", "a/b?q=1"));
    assert_eq!(p.image_url, "");
    let p = build_link_preview_data("https://ex.org/?q=1");
    assert_eq!(p.description, "?q=1");
    let p = build_link_preview_data("https://ex.org");
    assert_eq!(p.description, "Open link");
    let p = build_link_preview_data("nonsense");
    assert_eq!((p.title.as_str(), p.description.as_str()), ("External link", "nonsense"));
    let p = build_link_preview_data("  ");
    assert_eq!((p.title.as_str(), p.description.as_str()), ("", ""));
    let p = build_link_preview_data(&format!("https://ex.org/{}", "x".repeat(121)));
    assert_eq!(p.description, format!("{}...", "x".repeat(117)));
    let p = build_link_preview_data(&format!("https://ex.org/{}", "x".repeat(120)));
    assert_eq!(p.description, "x".repeat(120));
    let p = build_link_preview_data("https://ex.org/ä.png");
    assert_eq!(p.description, "%C3%A4.png");
    assert_eq!(p.image_url, "https://ex.org/ä.png");
}

#[test]
fn entities_and_tags() {
    assert_eq!(decode_html_entities("&lt;a&gt; &quot;b&quot; &#39;c&#39; &amp;"), "<a> \"b\" 'c' &");
    assert_eq!(decode_html_entities("&amp;lt;"), "<");
    assert_eq!(escape_html_text("<a href=\"x\">'&'"), "&lt;a href=&quot;x&quot;&gt;&#39;&amp;&#39;");
    assert_eq!(strip_html_tags("<p>Hello <b>you</b></p>  there"), "Hello you there");
}

#[test]
fn attributes_and_sections() {
    let a = extract_attribute_value;
    assert_eq!(a("<img SRC=\"X y\">", "src").as_deref(), Some("X y"));
    assert_eq!(a("<img src='X'>", "src").as_deref(), Some("X"));
    assert_eq!(a("<img src=X alt=y>", "src").as_deref(), Some("X"));
    assert_eq!(a("<img src=>", "src"), None);
    assert_eq!(a("<img>", "src"), None);
    assert_eq!(scan_tags("<IMG a><p><img b", "<img"), vec!["<IMG a>"]);
    assert_eq!(
        extract_section_html_fragments("<MAIN x>One</main><main>Two</MAIN><main>", "main"),
        vec!["One", "Two"]
    );
}
