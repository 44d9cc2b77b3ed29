use big_slides::config::Config;
use big_slides::html::{
    extract_slide_content, extract_slides, generate_html, generate_html_without_reload,
    parse_frontmatter, process_content_for_slides,
};
use big_slides::resources::{ContentRead, LoadedResource, ResourceFile};

fn source(markdown: &str) -> ContentRead {
    ContentRead::Text(markdown.to_string())
}

fn local(path: &str, content: &str) -> LoadedResource {
    LoadedResource {
        file: ResourceFile::new(path, None),
        read: ContentRead::Text(content.to_string()),
    }
}

fn linked(path: &str) -> LoadedResource {
    LoadedResource { file: ResourceFile::new(path, None), read: ContentRead::Missing }
}

#[test]
fn test_generate_html_basic() {
    let markdown_content = "# Test Slide\n\nThis is a test slide.";

    let result =
        generate_html_without_reload("slides.md", &source(markdown_content), &vec![], &vec![], true);

    assert!(result.is_ok());
    let html = result.unwrap();

    assert!(html.contains("<div>Test Slide") && html.contains("This is a test slide."));
    assert!(html.contains("<!DOCTYPE html>"));
    assert!(html.contains("<html lang=\"en\">"));
    assert!(html.contains("<body>\n<div>"));
}

#[test]
fn test_generate_html_with_local_css() {
    let markdown_content = "# Test Slide\n\nThis is a test slide.";
    let css_content = "body { font-family: Arial; }";
    let css_resource = local("style.css", css_content);

    let result = generate_html_without_reload(
        "slides.md",
        &source(markdown_content),
        &vec![css_resource],
        &vec![],
        true,
    );

    assert!(result.is_ok());
    let html = result.unwrap();
    assert!(html.contains("<style>body { font-family: Arial; }</style>"));
}

#[test]
fn test_generate_html_with_local_js() {
    let markdown_content = "# Test Slide\n\nThis is a test slide.";
    let js_content = "function testFunction() { return true; }";
    let js_resource = local("script.js", js_content);

    let result = generate_html_without_reload(
        "slides.md",
        &source(markdown_content),
        &vec![],
        &vec![js_resource],
        true,
    );

    assert!(result.is_ok());
    let html = result.unwrap();
    assert!(html.contains("<script>function testFunction() { return true; }</script>"));
}

#[test]
fn test_default_css_js_config_values() {
    let config = Config::default();

    assert_eq!(
        config.default_css, "https://raw.githubusercontent.com/harperreed/big/gh-pages/big.css",
        "Default CSS URL should match expected value"
    );
    assert_eq!(
        config.default_js, "https://raw.githubusercontent.com/harperreed/big/gh-pages/big.js",
        "Default JS URL should match expected value"
    );

    let markdown_content = "# Test Slide\n\nThis is a test slide.";
    let css_resource = linked(&config.default_css);
    let js_resource = linked(&config.default_js);

    let result = generate_html_without_reload(
        "slides.md",
        &source(markdown_content),
        &vec![css_resource],
        &vec![js_resource],
        false,
    );

    assert!(result.is_ok());
    let html = result.unwrap();

    let expected_css_link = format!(r#"<link rel="stylesheet" href="{}">"#, config.default_css);
    assert!(
        html.contains(&expected_css_link),
        "HTML should contain default CSS link: {}",
        expected_css_link
    );

    let expected_js_link = format!(r#"<script src="{}">"#, config.default_js);
    assert!(html.contains(&expected_js_link), "HTML should contain default JS script tag");
}

#[test]
fn test_header_format_with_space() {
    let markdown_content = "# Test Slide\n\nThis is a test slide.";

    let result =
        generate_html_without_reload("slides.md", &source(markdown_content), &vec![], &vec![], true);

    assert!(result.is_ok());
    let html = result.unwrap();
    assert!(
        html.contains("<div>Test Slide") && html.contains("This is a test slide."),
        "HTML should contain slide content without the h1 tags"
    );
}

#[test]
fn test_header_format_without_space() {
    let markdown_content = "#Test Slide\n\nThis is a test slide.";

    let result =
        generate_html_without_reload("slides.md", &source(markdown_content), &vec![], &vec![], true);

    assert!(result.is_ok());
    let html = result.unwrap();
    assert!(
        html.contains("<div>Test Slide") && html.contains("This is a test slide."),
        "HTML should contain slide content without the # character"
    );
    assert!(
        !html.contains("<div>#Test Slide"),
        "HTML should not contain the # character in the output"
    );
}

#[test]
fn test_header_format_complex_case() {
    let markdown_content = "# First Slide\n\nStandard slide with space after #.\n\n\
                           #Second Slide\n\nSlide with no space after #.\n\n\
                           #Special Characters: !@#$%^&*()_+\n\nSlide with special characters.\n\n\
                           #   Extra Spaces\n\nSlide with multiple spaces after #.";

    let result =
        generate_html_without_reload("slides.md", &source(markdown_content), &vec![], &vec![], true);

    assert!(result.is_ok());
    let html = result.unwrap();

    assert!(html.contains("<div>First Slide"), "First slide should be included with proper format");
    assert!(
        html.contains("<div>Second Slide"),
        "Second slide should be included with proper format"
    );
    assert!(
        html.contains("<div>Special Characters: !@#$%^&amp;*()_+"),
        "Slide with special characters should be included properly"
    );
    assert!(
        html.contains("<div>Extra Spaces"),
        "Slide with extra spaces should be included properly"
    );
    assert!(
        !html.contains("<div>#"),
        "HTML should not contain the # character in any slide title"
    );
}

#[test]
fn test_header_format_multiple_slides() {
    let markdown_content =
        "# Slide One\n\nContent for slide one.\n\n#Slide Two\n\nContent for slide two.";

    let result =
        generate_html_without_reload("slides.md", &source(markdown_content), &vec![], &vec![], true);

    assert!(result.is_ok());
    let html = result.unwrap();

    assert!(
        html.contains("<div>Slide One") && html.contains("Content for slide one."),
        "HTML should contain first slide content correctly"
    );
    assert!(
        html.contains("<div>Slide Two") && html.contains("Content for slide two."),
        "HTML should contain second slide content correctly without # character"
    );
    assert!(
        !html.contains("<div>#Slide"),
        "HTML should not contain the # character in any slide"
    );
}

#[test]
fn test_slide_with_html_content() {
    let markdown_content = "# Slide With HTML\n\n<div class=\"special\">This is <em>formatted</em> content</div>\n\n<ul>\n<li>Item 1</li>\n<li>Item 2</li>\n</ul>";

    let result =
        generate_html_without_reload("slides.md", &source(markdown_content), &vec![], &vec![], true);

    assert!(result.is_ok());
    let html = result.unwrap();

    assert!(
        html.contains(
            "<div>Slide With HTML\n<div class=\"special\">This is <em>formatted</em> content</div>"
        ),
        "HTML should preserve div and em tags"
    );
    assert!(
        html.contains("<ul>\n<li>Item 1</li>\n<li>Item 2</li>\n</ul>"),
        "HTML should preserve ul and li tags"
    );
}

#[test]
fn whole_document_for_one_slide() {
    let html = generate_html(
        "slides.md",
        &source("# Hello\n\nWorld"),
        &vec![linked("https://example.com/a.css")],
        &vec![],
        false,
        Some("<script>r()</script>".to_string()),
    )
    .unwrap();
    assert_eq!(
        html,
        "<!DOCTYPE html>\n<html lang=\"en\">\n<head>\n<meta charset=\"UTF-8\">\n\
<meta name=\"viewport\" content=\"width=device-width, initial-scale=1.0, maximum-scale=1.0, user-scalable=0\">\n\
<title>Presentation</title>\n\
<link rel=\"stylesheet\" href=\"https://example.com/a.css\">\n\
</head>\n<body>\n<div>Hello\n<p>World</p></div>\n<script>r()</script>\n</body>\n</html>"
    );
}

#[test]
fn markdown_emphasis_is_rendered() {
    let html =
        generate_html_without_reload("s.md", &source("# T\n\nsome *text*"), &vec![], &vec![], true)
            .unwrap();
    assert!(html.contains("<em>text</em>"));
    assert!(!html.contains("*text*"));
}

#[test]
fn missing_source_is_path_not_found() {
    let r = generate_html_without_reload("gone.md", &ContentRead::Missing, &vec![], &vec![], true);
    assert_eq!(r, Err(big_slides::errors::BigError::PathNotFoundError("gone.md".to_string())));
}

#[test]
fn unreadable_source_is_file_read_error() {
    let r = generate_html_without_reload(
        "locked.md",
        &ContentRead::ReadFailed("permission denied".to_string()),
        &vec![],
        &vec![],
        true,
    );
    assert_eq!(
        r,
        Err(big_slides::errors::BigError::FileReadError("permission denied".to_string()))
    );
}

#[test]
fn resource_that_cannot_be_embedded_is_left_out() {
    let broken = LoadedResource {
        file: ResourceFile::new("gone.css", None),
        read: ContentRead::Missing,
    };
    let html = generate_html_without_reload(
        "s.md",
        &source("# T"),
        &vec![broken, local("ok.css", "p{}")],
        &vec![],
        true,
    )
    .unwrap();
    assert!(html.contains("</title>\n<style>p{}</style>\n</head>"));
}

#[test]
fn frontmatter_with_three_fields() {
    let (title, author, date, body) =
        parse_frontmatter("% My Talk\n% Me\n% Today\n\n\n# One\ntext");
    assert_eq!(title, "My Talk");
    assert_eq!(author, "Me");
    assert_eq!(date, "Today");
    assert_eq!(body, "# One\ntext");
}

#[test]
fn frontmatter_title_only_keeps_whole_body() {
    let content = "% Only Title\nline two\nline three";
    let (title, author, date, body) = parse_frontmatter(content);
    assert_eq!(title, "Only Title");
    assert_eq!(author, "");
    assert_eq!(date, "");
    assert_eq!(body, content);
}

#[test]
fn frontmatter_absent() {
    let (title, author, date, body) = parse_frontmatter("# Slide\n\ntext");
    assert_eq!(title, "Presentation");
    assert_eq!(author, "");
    assert_eq!(date, "");
    assert_eq!(body, "# Slide\n\ntext");
}

#[test]
fn frontmatter_needs_three_lines() {
    let (title, _, _, body) = parse_frontmatter("% T\n% A");
    assert_eq!(title, "Presentation");
    assert_eq!(body, "% T\n% A");
}

#[test]
fn frontmatter_repeated_marks_are_stripped() {
    let (title, author, _, _) = parse_frontmatter("% % Twice \n% A\nx\ny");
    assert_eq!(title, "Twice");
    assert_eq!(author, "A");
}

#[test]
fn slide_breaks_between_headers() {
    assert_eq!(
        process_content_for_slides("# One\ntext\n#Two\nmore".to_string()),
        "# One\ntext\n\n\n---\n\n# Two\nmore\n"
    );
}

#[test]
fn second_level_heading_opens_no_slide() {
    assert_eq!(process_content_for_slides("# A\n## B\n".to_string()), "# A\n## B\n");
}

#[test]
fn escaped_hash_opens_no_slide() {
    assert_eq!(process_content_for_slides("# A\n\\# not a slide".to_string()), "# A\n# not a slide\n");
}

#[test]
fn lone_hash_is_a_header() {
    assert_eq!(process_content_for_slides("#\n#".to_string()), "#\n\n\n---\n\n#\n");
}

#[test]
fn hash_then_tab_opens_no_slide() {
    assert_eq!(process_content_for_slides("# A\n#\tB".to_string()), "# A\n#\tB\n");
}

#[test]
fn crlf_lines_lose_their_carriage_return() {
    assert_eq!(process_content_for_slides("# A\r\ntext\r\n".to_string()), "# A\ntext\n");
}

#[test]
fn indented_header_without_space_is_rewritten_from_the_margin() {
    assert_eq!(process_content_for_slides("  #Title  ".to_string()), "# Title\n");
}

#[test]
fn slides_are_cut_at_rules_and_trimmed() {
    assert_eq!(
        extract_slides("<h1>A</h1>\n<hr />\n<h1>B</h1>\n"),
        vec!["<h1>A</h1>".to_string(), "<h1>B</h1>".to_string()]
    );
    assert_eq!(extract_slides(""), vec!["".to_string()]);
    assert_eq!(extract_slides("<hr />"), vec!["".to_string(), "".to_string()]);
}

#[test]
fn slide_content_of_heading_and_body() {
    assert_eq!(extract_slide_content("<h1>Title</h1>\n<p>Body</p>"), "Title\n<p>Body</p>");
    assert_eq!(extract_slide_content("<h1>Title</h1>\n  "), "Title");
}

#[test]
fn slide_content_of_paragraph() {
    assert_eq!(extract_slide_content("<p>#Title</p>\n<p>Body</p>"), "Title\n<p>Body</p>");
    assert_eq!(extract_slide_content("<p>Plain</p>"), "Plain");
}

#[test]
fn slide_content_without_elements_or_closing_tag() {
    assert_eq!(extract_slide_content("just text"), "just text");
    assert_eq!(extract_slide_content("<h1>open only"), "<h1>open only");
    assert_eq!(extract_slide_content("<p>open only"), "<p>open only");
}

#[test]
fn slide_content_with_closing_tag_first_is_kept() {
    assert_eq!(extract_slide_content("</h1><h1>x"), "</h1><h1>x");
    assert_eq!(extract_slide_content("</p><p>x"), "</p><p>x");
}
