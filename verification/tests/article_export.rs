use wechat_article_exporter_desktop_lib::archive_store::ArchiveArticle;
use wechat_article_exporter_desktop_lib::article_export::{
    asset_reference_map, clean_article_html, export_file_stem, html_fragment_to_markdown,
    image_alt_from_source, normalize_markdown_whitespace, relative_path, safe_file_segment,
    strip_numbered_asset_prefix, ArticleArchivePreviewService, ArticleExportError,
    ArticleExportFormat, ArticleExportRequest, ArticleExportService,
};

fn chars(s: &str) -> Vec<char> {
    s.chars().collect()
}

fn text(v: &[char]) -> String {
    v.iter().collect()
}

fn representative_article_html() -> &'static str {
    r#"<!doctype html>
<html>
  <head><title>runtime noise</title></head>
  <body class="rich_media_empty_extra">
    <div id="outside">runtime noise</div>
    <article id="js_article">
      <h1 id="activity-name">A/B: Clean * Export?</h1>
      <div id="js_top_ad_area">runtime noise</div>
      <div id="js_content" style="visibility:hidden">
        <p>Useful paragraph with <strong>bold text</strong>.</p>
        <img data-src="https://mmbiz.qpic.cn/mmbiz_png/cover.png" />
        <script>runtime noise</script>
      </div>
      <div id="content_bottom_area">runtime noise</div>
    </article>
    <script>runtime noise</script>
  </body>
</html>"#
}

fn danger_article() -> ArchiveArticle {
    ArchiveArticle {
        article_id: "aid-danger".to_string(),
        target_account_id: "fakeid-1".to_string(),
        title: "A/B: Clean * Export?".to_string(),
        source_url: "https://mp.weixin.qq.com/s/aid-danger".to_string(),
        html_file: Some("articles/fakeid-1/aid-danger.html".to_string()),
        markdown_file: None,
        reading_enrichment: None,
        reading_comments: Vec::new(),
    }
}

#[test]
fn exports_downloaded_article_as_clean_markdown_and_html_with_local_assets() {
    let article = danger_article();
    let service = ArticleExportService::new();
    let request = ArticleExportRequest {
        article_id: "aid-danger".to_string(),
        formats: vec![ArticleExportFormat::Markdown, ArticleExportFormat::Html],
    };
    service.check_request(&request).expect("export downloaded article");
    assert_eq!(
        service.source_html_file(&article).expect("html file"),
        "articles/fakeid-1/aid-danger.html"
    );
    let asset_map = asset_reference_map(&article, "exports", &vec!["000-cover.png".to_string()]);
    let files = service.export_files(
        &article,
        representative_article_html(),
        &asset_map,
        &request.formats,
    );

    let (markdown_file, markdown) = files.markdown.as_ref().expect("markdown export");
    let (export_html_file, html) = files.html.as_ref().expect("html export");
    assert!(markdown_file.ends_with("A_B_Clean_Export-aid-danger.md"));
    assert!(export_html_file.ends_with("A_B_Clean_Export-aid-danger.html"));
    assert!(!markdown_file.starts_with('/'));
    assert!(!export_html_file.starts_with('/'));

    assert!(markdown.contains("# A/B: Clean * Export?"));
    assert!(markdown.contains("Useful paragraph with bold text."));
    assert!(markdown.contains("![Cover](../assets/fakeid-1/aid-danger/000-cover.png)"));
    assert!(!markdown.contains("runtime noise"));
    assert!(!markdown.contains("js_top_ad_area"));
    assert!(!markdown.contains("<script"));

    assert!(html.contains("<article id=\"js_article\""));
    assert!(html.contains("src=\"../assets/fakeid-1/aid-danger/000-cover.png\""));
    assert!(!html.contains("runtime noise"));
    assert!(!html.contains("js_top_ad_area"));
    assert!(!html.contains("<script"));
}

#[test]
fn export_fails_with_persistent_task_state_when_downloaded_html_is_missing() {
    let mut article = danger_article();
    article.html_file = None;
    let error = ArticleExportService::new()
        .source_html_file(&article)
        .expect_err("missing downloaded html should fail");
    assert!(error.message().contains("downloaded article HTML is missing"));
    let error = ArticleExportService::new()
        .check_request(&ArticleExportRequest { article_id: "aid".to_string(), formats: vec![] })
        .expect_err("empty formats");
    assert_eq!(error, ArticleExportError::EmptyFormatList);
}

#[test]
fn only_requested_formats_are_exported() {
    let article = danger_article();
    let asset_map = asset_reference_map(&article, "exports", &Vec::new());
    let files = ArticleExportService::new().export_files(
        &article,
        representative_article_html(),
        &asset_map,
        &vec![ArticleExportFormat::Markdown],
    );
    assert!(files.markdown.is_some());
    assert!(files.html.is_none());
}

#[test]
fn export_paths_stay_inside_the_export_directory() {
    let article = ArchiveArticle {
        article_id: "/../".to_string(),
        target_account_id: "fakeid-1".to_string(),
        title: "../..".to_string(),
        source_url: "https://mp.weixin.qq.com/s/x".to_string(),
        html_file: Some("articles/fakeid-1/x.html".to_string()),
        markdown_file: None,
        reading_enrichment: None,
        reading_comments: Vec::new(),
    };
    let asset_map = asset_reference_map(&article, "exports", &Vec::new());
    let files = ArticleExportService::new().export_files(
        &article,
        representative_article_html(),
        &asset_map,
        &vec![ArticleExportFormat::Markdown, ArticleExportFormat::Html],
    );
    assert_eq!(files.markdown.expect("markdown").0, "exports/article-item.md");
    assert_eq!(files.html.expect("html").0, "exports/article-item.html");
}

#[test]
fn previews_downloaded_article_with_clean_local_html() {
    let article = ArchiveArticle {
        article_id: "aid-1".to_string(),
        target_account_id: "fakeid-1".to_string(),
        title: "Preview title".to_string(),
        source_url: "https://mp.weixin.qq.com/s/aid-1".to_string(),
        html_file: Some("articles/fakeid-1/aid-1.html".to_string()),
        markdown_file: None,
        reading_enrichment: None,
        reading_comments: Vec::new(),
    };
    let raw = r#"<!doctype html>
<html>
  <body>
    <div id="outside">runtime noise</div>
    <article id="js_article">
      <h1>Preview title</h1>
      <div id="js_top_ad_area">ad noise</div>
      <div id="js_content" style="visibility:hidden"><p>Readable body</p></div>
      <script>runtime noise</script>
    </article>
  </body>
</html>"#;
    let asset_map = asset_reference_map(&article, "articles/fakeid-1", &Vec::new());
    let preview = ArticleArchivePreviewService::new().preview(
        &article,
        "articles/fakeid-1/aid-1.html",
        raw,
        &asset_map,
    );

    assert_eq!(preview.article_id, "aid-1");
    assert_eq!(preview.title, "Preview title");
    assert_eq!(preview.source_html_file, "articles/fakeid-1/aid-1.html");
    assert!(preview.html.contains("<article id=\"js_article\""));
    assert!(preview.html.contains("Readable body"));
    assert!(!preview.html.contains("runtime noise"));
    assert!(!preview.html.contains("js_top_ad_area"));
    assert!(!preview.html.contains("style=\"visibility:hidden\""));
}

#[test]
fn markdown_conversion_of_fragments() {
    let md = text(&html_fragment_to_markdown(&chars(
        "<h2>Title</h2><p>One &amp; two</p><ul><li>a</li><li>b</li></ul>",
    )));
    assert_eq!(md, "Title\nOne & two\n\na\n\nb");
    assert_eq!(
        text(&normalize_markdown_whitespace(&chars("a  \n\n\n\nb\n"))),
        "a\n\nb"
    );
}

#[test]
fn file_names_and_references() {
    assert_eq!(
        text(&export_file_stem(&chars("A/B: Clean * Export?"), &chars("aid-danger"))),
        "A_B_Clean_Export-aid-danger"
    );
    assert_eq!(text(&safe_file_segment(&chars("  "))), "item");
    assert_eq!(
        strip_numbered_asset_prefix(&chars("000-cover.png")).map(|v| text(&v)),
        Some("cover.png".to_string())
    );
    assert_eq!(strip_numbered_asset_prefix(&chars("cover.png")), None);
    assert_eq!(
        text(&relative_path(&chars("exports"), &chars("assets/a/b/000-c.png"))),
        "../assets/a/b/000-c.png"
    );
    assert_eq!(
        text(&image_alt_from_source(&chars("https://x.test/img/cover.png"))),
        "Cover"
    );
}

#[test]
fn cleaning_keeps_the_article_and_drops_noise() {
    let article = danger_article();
    let asset_map = asset_reference_map(&article, "exports", &Vec::new());
    let cleaned = text(&clean_article_html(&chars(representative_article_html()), &asset_map));
    assert!(cleaned.starts_with("<article id=\"js_article\""));
    assert!(!cleaned.contains("content_bottom_area"));
    assert!(!cleaned.contains("visibility:hidden"));
}
