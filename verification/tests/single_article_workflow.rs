use wechat_article_exporter_desktop_lib::archive_store::ArchiveArticle;
use wechat_article_exporter_desktop_lib::single_article_workflow::{
    article_id_from_url, article_identity, normalize_wechat_article_url, safe_article_id_segment,
    single_article_input, SingleArticleArchive, SingleArticleWorkflowError,
    SINGLE_ARTICLE_TARGET_ACCOUNT_ID,
};

#[test]
fn saves_valid_wechat_article_url_as_persistent_single_article_archive() {
    let url = normalize_wechat_article_url(" mp.weixin.qq.com/s/example-slug#wechat_redirect ")
        .expect("save single article");
    let article_id = article_id_from_url(&url).expect("article id");
    let input = single_article_input(
        &article_id,
        &url,
        &Some("Reference Article".to_string()),
        &None,
    );

    assert_eq!(input.article_id, "single-s-example-slug");
    assert_eq!(input.target_account_id, SINGLE_ARTICLE_TARGET_ACCOUNT_ID);
    assert_eq!(input.title, "Reference Article");
    assert_eq!(input.source_url, "https://mp.weixin.qq.com/s/example-slug");
    assert_eq!(input.html_file, None);

    let saved = SingleArticleArchive::from(ArchiveArticle {
        article_id: input.article_id.clone(),
        target_account_id: input.target_account_id.clone(),
        title: input.title.clone(),
        source_url: input.source_url.clone(),
        html_file: None,
        markdown_file: None,
        reading_enrichment: None,
        reading_comments: Vec::new(),
    });
    assert_eq!(saved.article_id, "single-s-example-slug");
    assert_eq!(saved.source_url, "https://mp.weixin.qq.com/s/example-slug");
}

#[test]
fn rejects_non_wechat_article_urls() {
    let error = normalize_wechat_article_url("https://example.com/not-wechat")
        .expect_err("non WeChat article URL should be rejected");

    assert!(matches!(
        error,
        SingleArticleWorkflowError::InvalidArticleUrl(_)
    ));
    assert_eq!(
        error.message(),
        "invalid WeChat article URL: https://example.com/not-wechat"
    );
}

#[test]
fn normalizes_schemes_and_reads_query_identities() {
    let url = normalize_wechat_article_url("//mp.weixin.qq.com/s/abc").expect("protocol relative");
    assert_eq!(url.serialization, "https://mp.weixin.qq.com/s/abc");
    let url = normalize_wechat_article_url("http://mp.weixin.qq.com/s/abc#frag").expect("http");
    assert_eq!(url.serialization, "https://mp.weixin.qq.com/s/abc");
    let url = normalize_wechat_article_url(
        "https://mp.weixin.qq.com/s?__biz=MzA&mid=2650&idx=1&sn=abc123&chksm=x",
    )
    .expect("query article");
    assert_eq!(article_identity(&url), Some("s-2650-1-abc123".to_string()));
    assert_eq!(
        article_id_from_url(&url).expect("id"),
        "single-s-2650-1-abc123"
    );
    let url = normalize_wechat_article_url("https://mp.weixin.qq.com/s?sn=only&sn=last")
        .expect("sn only");
    assert_eq!(article_identity(&url), Some("s-last".to_string()));
    assert!(normalize_wechat_article_url("   ").is_err());
    assert!(normalize_wechat_article_url("https://mp.weixin.qq.com/profile").is_err());
    assert!(normalize_wechat_article_url("https://mp.weixin.qq.com/s/").is_err());
}

#[test]
fn id_segments_keep_only_safe_characters() {
    assert_eq!(safe_article_id_segment("s-abc_DEF.1"), "s-abc_DEF.1");
    assert_eq!(safe_article_id_segment("..a b/c__"), "a_b_c");
    assert_eq!(safe_article_id_segment("._."), "article");
    assert_eq!(safe_article_id_segment("文章"), "article");
}

#[test]
fn titles_fall_back_to_archive_then_to_the_id() {
    let url = normalize_wechat_article_url("mp.weixin.qq.com/s/slug").expect("url");
    let existing = Some(ArchiveArticle {
        article_id: "single-s-slug".to_string(),
        target_account_id: SINGLE_ARTICLE_TARGET_ACCOUNT_ID.to_string(),
        title: "Stored Title".to_string(),
        source_url: "https://mp.weixin.qq.com/s/slug".to_string(),
        html_file: Some("articles/single-article/single-s-slug.html".to_string()),
        markdown_file: None,
        reading_enrichment: None,
        reading_comments: Vec::new(),
    });
    let input = single_article_input("single-s-slug", &url, &Some("   ".to_string()), &existing);
    assert_eq!(input.title, "Stored Title");
    assert_eq!(
        input.html_file.as_deref(),
        Some("articles/single-article/single-s-slug.html")
    );
    let input = single_article_input("single-single-s-slug", &url, &None, &None);
    assert_eq!(input.title, "Single Article s-slug");
    let input = single_article_input("single-s-slug", &url, &Some("  Trimmed  ".to_string()), &None);
    assert_eq!(input.title, "Trimmed");
}
