use std::sync::{Arc, Mutex};

use wechat_article_exporter_desktop_lib::archive_store::{ArchiveArticle, TargetArticleInput};
use wechat_article_exporter_desktop_lib::article_html_download::{
    archive_article_from_target_article, article_asset_file_path, article_asset_request,
    article_html_file_path, article_page_request, asset_filename, discover_asset_urls,
    download_task_item, downloaded_article_input, extension_from_content_type,
    find_target_article, normalize_asset_url, resolve_download_proxy_setting, safe_path_segment,
    ArticleHtmlDownloadClient, ArticleHtmlDownloadError, ArticleHtmlDownloadResourceRequest,
    ArticleHtmlDownloadResourceResponse, ArticleHtmlDownloadTransport, NetworkProxySetting,
};
use wechat_article_exporter_desktop_lib::secret_store::{MemorySecretBackend, SecretStore};

fn target_article() -> TargetArticleInput {
    TargetArticleInput {
        article_id: "aid-1".to_string(),
        target_account_id: "fakeid-1".to_string(),
        title: "First Article".to_string(),
        source_url: "https://mp.weixin.qq.com/s/first".to_string(),
        digest: String::new(),
        author_name: String::new(),
        cover: String::new(),
        appmsgid: 101,
        itemidx: 1,
        item_show_type: 0,
        create_time: 0,
        update_time: 0,
        is_deleted: false,
        copyright_type: 0,
        album_infos: Vec::new(),
    }
}

#[test]
fn downloads_article_html_writes_archive_record_and_discovers_assets() {
    let html = r#"<html><body>
        <img data-src="https://mmbiz.qpic.cn/mmbiz_png/cover.png" alt="cover">
        <img src='https://mmbiz.qpic.cn/mmbiz_jpg/inline.jpg' alt="inline">
        <img src="/relative/ignored.png">
        <img src="//mmbiz.qpic.cn/mmbiz_png/cover.png">
    </body></html>"#;
    assert_eq!(
        discover_asset_urls(html),
        vec![
            "https://mmbiz.qpic.cn/mmbiz_png/cover.png".to_string(),
            "https://mmbiz.qpic.cn/mmbiz_jpg/inline.jpg".to_string(),
        ]
    );
    assert_eq!(article_html_file_path("fakeid-1", "aid-1"), "articles/fakeid-1/aid-1.html");
    assert_eq!(
        article_asset_file_path(
            "fakeid-1",
            "aid-1",
            0,
            "https://mmbiz.qpic.cn/mmbiz_png/cover.png",
            Some("image/png")
        ),
        "assets/fakeid-1/aid-1/000-cover.png"
    );
    let article = archive_article_from_target_article(target_article());
    let input = downloaded_article_input(&article, "articles/fakeid-1/aid-1.html");
    assert_eq!(input.html_file.as_deref(), Some("articles/fakeid-1/aid-1.html"));
    assert_eq!(input.source_url, "https://mp.weixin.qq.com/s/first");
    let page = article_page_request(&article, "wxuin=1; rand_info=secret", &None);
    assert!(page.is_article_html);
    assert_eq!(page.referer, "https://mp.weixin.qq.com/");
    assert_eq!(page.cookie_header.as_deref(), Some("wxuin=1; rand_info=secret"));
    let asset = article_asset_request(&article, "https://x.test/a.png", "c=1", &None);
    assert_eq!(asset.referer, "https://mp.weixin.qq.com/s/first");
    assert!(!asset.is_article_html);
}

#[test]
fn retries_transient_failures_and_records_failed_task_state() {
    let transport = FixtureTransport::new(vec![
        Err("temporary timeout".to_string()),
        Err("still timeout".to_string()),
        Ok(ArticleHtmlDownloadResourceResponse {
            bytes: b"<html><body>Recovered</body></html>".to_vec(),
            content_type: Some("text/html".to_string()),
        }),
    ]);
    let client = ArticleHtmlDownloadClient::new(
        transport.clone(),
        SecretStore::new(MemorySecretBackend::default()),
    );
    let article = archive_article_from_target_article(target_article());
    let request = article_page_request(&article, "c=1", &None);
    let response = client.fetch_resource(&request).expect("download article after retries");
    assert_eq!(response.bytes, b"<html><body>Recovered</body></html>".to_vec());
    assert_eq!(transport.requests.lock().expect("read requests").len(), 3);

    let failing = FixtureTransport::new(vec![
        Err("permanent timeout".to_string()),
        Err("permanent timeout".to_string()),
        Err("permanent timeout".to_string()),
        Ok(ArticleHtmlDownloadResourceResponse { bytes: Vec::new(), content_type: None }),
    ]);
    let client = ArticleHtmlDownloadClient::new(
        failing.clone(),
        SecretStore::new(MemorySecretBackend::default()),
    );
    let error = client.fetch_resource(&request).expect_err("download should fail");
    assert_eq!(error, ArticleHtmlDownloadError::Transport("permanent timeout".to_string()));
    assert_eq!(failing.requests.lock().expect("read requests").len(), 3);
    assert!(error.message().contains("permanent timeout"));
}

#[test]
fn optional_proxy_setting_is_passed_to_outbound_requests() {
    let proxy = NetworkProxySetting {
        url: "http://127.0.0.1:7890".to_string(),
        authorization: Some("Bearer local-token".to_string()),
    };
    let resolved = resolve_download_proxy_setting(Some(proxy.clone()), None);
    assert_eq!(resolved, Some(proxy.clone()));
    let blank = NetworkProxySetting { url: "  ".to_string(), authorization: None };
    assert_eq!(resolve_download_proxy_setting(Some(blank), Some(proxy.clone())), Some(proxy.clone()));
    let article = archive_article_from_target_article(target_article());
    let request = article_asset_request(
        &article,
        "https://mmbiz.qpic.cn/mmbiz_png/a.png",
        "c=1",
        &Some(proxy.clone()),
    );
    assert_eq!(request.proxy, Some(proxy.clone()));
    let item = download_task_item("fakeid-1", "aid-1", &Some(proxy));
    assert_eq!(item.item_type, "article-html");
    assert_eq!(
        item.payload_json,
        "{\"fakeid\":\"fakeid-1\",\"articleId\":\"aid-1\",\"proxy\":{\"url\":\"http://127.0.0.1:7890\",\"authorization\":\"Bearer local-token\"}}"
    );
}

#[test]
fn missing_official_account_login_blocks_download_before_network() {
    let transport = FixtureTransport::new(Vec::new());
    let client = ArticleHtmlDownloadClient::new(
        transport.clone(),
        SecretStore::new(MemorySecretBackend::default()),
    );
    let error = client.login_secret_text().expect_err("download should require login");
    assert_eq!(error, ArticleHtmlDownloadError::MissingOfficialAccountLogin);
    assert!(transport.requests.lock().expect("read requests").is_empty());
}

#[test]
fn asset_names_paths_and_urls() {
    assert_eq!(extension_from_content_type(Some("image/jpeg; q=1")), Some("jpg".to_string()));
    assert_eq!(extension_from_content_type(Some(" text/css ")), Some("css".to_string()));
    assert_eq!(extension_from_content_type(Some("application/json")), None);
    assert_eq!(extension_from_content_type(None), None);
    assert_eq!(asset_filename("https://x.test/a/photo", Some("image/webp")), "photo.webp");
    assert_eq!(asset_filename("https://x.test/a/", Some("image/gif")), "asset.gif");
    assert_eq!(asset_filename("not a url", None), "asset.bin");
    assert_eq!(
        article_asset_file_path("f", "a", 12, "https://x.test/p.png", None),
        "assets/f/a/012-p.png"
    );
    assert_eq!(
        article_asset_file_path("f", "a", 1234, "https://x.test/p.png", None),
        "assets/f/a/1234-p.png"
    );
    assert_eq!(normalize_asset_url("  //cdn.test/x.png "), Some("https://cdn.test/x.png".to_string()));
    assert_eq!(normalize_asset_url("data:image/png;base64,xx"), None);
    assert_eq!(safe_path_segment("__a/b..__"), "a_b");
    assert_eq!(safe_path_segment("..."), "item");
}

#[test]
fn finds_the_target_article_to_download() {
    let articles = vec![target_article()];
    let found = find_target_article(&articles, "fakeid-1", "aid-1").expect("found");
    assert_eq!(found.article_id, "aid-1");
    assert_eq!(found.html_file, None);
    let error = find_target_article(&articles, "fakeid-1", "aid-9").expect_err("missing");
    assert_eq!(
        error.message(),
        "target article was not found in the local archive: fakeid-1/aid-9"
    );
    let _unused: Option<ArchiveArticle> = None;
}

#[derive(Clone)]
struct FixtureTransport {
    requests: Arc<Mutex<Vec<ArticleHtmlDownloadResourceRequest>>>,
    responses: Arc<Mutex<Vec<Result<ArticleHtmlDownloadResourceResponse, String>>>>,
}

impl FixtureTransport {
    fn new(responses: Vec<Result<ArticleHtmlDownloadResourceResponse, String>>) -> Self {
        Self {
            requests: Arc::new(Mutex::new(Vec::new())),
            responses: Arc::new(Mutex::new(responses)),
        }
    }
}

impl ArticleHtmlDownloadTransport for FixtureTransport {
    fn fetch(
        &self,
        request: ArticleHtmlDownloadResourceRequest,
    ) -> Result<ArticleHtmlDownloadResourceResponse, String> {
        self.requests.lock().expect("lock requests").push(request);
        self.responses.lock().expect("lock responses").remove(0)
    }
}
