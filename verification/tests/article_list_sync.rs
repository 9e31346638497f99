use std::sync::{Arc, Mutex};

use serde_json::Value;
use wechat_article_exporter_desktop_lib::archive_store::{
    ArticleListSyncRecord, ArticleListSyncStatus, CollectionTask, CollectionTaskItemStatus,
    CollectionTaskStatus, CollectionTaskType, TargetArticleInput,
};
use wechat_article_exporter_desktop_lib::article_list_sync::{
    is_blank_publish_info, page_from_articles, sync_task_item, ArticleListSyncClient,
    ArticleListSyncPage, ArticleListSyncProgress, ArticleListSyncRequest,
    ArticleListSyncTransport, WeChatArticle, WeChatArticleAlbumInfo, ARTICLE_LIST_SYNC_ITEM,
};
use wechat_article_exporter_desktop_lib::official_account_login::{
    serialize_login_secret, OfficialAccountLoginProfile, OfficialAccountLoginSecret,
};
use wechat_article_exporter_desktop_lib::secret_store::{
    MemorySecretBackend, SecretSlot, SecretStore,
};
use wechat_article_exporter_desktop_lib::wechat_response::{
    ensure_base_response_ok, WeChatBaseResponse,
};

fn text(value: &Value, key: &str) -> Option<String> {
    value.get(key).and_then(Value::as_str).map(ToOwned::to_owned)
}

fn number(value: &Value, key: &str) -> Option<i64> {
    value.get(key).and_then(Value::as_i64)
}

fn wechat_article(value: &Value) -> WeChatArticle {
    WeChatArticle {
        aid: text(value, "aid"),
        album_id: text(value, "album_id"),
        appmsg_album_infos: value
            .get("appmsg_album_infos")
            .and_then(Value::as_array)
            .map(|infos| {
                infos
                    .iter()
                    .map(|info| WeChatArticleAlbumInfo {
                        album_id: number(info, "album_id"),
                        id: text(info, "id"),
                        tag_source: number(info, "tagSource").unwrap_or_default(),
                        title: text(info, "title"),
                    })
                    .collect()
            })
            .unwrap_or_default(),
        appmsgid: number(value, "appmsgid"),
        itemidx: number(value, "itemidx"),
        title: text(value, "title"),
        link: text(value, "link"),
        digest: text(value, "digest"),
        author_name: text(value, "author_name"),
        cover: text(value, "cover"),
        create_time: number(value, "create_time"),
        update_time: number(value, "update_time"),
        item_show_type: number(value, "item_show_type"),
        is_deleted: value.get("is_deleted").and_then(Value::as_bool),
        copyright_type: number(value, "copyright_type"),
    }
}

fn parse_publish_response(fakeid: &str, raw: &str) -> ArticleListSyncPage {
    let response: Value = serde_json::from_str(raw).expect("parse article list response");
    let base = response.get("base_resp").map(|b| WeChatBaseResponse {
        ret: number(b, "ret").unwrap_or_default(),
        err_msg: text(b, "err_msg").unwrap_or_default(),
    });
    ensure_base_response_ok(base.as_ref()).expect("base response ok");
    let publish_page = text(&response, "publish_page").unwrap_or_else(|| "{}".to_string());
    let publish_page: Value = serde_json::from_str(&publish_page).expect("publish page");
    let mut articles = Vec::new();
    for item in publish_page
        .get("publish_list")
        .and_then(Value::as_array)
        .cloned()
        .unwrap_or_default()
    {
        let info = text(&item, "publish_info").unwrap_or_default();
        if is_blank_publish_info(&info) {
            continue;
        }
        let info: Value = serde_json::from_str(&info).expect("publish info");
        for article in info.get("appmsgex").and_then(Value::as_array).cloned().unwrap_or_default() {
            articles.push(wechat_article(&article));
        }
    }
    let total = publish_page.get("total_count").and_then(Value::as_u64).map(|t| t as u32);
    page_from_articles(fakeid, total, &articles)
}

#[test]
fn parses_representative_appmsgpublish_response() {
    let raw = r#"
    {
      "base_resp": {"ret": 0, "err_msg": "ok"},
      "publish_page": "{\"total_count\":2,\"publish_list\":[{\"publish_info\":\"{\\\"appmsgex\\\":[{\\\"aid\\\":\\\"aid-1\\\",\\\"appmsgid\\\":101,\\\"itemidx\\\":1,\\\"title\\\":\\\"First Article\\\",\\\"link\\\":\\\"https://mp.weixin.qq.com/s/first\\\",\\\"digest\\\":\\\"First digest\\\",\\\"author_name\\\":\\\"Alice\\\",\\\"cover\\\":\\\"https://example.test/first.jpg\\\",\\\"create_time\\\":1700000010,\\\"update_time\\\":1700000020,\\\"item_show_type\\\":0,\\\"is_deleted\\\":false,\\\"copyright_type\\\":0}]}\"},{\"publish_info\":\"{\\\"appmsgex\\\":[{\\\"aid\\\":\\\"aid-2\\\",\\\"appmsgid\\\":102,\\\"itemidx\\\":1,\\\"title\\\":\\\"Second Article\\\",\\\"link\\\":\\\"https://mp.weixin.qq.com/s/second\\\",\\\"digest\\\":\\\"Second digest\\\",\\\"author_name\\\":\\\"Bob\\\",\\\"cover\\\":\\\"https://example.test/second.jpg\\\",\\\"create_time\\\":1700000110,\\\"update_time\\\":1700000120,\\\"item_show_type\\\":0,\\\"is_deleted\\\":false,\\\"copyright_type\\\":0}]}\"}]}"
    }
    "#;

    let page = parse_publish_response("fakeid-1", raw);

    assert_eq!(page.total_count, Some(2));
    assert_eq!(page.message_count, 2);
    assert_eq!(page.articles.len(), 2);
    assert_eq!(page.articles[0].article_id, "aid-1");
    assert_eq!(page.articles[0].target_account_id, "fakeid-1");
    assert_eq!(page.articles[0].title, "First Article");
    assert_eq!(
        page.articles[1].source_url,
        "https://mp.weixin.qq.com/s/second"
    );
}

#[test]
fn articles_without_aid_get_message_ids_and_album_entries() {
    let article = WeChatArticle {
        aid: Some(String::new()),
        album_id: Some(" 42 ".to_string()),
        appmsg_album_infos: vec![WeChatArticleAlbumInfo {
            album_id: None,
            id: Some("  ".to_string()),
            tag_source: 0,
            title: None,
        }],
        appmsgid: Some(101),
        itemidx: Some(2),
        title: None,
        link: None,
        digest: None,
        author_name: None,
        cover: None,
        create_time: None,
        update_time: None,
        item_show_type: None,
        is_deleted: None,
        copyright_type: None,
    };
    let target = article.into_target_article("fakeid-1");
    assert_eq!(target.article_id, "101_2");
    assert_eq!(target.title, "");
    assert!(!target.is_deleted);
    assert_eq!(target.album_infos.len(), 1);
    assert_eq!(target.album_infos[0].id, "42");
    assert_eq!(target.album_infos[0].album_id, 42);

    let listed = WeChatArticleAlbumInfo {
        album_id: Some(7),
        id: None,
        tag_source: 3,
        title: Some("Notes".to_string()),
    }
    .to_target_article_album_info()
    .expect("album entry");
    assert_eq!(listed.id, "7");
    assert_eq!(listed.tag_source, 3);
    assert_eq!(
        WeChatArticleAlbumInfo { album_id: None, id: None, tag_source: 0, title: None }
            .to_target_article_album_info(),
        None
    );
}

struct FixtureArticleListSyncTransport {
    pages: Vec<ArticleListSyncPage>,
    error: Option<String>,
    calls: Arc<Mutex<Vec<ArticleListSyncRequest>>>,
}

impl FixtureArticleListSyncTransport {
    fn with_page(page: ArticleListSyncPage) -> Self {
        Self { pages: vec![page], error: None, calls: Arc::new(Mutex::new(Vec::new())) }
    }

    fn with_error(error: &str) -> Self {
        Self { pages: Vec::new(), error: Some(error.to_string()), calls: Arc::new(Mutex::new(Vec::new())) }
    }
}

impl ArticleListSyncTransport for FixtureArticleListSyncTransport {
    fn fetch_page(&self, request: ArticleListSyncRequest) -> Result<ArticleListSyncPage, String> {
        let mut calls = self.calls.lock().expect("record call");
        let index = calls.len();
        calls.push(request);
        if let Some(error) = &self.error {
            return Err(error.clone());
        }
        Ok(self.pages.get(index).cloned().unwrap_or(ArticleListSyncPage {
            total_count: None,
            message_count: 0,
            articles: Vec::new(),
        }))
    }
}

fn target_article(article_id: &str, title: &str, create_time: i64) -> TargetArticleInput {
    TargetArticleInput {
        article_id: article_id.to_string(),
        target_account_id: "fakeid-1".to_string(),
        title: title.to_string(),
        source_url: format!("https://mp.weixin.qq.com/s/{article_id}"),
        digest: format!("{title} digest"),
        author_name: "Fixture Author".to_string(),
        cover: format!("https://example.test/{article_id}.jpg"),
        appmsgid: 100,
        itemidx: 1,
        item_show_type: 0,
        create_time,
        update_time: create_time,
        is_deleted: false,
        copyright_type: 0,
        album_infos: Vec::new(),
    }
}

fn login_secret() -> OfficialAccountLoginSecret {
    OfficialAccountLoginSecret {
        token: "token-123".to_string(),
        cookie_header: "wxuin=1; rand_info=secret".to_string(),
        profile: OfficialAccountLoginProfile {
            nickname: "Operator Official Account".to_string(),
            avatar_url: "https://example.test/operator.png".to_string(),
        },
        expires_at: "2026-05-27T00:00:00Z".to_string(),
    }
}

/// What a synchronisation leaves behind: the stored articles, the record and its task.
struct SyncRun {
    result: Result<ArticleListSyncRecord, String>,
    stored: Vec<TargetArticleInput>,
    record: ArticleListSyncRecord,
    task: CollectionTask,
}

/// Runs a synchronisation as the application does, with the stored articles, the record and
/// the task kept in memory.
fn run_sync<T: ArticleListSyncTransport>(
    client: &ArticleListSyncClient<T, MemorySecretBackend>,
    fakeid: &str,
    max_items: u32,
    page_size: u32,
) -> SyncRun {
    let secret_text = client.login_secret_text().expect("login secret");
    assert_eq!(secret_text, serialize_login_secret(&login_secret()));
    let secret = login_secret();
    let mut progress = ArticleListSyncProgress::new(fakeid, max_items, page_size);
    let mut task = CollectionTask::create(
        "task-1".to_string(),
        CollectionTaskType::AccountArticleSync,
        Some(fakeid.to_string()),
        vec![sync_task_item(fakeid, progress.page_size)],
    )
    .expect("create task");
    task.update_item_status(ARTICLE_LIST_SYNC_ITEM, CollectionTaskItemStatus::Running, None)
        .expect("running");
    task.roll_up(None);
    let mut stored = Vec::new();
    while !progress.finished {
        let page = match client.fetch_page(progress.next_request(&secret)) {
            Ok(page) => page,
            Err(error) => {
                task.update_item_status(
                    ARTICLE_LIST_SYNC_ITEM,
                    CollectionTaskItemStatus::Failed,
                    Some(error.clone()),
                )
                .expect("failed");
                task.roll_up(Some(error.clone()));
                let record = progress.record(ArticleListSyncStatus::Failed, Some(error.clone()));
                return SyncRun { result: Err(error), stored, record, task };
            }
        };
        stored.extend(page.articles[..progress.owed_count(&page)].iter().cloned());
        assert!(progress.can_record(&page));
        progress.record_page(&page);
    }
    let record = progress.record(ArticleListSyncStatus::Completed, None);
    task.update_item_status(ARTICLE_LIST_SYNC_ITEM, CollectionTaskItemStatus::Succeeded, None)
        .expect("succeeded");
    task.roll_up(None);
    SyncRun { result: Ok(record.clone()), stored, record, task }
}

fn client_with(
    transport: FixtureArticleListSyncTransport,
) -> ArticleListSyncClient<FixtureArticleListSyncTransport, MemorySecretBackend> {
    let mut secret_store = SecretStore::new(MemorySecretBackend::default());
    secret_store
        .save(SecretSlot::OfficialAccountLogin, &serialize_login_secret(&login_secret()))
        .expect("save login secret");
    ArticleListSyncClient::new(transport, secret_store)
}

#[test]
fn sync_uses_stored_login_secret_persists_limited_articles_and_records_completion() {
    let transport = FixtureArticleListSyncTransport::with_page(ArticleListSyncPage {
        total_count: Some(2),
        message_count: 2,
        articles: vec![
            target_article("aid-1", "First Article", 1_700_000_010),
            target_article("aid-2", "Second Article", 1_700_000_020),
        ],
    });
    let calls = Arc::clone(&transport.calls);
    let client = client_with(transport);

    let run = run_sync(&client, "fakeid-1", 1, 5);
    let outcome = run.result.expect("sync target article list");

    assert_eq!(outcome.status, ArticleListSyncStatus::Completed);
    assert_eq!(outcome.requested_limit, 1);
    assert_eq!(outcome.fetched_count, 1);
    assert_eq!(outcome.total_count, Some(2));
    assert_eq!(run.stored.len(), 1);
    assert_eq!(run.stored[0].article_id, "aid-1");
    assert_eq!(run.record.status, ArticleListSyncStatus::Completed);

    let calls = calls.lock().expect("read transport calls");
    assert_eq!(calls.len(), 1);
    assert_eq!(calls[0].fakeid, "fakeid-1");
    assert_eq!(calls[0].begin, 0);
    assert_eq!(calls[0].count, 1);
    assert_eq!(calls[0].token, "token-123");
    assert_eq!(calls[0].cookie_header, "wxuin=1; rand_info=secret");
}

#[test]
fn sync_records_persistent_collection_task_status() {
    let client = client_with(FixtureArticleListSyncTransport::with_page(ArticleListSyncPage {
        total_count: Some(1),
        message_count: 1,
        articles: vec![target_article("aid-1", "First Article", 1_700_000_010)],
    }));

    let run = run_sync(&client, "fakeid-1", 20, 5);
    run.result.expect("sync target article list");

    let task = run.task;
    assert_eq!(task.task_type, CollectionTaskType::AccountArticleSync);
    assert_eq!(task.target_account_id.as_deref(), Some("fakeid-1"));
    assert_eq!(task.status, CollectionTaskStatus::Succeeded);
    assert_eq!(task.total_items, 1);
    assert_eq!(task.succeeded_items, 1);
}

#[test]
fn sync_failure_records_retryable_error_information() {
    let client = client_with(FixtureArticleListSyncTransport::with_error("upstream timeout"));

    let run = run_sync(&client, "fakeid-1", 20, 5);
    let error = run.result.expect_err("sync should fail");

    assert!(error.contains("upstream timeout"));
    assert_eq!(run.record.status, ArticleListSyncStatus::Failed);
    assert_eq!(run.record.error_message.as_deref(), Some("upstream timeout"));
    assert_eq!(run.record.requested_limit, 20);
    assert_eq!(run.task.task_type, CollectionTaskType::AccountArticleSync);
    assert_eq!(run.task.status, CollectionTaskStatus::Failed);
    assert_eq!(run.task.failed_items, 1);
    assert_eq!(run.task.error_message.as_deref(), Some("upstream timeout"));
    let item = sync_task_item("fakeid-1", 20);
    assert_eq!(item.item_id, "article-list-sync");
    assert_eq!(item.payload_json, "{\"fakeid\":\"fakeid-1\",\"pageSize\":20}");
}

#[test]
fn sync_progress_asks_for_what_is_owed_and_stops_at_the_limit() {
    let secret = login_secret();
    let mut progress = ArticleListSyncProgress::new("fakeid-1", 25, 50);
    assert_eq!(progress.page_size, 20);
    assert_eq!(progress.next_request(&secret).count, 20);
    let page = ArticleListSyncPage {
        total_count: Some(40),
        message_count: 20,
        articles: (0..20).map(|i| target_article(&format!("aid-{i}"), "A", 0)).collect(),
    };
    assert_eq!(progress.owed_count(&page), 20);
    progress.record_page(&page);
    assert!(!progress.finished);
    assert_eq!(progress.begin, 20);
    let next = progress.next_request(&secret);
    assert_eq!(next.begin, 20);
    assert_eq!(next.count, 5);
    assert_eq!(progress.owed_count(&page), 5);
    progress.record_page(&page);
    assert!(progress.finished);
    assert_eq!(progress.fetched_count, 25);
    assert_eq!(progress.record(ArticleListSyncStatus::Completed, None).requested_limit, 25);
    assert!(ArticleListSyncProgress::new("fakeid-1", 0, 5).finished);
}
