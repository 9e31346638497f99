use std::sync::{Arc, Mutex};

use wechat_article_exporter_desktop_lib::archive_store::{ArchiveArticle, TargetArticleInput};
use wechat_article_exporter_desktop_lib::article_reading_enrichment::{
    current_unix_seconds, extract_comment_id, extract_quoted_after, extract_u32_after, extract_u32_after_any,
    key_window_splits_char, page_reading_counts, reached_key_window_splits, reading_counts_split,
    select_target_article, valid_credential_at, with_fetched_comments, comment_from_fields,
    json_scalar_i64, json_scalar_text, json_scalar_u32, ArticleReadingCommentInput, CommentFields,
    JsonScalar,
    ArticleReadingCredential, ArticleReadingCredentialService, ArticleReadingEnrichmentError,
    ArticleReadingEnrichmentOutcome,
    enrichment_fetch_request, ArticleReadingEnrichment, ArticleReadingEnrichmentArticleOutcome,
    ArticleReadingEnrichmentClient, ArticleReadingEnrichmentFetchRequest,
    ArticleReadingEnrichmentFetchResponse, ArticleReadingEnrichmentInput,
    ArticleReadingEnrichmentRequest, ArticleReadingEnrichmentTransport,
};
use wechat_article_exporter_desktop_lib::secret_store::{
    MemorySecretBackend, SecretSlot, SecretStore,
};

const NOW_UNIX: i64 = 1_800_000_000;

fn credential(cookie: Option<&str>, expires_at_unix: i64) -> ArticleReadingCredential {
    ArticleReadingCredential {
        biz: "MzA123".to_string(),
        uin: "12345".to_string(),
        key: "reading-key".to_string(),
        pass_ticket: "pass-ticket".to_string(),
        appmsg_token: "appmsg-token".to_string(),
        cookie: cookie.map(ToOwned::to_owned),
        expires_at_unix,
    }
}

#[test]
fn reading_credential_status_tracks_valid_and_expired_credentials() {
    let mut service =
        ArticleReadingCredentialService::new(SecretStore::new(MemorySecretBackend::default()), NOW_UNIX);

    let empty = service.status_for_credential(None);
    assert!(!empty.configured);
    assert!(!empty.valid);
    assert!(!empty.expired);
    assert_eq!(empty.expires_at_unix, None);

    let saved_credential = credential(Some("wap_sid2=secret"), NOW_UNIX + 3600);
    let saved = service
        .save(saved_credential.clone())
        .expect("save reading credential");

    assert!(saved.configured);
    assert!(saved.valid);
    assert!(!saved.expired);
    assert_eq!(saved.expires_at_unix, Some(NOW_UNIX + 3600));

    let later = ArticleReadingCredentialService::new(
        SecretStore::new(MemorySecretBackend::default()),
        NOW_UNIX + 7200,
    );
    let expired = later.status_for_credential(Some(&saved_credential));
    assert!(expired.configured);
    assert!(!expired.valid);
    assert!(expired.expired);
    assert_eq!(expired.expires_at_unix, Some(NOW_UNIX + 3600));
}

#[test]
fn mark_expired_updates_the_secret_store_without_touching_official_login() {
    let mut secret_store = SecretStore::new(MemorySecretBackend::default());
    secret_store
        .save(SecretSlot::OfficialAccountLogin, "official-login-secret")
        .expect("save official login secret");
    let mut service = ArticleReadingCredentialService::new(secret_store, NOW_UNIX);
    let saved = credential(None, NOW_UNIX + 3600);
    service.save(saved.clone()).expect("save reading credential");

    let status = service.mark_expired(saved).expect("mark expired");

    assert!(status.configured);
    assert!(!status.valid);
    assert!(status.expired);
    assert_eq!(status.expires_at_unix, Some(NOW_UNIX - 1));
    assert_eq!(
        service
            .secret_store()
            .read(SecretSlot::OfficialAccountLogin)
            .expect("read official login secret")
            .as_deref(),
        Some("official-login-secret")
    );
    let stored = service
        .secret_store()
        .read(SecretSlot::ArticleReadingCredential)
        .expect("read reading credential")
        .expect("credential exists");
    assert!(stored.ends_with("\"expiresAtUnix\":1799999999}"));
}

#[test]
fn expired_reading_credentials_block_only_enrichment() {
    assert_eq!(
        valid_credential_at(Some(credential(None, NOW_UNIX - 60)), NOW_UNIX),
        Err(ArticleReadingEnrichmentError::MissingValidReadingCredential)
    );
    assert_eq!(
        valid_credential_at(Some(credential(None, NOW_UNIX)), NOW_UNIX),
        Err(ArticleReadingEnrichmentError::MissingValidReadingCredential)
    );
    assert_eq!(
        valid_credential_at(None, NOW_UNIX),
        Err(ArticleReadingEnrichmentError::MissingValidReadingCredential)
    );
    assert_eq!(
        valid_credential_at(Some(credential(None, NOW_UNIX + 1)), NOW_UNIX),
        Ok(credential(None, NOW_UNIX + 1))
    );
    assert_eq!(
        ArticleReadingEnrichmentError::MissingValidReadingCredential.message(),
        "a valid Article Reading Credential is required for reading enrichment"
    );
}

#[test]
fn credential_json_uses_camel_case_fields() {
    assert_eq!(
        credential(Some("wap_sid2=secret"), 42).to_json(),
        "{\"biz\":\"MzA123\",\"uin\":\"12345\",\"key\":\"reading-key\",\"passTicket\":\"pass-ticket\",\"appmsgToken\":\"appmsg-token\",\"cookie\":\"wap_sid2=secret\",\"expiresAtUnix\":42}"
    );
    assert!(credential(None, -5).to_json().ends_with("\"cookie\":null,\"expiresAtUnix\":-5}"));
}

#[test]
fn reads_comment_ids_and_counts_from_article_pages() {
    assert_eq!(
        extract_comment_id("x; var comment_id = '123456' || '0';"),
        Some("123456".to_string())
    );
    assert_eq!(
        extract_comment_id("comment_id: JsDecode('7890'),"),
        Some("7890".to_string())
    );
    assert_eq!(
        extract_comment_id("window.comment_id = '55';"),
        Some("55".to_string())
    );
    assert_eq!(extract_comment_id("no id here"), None);
    assert_eq!(extract_quoted_after("a='b'", "a='"), Some("b".to_string()));
    assert_eq!(extract_quoted_after("a='b", "a='"), None);

    let html = "var read_num_new = '1024'; var old_like_count = \"81\"; share_count: 13";
    assert_eq!(extract_u32_after(html, "read_num_new"), Some(1024));
    assert_eq!(
        extract_u32_after_any(html, &vec!["missing_key", "old_like_count"]),
        Some(81)
    );
    assert_eq!(extract_u32_after_any(html, &vec!["share_count", "share_num"]), Some(13));
    assert_eq!(extract_u32_after_any(html, &vec!["comment_count", "comment_num"]), None);
    assert_eq!(extract_u32_after("count = 99999999999", "count"), None);
    let far = format!("read_num{}7", " ".repeat(80));
    assert_eq!(extract_u32_after(&far, "read_num"), None);
    assert!(!key_window_splits_char(&far, "read_num"));
    let split = format!("read_num{}é5", " ".repeat(79));
    assert!(key_window_splits_char(&split, "read_num"));
}

#[test]
fn page_counts_come_from_the_first_key_that_has_a_number() {
    let html = "var read_num_new = '1024'; var old_like_count = \"81\"; share_num: 13";
    assert!(!reading_counts_split(html));
    let counts = page_reading_counts(html);
    assert_eq!(counts.read_count, Some(1024));
    assert_eq!(counts.like_count, Some(81));
    assert_eq!(counts.share_count, Some(13));
    assert_eq!(counts.comment_count, None);
    assert_eq!(counts.paid_content, None);
    assert!(counts.comments.is_empty());

    // A key past the first one that has a number is never read, so its window does not count.
    let later_split = format!("old_like_count 5 like_num{}é5", " ".repeat(79));
    assert!(!reached_key_window_splits(&later_split, &vec!["old_like_count", "like_num"]));
    assert!(reached_key_window_splits(&later_split, &vec!["like_num"]));
    assert!(!reading_counts_split(&later_split));
    assert_eq!(page_reading_counts(&later_split).like_count, Some(5));
    let split = format!("comment_num{}é5", " ".repeat(79));
    assert!(reading_counts_split(&split));
}

#[test]
fn fetched_comments_fill_in_a_missing_comment_count() {
    let comment = ArticleReadingCommentInput {
        comment_id: "comment-1".to_string(),
        author_name: "Reader A".to_string(),
        content: "很有启发".to_string(),
        like_count: 7,
        created_at_unix: 1_700_000_000,
        raw_json: None,
    };
    let page = page_reading_counts("read_num 3");
    let merged = with_fetched_comments(page.clone(), Some(2), vec![comment.clone()]);
    assert_eq!(merged.read_count, Some(3));
    assert_eq!(merged.comment_count, Some(2));
    assert_eq!(merged.comments, vec![comment.clone()]);

    let stated = page_reading_counts("comment_count 9");
    let merged = with_fetched_comments(stated, Some(2), vec![comment]);
    assert_eq!(merged.comment_count, Some(9));
}

fn number(text: &str, unsigned: Option<u64>, signed: Option<i64>) -> JsonScalar {
    JsonScalar::Number { text: text.to_string(), unsigned, signed }
}

fn text_field(text: &str) -> Option<JsonScalar> {
    Some(JsonScalar::Text(text.to_string()))
}

#[test]
fn json_fields_read_as_text_and_numbers() {
    assert_eq!(json_scalar_text(&JsonScalar::Text("a".to_string())), Some("a".to_string()));
    assert_eq!(json_scalar_text(&number("12", Some(12), Some(12))), Some("12".to_string()));
    assert_eq!(json_scalar_text(&JsonScalar::Other), None);
    assert_eq!(json_scalar_u32(&number("7", Some(7), Some(7))), Some(7));
    assert_eq!(json_scalar_u32(&number("4294967296", Some(4294967296), Some(4294967296))), None);
    assert_eq!(json_scalar_u32(&number("-1", None, Some(-1))), None);
    assert_eq!(json_scalar_u32(&JsonScalar::Text("+42".to_string())), Some(42));
    assert_eq!(json_scalar_u32(&JsonScalar::Text("4x".to_string())), None);
    assert_eq!(json_scalar_i64(&number("-5", None, Some(-5))), Some(-5));
    assert_eq!(json_scalar_i64(&number("1.5", None, None)), None);
    assert_eq!(json_scalar_i64(&JsonScalar::Text("-1700000000".to_string())), Some(-1_700_000_000));
    assert_eq!(json_scalar_i64(&JsonScalar::Other), None);
}

#[test]
fn comments_are_read_from_their_list_entries() {
    let fields = CommentFields {
        content_id: None,
        id: Some(number("9001", Some(9001), Some(9001))),
        nick_name: text_field("Reader A"),
        content: text_field("很有启发"),
        like_num: text_field("7"),
        create_time: Some(number("1700000000", Some(1_700_000_000), Some(1_700_000_000))),
        raw_json: Some("{\"id\":9001}".to_string()),
    };
    assert_eq!(
        comment_from_fields(&fields),
        Some(ArticleReadingCommentInput {
            comment_id: "9001".to_string(),
            author_name: "Reader A".to_string(),
            content: "很有启发".to_string(),
            like_count: 7,
            created_at_unix: 1_700_000_000,
            raw_json: Some("{\"id\":9001}".to_string()),
        })
    );

    let sparse = CommentFields {
        content_id: text_field("c-1"),
        id: text_field("ignored"),
        nick_name: Some(JsonScalar::Other),
        content: None,
        like_num: text_field("many"),
        create_time: None,
        raw_json: None,
    };
    let comment = comment_from_fields(&sparse).expect("comment");
    assert_eq!(comment.comment_id, "c-1");
    assert_eq!(comment.author_name, "");
    assert_eq!(comment.content, "");
    assert_eq!(comment.like_count, 0);
    assert_eq!(comment.created_at_unix, 0);

    // A `content_id` that is not text hides `id`: the entry has no usable id.
    let unusable = CommentFields { content_id: Some(JsonScalar::Other), ..sparse.clone() };
    assert_eq!(comment_from_fields(&unusable), None);
    let no_id = CommentFields { content_id: None, id: None, ..sparse };
    assert_eq!(comment_from_fields(&no_id), None);
}

#[test]
fn enrichment_selects_the_last_record_of_an_article_and_counts_outcomes() {
    let first = target_article("aid-1", "First");
    let second = target_article("aid-2", "Second");
    let replaced = target_article("aid-1", "Replaced");
    let articles = vec![first, second, replaced];
    assert_eq!(select_target_article(&articles, "aid-1"), Some(2));
    assert_eq!(select_target_article(&articles, "aid-2"), Some(1));
    assert_eq!(select_target_article(&articles, "aid-9"), None);
    let outcome = ArticleReadingEnrichmentOutcome::new(Vec::new(), 3);
    assert_eq!(outcome.enriched_count, 0);
    assert_eq!(outcome.skipped_count, 3);
}

fn target_article(article_id: &str, title: &str) -> TargetArticleInput {
    TargetArticleInput {
        article_id: article_id.to_string(),
        target_account_id: "MzA123".to_string(),
        title: title.to_string(),
        source_url: "https://mp.weixin.qq.com/s/reading-fixture".to_string(),
        digest: String::new(),
        author_name: String::new(),
        cover: String::new(),
        appmsgid: 1,
        itemidx: 1,
        item_show_type: 0,
        create_time: 0,
        update_time: 0,
        is_deleted: false,
        copyright_type: 0,
        album_infos: Vec::new(),
    }
}

#[derive(Clone)]
struct FixtureReadingTransport {
    response: ArticleReadingEnrichmentFetchResponse,
    requests: Arc<Mutex<Vec<ArticleReadingEnrichmentFetchRequest>>>,
}

impl ArticleReadingEnrichmentTransport for FixtureReadingTransport {
    fn fetch(
        &self,
        request: ArticleReadingEnrichmentFetchRequest,
    ) -> Result<ArticleReadingEnrichmentFetchResponse, String> {
        self.requests.lock().expect("record request").push(request);
        Ok(self.response.clone())
    }
}

#[test]
fn enriches_selected_articles_with_valid_reading_credentials() {
    let target_articles = vec![target_article("aid-1", "Reading fixture")];
    let mut backend = MemorySecretBackend::default();
    let saved_credential = credential(Some("wap_sid2=secret"), NOW_UNIX + 3600);
    ArticleReadingCredentialService::new(SecretStore::new(&mut backend), NOW_UNIX)
        .save(saved_credential.clone())
        .expect("save reading credential");
    let transport = FixtureReadingTransport {
        response: ArticleReadingEnrichmentFetchResponse {
            read_count: Some(1024),
            like_count: Some(81),
            share_count: Some(13),
            comment_count: Some(2),
            paid_content: Some("paid excerpt".to_string()),
            comments: vec![ArticleReadingCommentInput {
                comment_id: "comment-1".to_string(),
                author_name: "Reader A".to_string(),
                content: "很有启发".to_string(),
                like_count: 7,
                created_at_unix: 1_700_000_000,
                raw_json: Some(r#"{"id":"comment-1"}"#.to_string()),
            }],
        },
        requests: Arc::new(Mutex::new(Vec::new())),
    };
    let requests = Arc::clone(&transport.requests);
    let client = ArticleReadingEnrichmentClient::new(transport, SecretStore::new(&mut backend), NOW_UNIX);
    let request = ArticleReadingEnrichmentRequest {
        fakeid: "MzA123".to_string(),
        article_ids: vec!["aid-1".to_string()],
    };

    // The enrichment as the application runs it, with the archive kept in memory.
    let text = client.credential_text().expect("read credential").expect("credential stored");
    assert_eq!(text, saved_credential.to_json());
    let valid = valid_credential_at(Some(saved_credential), client.now_unix()).expect("valid credential");
    let mut articles = Vec::new();
    let mut archived = Vec::new();
    let mut skipped_count = 0_u32;
    for article_id in &request.article_ids {
        let Some(index) = select_target_article(&target_articles, article_id) else {
            skipped_count += 1;
            continue;
        };
        let target = &target_articles[index];
        let fetched = client.fetch(enrichment_fetch_request(&valid, target)).expect("fetch reading data");
        let reading_enrichment = ArticleReadingEnrichment::from_input(
            &target.article_id,
            ArticleReadingEnrichmentInput::from_response(fetched),
            client.now_unix(),
        );
        archived.push(ArchiveArticle {
            article_id: target.article_id.clone(),
            target_account_id: target.target_account_id.clone(),
            title: target.title.clone(),
            source_url: target.source_url.clone(),
            html_file: None,
            markdown_file: None,
            reading_comments: reading_enrichment.comments.clone(),
            reading_enrichment: Some(reading_enrichment.clone()),
        });
        articles.push(ArticleReadingEnrichmentArticleOutcome {
            article_id: target.article_id.clone(),
            reading_enrichment,
        });
    }
    let outcome = ArticleReadingEnrichmentOutcome::new(articles, skipped_count);

    assert_eq!(outcome.enriched_count, 1);
    assert_eq!(outcome.skipped_count, 0);
    assert_eq!(outcome.articles[0].article_id, "aid-1");

    let archived = &archived[0];
    let stats = archived.reading_enrichment.as_ref().expect("reading enrichment");
    assert_eq!(stats.read_count, Some(1024));
    assert_eq!(stats.like_count, Some(81));
    assert_eq!(stats.share_count, Some(13));
    assert_eq!(stats.comment_count, Some(2));
    assert_eq!(stats.paid_content.as_deref(), Some("paid excerpt"));
    assert_eq!(archived.reading_comments.len(), 1);
    assert_eq!(archived.reading_comments[0].content, "很有启发");

    let requests = requests.lock().expect("read requests");
    assert_eq!(requests.len(), 1);
    assert_eq!(requests[0].article_id, "aid-1");
    assert_eq!(requests[0].credential.biz, "MzA123");
    assert_eq!(requests[0].source_url, "https://mp.weixin.qq.com/s/reading-fixture");
}

#[test]
fn the_clock_reads_a_non_negative_count_of_seconds() {
    let now = current_unix_seconds();
    assert!(now > 1_600_000_000);
    assert!(current_unix_seconds() >= now);
}
