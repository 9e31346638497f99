use serde_json::Value;
use wechat_article_exporter_desktop_lib::archive_store::{
    list_target_account_albums, list_target_articles_by_album, TargetArticleAlbumInfo,
    TargetArticleInput,
};
use wechat_article_exporter_desktop_lib::album_workflow::{
    album_link_task_items, album_page_from_response, album_page_request, AlbumBaseInfo, AlbumExportRequest,
    AlbumFetchProgress, AlbumPage, AlbumWorkflowService, WeChatAlbumArticle,
    WeChatAlbumArticleList, WeChatAlbumBaseInfo, WeChatGetAlbumResponse,
};
use wechat_article_exporter_desktop_lib::article_export::ArticleExportFormat;
use wechat_article_exporter_desktop_lib::wechat_response::WeChatBaseResponse;

fn text(value: &Value, key: &str) -> String {
    value.get(key).and_then(Value::as_str).unwrap_or_default().to_string()
}

fn album_article(value: &Value) -> WeChatAlbumArticle {
    WeChatAlbumArticle {
        cover_img_1_1: text(value, "cover_img_1_1"),
        create_time: text(value, "create_time"),
        item_show_type: text(value, "item_show_type"),
        itemidx: text(value, "itemidx"),
        msgid: text(value, "msgid"),
        title: text(value, "title"),
        url: text(value, "url"),
    }
}

fn parse_album(fakeid: &str, album_id: &str, album_title: &str, raw: &str) -> AlbumPage {
    let response: Value = serde_json::from_str(raw).expect("parse album page");
    let base = response.get("base_resp").map(|b| WeChatBaseResponse {
        ret: b.get("ret").and_then(Value::as_i64).unwrap_or_default(),
        err_msg: text(b, "err_msg"),
    });
    let album = response.get("getalbum_resp").cloned().unwrap_or(Value::Null);
    let article_list = match album.get("article_list") {
        Some(Value::Array(items)) => WeChatAlbumArticleList::Many(items.iter().map(album_article).collect()),
        Some(Value::Object(_)) => WeChatAlbumArticleList::One(album_article(&album["article_list"])),
        _ => WeChatAlbumArticleList::Empty,
    };
    let base_info = album.get("base_info").map(|b| WeChatAlbumBaseInfo {
        article_count: text(b, "article_count"),
        brand_icon: text(b, "brand_icon"),
        cover: text(b, "cover"),
        description: text(b, "description"),
        nickname: text(b, "nickname"),
        title: text(b, "title"),
        username: text(b, "username"),
    });
    album_page_from_response(
        fakeid,
        album_id,
        album_title,
        base.as_ref(),
        WeChatGetAlbumResponse {
            article_list,
            base_info,
            continue_flag: text(&album, "continue_flag"),
        },
    )
    .expect("parse album page")
}

#[test]
fn parses_representative_album_page_response_with_single_or_array_articles() {
    let raw = r#"
    {
      "base_resp": {"ret": 0, "err_msg": "ok"},
      "getalbum_resp": {
        "base_info": {
          "article_count": "2",
          "brand_icon": "https://example.test/brand.png",
          "cover": "https://example.test/cover.png",
          "description": "Curated operator examples",
          "nickname": "Research Account",
          "title": "Growth Notes",
          "username": "gh_fixture"
        },
        "article_list": [
          {
            "cover_img_1_1": "https://example.test/first.jpg",
            "create_time": "1700000010",
            "item_show_type": "0",
            "itemidx": "1",
            "msgid": "101",
            "title": "First Album Article",
            "url": "https://mp.weixin.qq.com/s/first"
          },
          {
            "cover_img_1_1": "https://example.test/second.jpg",
            "create_time": "1700000020",
            "item_show_type": "0",
            "itemidx": "2",
            "msgid": "102",
            "title": "Second Album Article",
            "url": "https://mp.weixin.qq.com/s/second"
          }
        ],
        "continue_flag": "1",
        "is_pay_subscribe": "0",
        "reverse_continue_flag": "0"
      }
    }
    "#;

    let page = parse_album("fakeid-1", "album-1", "Growth Notes", raw);

    assert_eq!(page.base_info.title, "Growth Notes");
    assert_eq!(page.base_info.nickname, "Research Account");
    assert!(page.has_more);
    assert_eq!(page.articles.len(), 2);
    assert_eq!(page.articles[0].article_id, "101_1");
    assert_eq!(page.articles[0].appmsgid, 101);
    assert_eq!(page.articles[0].itemidx, 1);
    assert_eq!(
        page.articles[0].source_url,
        "https://mp.weixin.qq.com/s/first"
    );
    assert_eq!(page.articles[0].album_infos[0].id, "album-1");

    let single = parse_album(
        "fakeid-1",
        "7",
        "Requested Title",
        r#"{"base_resp":{"ret":0},"getalbum_resp":{"article_list":{"msgid":"5","itemidx":"1","title":"Only"},"continue_flag":" 0 "}}"#,
    );
    assert!(!single.has_more);
    assert_eq!(single.album_title, "Requested Title");
    assert_eq!(single.articles.len(), 1);
    assert_eq!(single.articles[0].article_id, "5_1");
    assert_eq!(single.articles[0].album_infos[0].album_id, 7);
}

fn album_info(album_id: i64, id: &str, title: &str) -> TargetArticleAlbumInfo {
    TargetArticleAlbumInfo { album_id, id: id.to_string(), tag_source: 0, title: title.to_string() }
}

fn article(article_id: &str, appmsgid: i64, albums: Vec<TargetArticleAlbumInfo>) -> TargetArticleInput {
    TargetArticleInput {
        article_id: article_id.to_string(),
        target_account_id: "fakeid-1".to_string(),
        title: format!("{article_id} title"),
        source_url: format!("https://mp.weixin.qq.com/s/{article_id}"),
        digest: String::new(),
        author_name: String::new(),
        cover: String::new(),
        appmsgid,
        itemidx: 1,
        item_show_type: 0,
        create_time: 0,
        update_time: 0,
        is_deleted: false,
        copyright_type: 0,
        album_infos: albums,
    }
}

#[test]
fn stores_and_lists_unique_album_choices_from_synced_articles() {
    let articles = vec![
        article("aid-1", 101, vec![album_info(1, "album-1", "Growth Notes")]),
        article(
            "aid-2",
            102,
            vec![album_info(1, "album-1", "Growth Notes"), album_info(2, "album-2", "Operator Cases")],
        ),
        article("aid-3", 103, vec![album_info(3, "  ", "Blank")]),
    ];
    let albums = list_target_account_albums(&articles);
    assert_eq!(albums.len(), 2);
    assert_eq!(albums[0].id, "album-1");
    assert_eq!(albums[0].title, "Growth Notes");
    assert_eq!(albums[1].id, "album-2");
    assert_eq!(albums[1].title, "Operator Cases");

    let in_album = list_target_articles_by_album(articles.clone(), "album-2");
    assert_eq!(in_album.len(), 1);
    assert_eq!(in_album[0].article_id, "aid-2");
    let by_number = list_target_articles_by_album(
        vec![article("aid-4", 104, vec![album_info(55, "", "")])],
        "55",
    );
    assert_eq!(by_number.len(), 1);
}

#[test]
fn fetch_all_album_articles_paginates_with_last_msgid_and_itemidx_and_persists_links() {
    let mut progress = AlbumFetchProgress::new();
    let first = AlbumPage {
        album_id: "album-1".to_string(),
        album_title: "Growth Notes".to_string(),
        base_info: empty_base_info(),
        articles: vec![article("101_1", 101, vec![]), article("102_1", 102, vec![])],
        has_more: true,
    };
    progress.record_page(first);
    assert!(!progress.finished);
    assert_eq!(progress.begin_msgid.as_deref(), Some("102"));
    assert_eq!(progress.begin_itemidx.as_deref(), Some("1"));
    let request = album_page_request(
        "fakeid-1",
        "album-1",
        &progress.begin_msgid,
        &progress.begin_itemidx,
        0,
        false,
        "wxuin=1; rand_info=secret",
    );
    assert_eq!(request.count, 1);
    assert_eq!(request.begin_msgid.as_deref(), Some("102"));
    assert_eq!(request.cookie_header, "wxuin=1; rand_info=secret");
    let empty = AlbumPage {
        album_id: "album-1".to_string(),
        album_title: "Growth Notes".to_string(),
        base_info: empty_base_info(),
        articles: vec![],
        has_more: true,
    };
    progress.record_page(empty);
    assert!(progress.finished);
    assert_eq!(progress.articles.len(), 2);
    let items = album_link_task_items("fakeid-1", "album-1", &progress.articles);
    assert_eq!(items.len(), 2);
    assert_eq!(items[0].item_type, "album-article-link");
    assert_eq!(
        items[1].payload_json,
        "{\"albumId\":\"album-1\",\"articleId\":\"102_1\",\"fakeid\":\"fakeid-1\",\"sourceUrl\":\"https://mp.weixin.qq.com/s/102_1\"}"
    );
}

#[test]
fn album_exports_need_formats_and_carry_their_request() {
    let service = AlbumWorkflowService::new();
    assert!(service.check_formats(&vec![]).is_err());
    assert!(service.check_formats(&vec![ArticleExportFormat::Markdown]).is_ok());
    let request = AlbumExportRequest {
        fakeid: "fakeid-1".to_string(),
        album_id: "album-1".to_string(),
        formats: vec![ArticleExportFormat::Markdown, ArticleExportFormat::Html],
        output_dir: None,
    };
    assert_eq!(
        request.to_json(),
        "{\"fakeid\":\"fakeid-1\",\"albumId\":\"album-1\",\"formats\":[\"markdown\",\"html\"],\"outputDir\":null}"
    );
}

fn empty_base_info() -> AlbumBaseInfo {
    AlbumBaseInfo {
        article_count: String::new(),
        brand_icon: String::new(),
        cover: String::new(),
        description: String::new(),
        nickname: String::new(),
        title: String::new(),
        username: String::new(),
    }
}
