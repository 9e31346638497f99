use vstd::prelude::*;

pub mod album_workflow;
pub mod archive_store;
pub mod article_html_download;
pub mod article_list_sync;
pub mod article_export;
pub mod article_reading_enrichment;
pub mod html;
pub mod json_text;
pub mod numbers;
pub mod official_account_login;
pub mod secret_store;
pub mod single_article_workflow;
pub mod target_accounts;
pub mod text;
pub mod web_url;
pub mod wechat_response;

verus! {

} // verus!
