//! Store-level behavior: creation bookkeeping, coalesce merges, soft
//! deletion, listings, and the constraint errors.

use flowsync::errors::StoreError;
use flowsync::model::{CreateContent, CreateProject, CreatePublication, UpdateProject};
use flowsync::status::SyncStatus;
use flowsync::store::Repository;

fn store_with_user(user_id: &str) -> Repository {
    let mut repo = Repository::new();
    repo.ensure_user_exists(user_id, 100);
    repo
}

fn draft_project() -> CreateProject {
    CreateProject {
        name: "Draft".to_string(),
        description: Some("first".to_string()),
        industry: None,
        sub_industries: None,
        brand_name: None,
        brand_tone: None,
        brand_keywords: None,
        topics: None,
        keywords: None,
    }
}

#[test]
fn created_project_starts_at_version_one_pending() {
    let mut repo = store_with_user("u1");
    let p = repo.create_project("u1", &draft_project(), 200).unwrap();
    assert_eq!(p.local_version, 1);
    assert_eq!(p.sync_status, SyncStatus::Pending);
    assert_eq!(p.server_version, 0);
    assert_eq!(p.name, "Draft");
    assert_eq!(p.id.len(), 36);
}

#[test]
fn created_content_and_publication_start_pending() {
    let mut repo = store_with_user("u1");
    let p = repo.create_project("u1", &draft_project(), 200).unwrap();
    let c = repo
        .create_content(
            "u1",
            &CreateContent {
                project_id: p.id.clone(),
                title: Some("t".to_string()),
                content_type: "article".to_string(),
                text_content: Some("hello".to_string()),
                tags: None,
            },
            210,
        )
        .unwrap();
    assert_eq!(c.local_version, 1);
    assert_eq!(c.sync_status, SyncStatus::Pending);
    assert_eq!(c.word_count, 5);
    let pb = repo
        .create_publication(
            "u1",
            &CreatePublication {
                content_id: c.id.clone(),
                account_id: "acc".to_string(),
                platform: "weibo".to_string(),
                scheduled_at: None,
            },
            220,
        )
        .unwrap();
    assert_eq!(pb.local_version, 1);
    assert_eq!(pb.sync_status, SyncStatus::Pending);
}

#[test]
fn create_project_without_user_is_rejected() {
    let mut repo = Repository::new();
    let r = repo.create_project("ghost", &draft_project(), 200);
    assert_eq!(r.unwrap_err(), StoreError::MissingUser);
}

#[test]
fn create_content_without_project_is_rejected() {
    let mut repo = store_with_user("u1");
    let r = repo.create_content(
        "u1",
        &CreateContent {
            project_id: "nope".to_string(),
            title: None,
            content_type: "article".to_string(),
            text_content: None,
            tags: None,
        },
        210,
    );
    assert_eq!(r.unwrap_err(), StoreError::MissingProject);
}

#[test]
fn create_publication_without_content_is_rejected() {
    let mut repo = store_with_user("u1");
    let r = repo.create_publication(
        "u1",
        &CreatePublication {
            content_id: "nope".to_string(),
            account_id: "a".to_string(),
            platform: "weibo".to_string(),
            scheduled_at: None,
        },
        210,
    );
    assert_eq!(r.unwrap_err(), StoreError::MissingContent);
}

#[test]
fn duplicate_project_id_is_rejected() {
    let mut repo = store_with_user("u1");
    let first = repo.create_project_with_id("fixed-id", "u1", &draft_project(), 200);
    assert!(first.is_ok());
    let second = repo.create_project_with_id("fixed-id", "u1", &draft_project(), 201);
    assert_eq!(second.unwrap_err(), StoreError::DuplicateId);
}

#[test]
fn update_bumps_version_and_coalesces_fields() {
    let mut repo = store_with_user("u1");
    let p = repo.create_project("u1", &draft_project(), 200).unwrap();
    let update = UpdateProject {
        name: Some("Renamed".to_string()),
        description: None,
        industry: None,
        sub_industries: None,
        brand_name: None,
        brand_tone: None,
        brand_keywords: None,
        topics: None,
        keywords: None,
        account_tags: None,
        preferred_platforms: None,
        content_style: None,
    };
    repo.update_project(&p.id, &update, 300);
    let got = repo.get_project(&p.id).unwrap();
    assert_eq!(got.name, "Renamed");
    // The absent description kept the stored value.
    assert_eq!(got.description, Some("first".to_string()));
    assert_eq!(got.local_version, 2);
    assert_eq!(got.sync_status, SyncStatus::Pending);
    assert_eq!(got.updated_at, 300);
}

#[test]
fn string_lists_are_stored_as_json_text() {
    let mut repo = store_with_user("u1");
    let mut data = draft_project();
    data.sub_industries = Some(vec!["tech".to_string(), "media".to_string()]);
    let p = repo.create_project("u1", &data, 200).unwrap();
    // The stored field is the JSON encoding, not the raw list.
    assert_eq!(p.sub_industries, Some("[\"tech\",\"media\"]".to_string()));
}

#[test]
fn soft_deleted_project_hidden_but_still_pending() {
    let mut repo = store_with_user("u1");
    let p = repo.create_project("u1", &draft_project(), 200).unwrap();
    repo.delete_project(&p.id, 300);
    assert!(repo.get_project(&p.id).is_none());
    assert!(repo.list_projects("u1").is_empty());
    // The deletion itself still awaits a push.
    let pending = repo.list_pending_projects("u1");
    assert_eq!(pending.len(), 1);
    assert!(pending[0].is_deleted);
    assert_eq!(pending[0].deleted_at, Some(300));
    assert_eq!(pending[0].local_version, 2);
}

#[test]
fn list_projects_orders_default_first_then_recency() {
    let mut repo = store_with_user("u1");
    let _first = repo.create_project("u1", &draft_project(), 200).unwrap();
    let mut data_b = draft_project();
    data_b.name = "B".to_string();
    let _second = repo.create_project("u1", &data_b, 400).unwrap();
    let mut data_c = draft_project();
    data_c.name = "C".to_string();
    let c = repo.create_project("u1", &data_c, 300).unwrap();
    repo.set_default_project("u1", &c.id, 500);
    let listed = repo.list_projects("u1");
    assert_eq!(listed.len(), 3);
    // All rows were touched at 500 by set_default_project; the default row
    // comes first regardless.
    assert_eq!(listed[0].id, c.id);
    assert!(listed[0].is_default);
    assert!(!listed[1].is_default);
    assert!(!listed[2].is_default);
}

#[test]
fn set_default_project_is_exclusive() {
    let mut repo = store_with_user("u1");
    let a = repo.create_project("u1", &draft_project(), 200).unwrap();
    let b = repo.create_project("u1", &draft_project(), 201).unwrap();
    repo.set_default_project("u1", &a.id, 300);
    repo.set_default_project("u1", &b.id, 301);
    let listed = repo.list_projects("u1");
    let defaults: Vec<_> = listed.iter().filter(|p| p.is_default).collect();
    assert_eq!(defaults.len(), 1);
    assert_eq!(defaults[0].id, b.id);
}

#[test]
fn sync_user_coalesce_never_clears_with_absent_fields() {
    let mut repo = Repository::new();
    repo.sync_user("u1", Some("a@b.c"), Some("alice"), None, None, 100);
    // A second pull with absent fields keeps what is populated.
    repo.sync_user("u1", None, None, Some("Alice"), None, 200);
    let u = repo.get_user().unwrap();
    assert_eq!(u.email, Some("a@b.c".to_string()));
    assert_eq!(u.username, Some("alice".to_string()));
    assert_eq!(u.nickname, Some("Alice".to_string()));
    assert_eq!(u.updated_at, 200);
}

#[test]
fn pulled_project_applied_twice_yields_one_unchanged_row() {
    let mut repo = store_with_user("u1");
    repo.sync_project("p1", "u1", "Remote", Some("d"), None, 7, 500)
        .unwrap();
    let after_first = repo.get_project("p1").unwrap();
    repo.sync_project("p1", "u1", "Remote", Some("d"), None, 7, 500)
        .unwrap();
    let after_second = repo.get_project("p1").unwrap();
    assert_eq!(repo.list_projects("u1").len(), 1);
    assert_eq!(after_second.name, after_first.name);
    assert_eq!(after_second.description, after_first.description);
    assert_eq!(after_second.server_version, after_first.server_version);
    assert_eq!(after_second.local_version, after_first.local_version);
    assert_eq!(after_second.sync_status, after_first.sync_status);
    assert_eq!(after_second.synced_at, after_first.synced_at);
    assert_eq!(after_second.updated_at, after_first.updated_at);
}

#[test]
fn pull_defers_while_local_edit_pending() {
    // Open design choice made here: a remote snapshot never overwrites a row
    // holding an unpushed local edit; the pull is deferred, not merged.
    let mut repo = store_with_user("u1");
    let p = repo.create_project("u1", &draft_project(), 200).unwrap();
    let r = repo.sync_project(&p.id, "u1", "FromCloud", None, None, 3, 300);
    assert!(r.is_ok());
    let got = repo.get_project(&p.id).unwrap();
    assert_eq!(got.name, "Draft");
    assert_eq!(got.sync_status, SyncStatus::Pending);
    assert_eq!(got.server_version, 0);
}

#[test]
fn mark_synced_clears_pending_without_touching_content() {
    let mut repo = store_with_user("u1");
    let p = repo.create_project("u1", &draft_project(), 200).unwrap();
    repo.mark_project_synced(&p.id, 9, 300);
    let got = repo.get_project(&p.id).unwrap();
    assert_eq!(got.sync_status, SyncStatus::Synced);
    assert_eq!(got.server_version, 9);
    assert_eq!(got.synced_at, Some(300));
    assert_eq!(got.name, "Draft");
    assert_eq!(got.local_version, 1);
    assert!(repo.list_pending_projects("u1").is_empty());
}

#[test]
fn account_upsert_lands_on_existing_key() {
    let mut repo = store_with_user("u1");
    repo.ensure_project_exists("p1", "u1", 100);
    let a = repo
        .create_platform_account("u1", "p1", "weibo", "acct-9", Some("old name"), 200)
        .unwrap();
    let b = repo
        .create_platform_account("u1", "p1", "weibo", "acct-9", Some("new name"), 300)
        .unwrap();
    // Same secondary key: one local row, not two.
    assert_eq!(a.id, b.id);
    assert_eq!(b.account_name, Some("new name".to_string()));
    assert_eq!(b.local_version, 2);
    assert_eq!(repo.list_platform_accounts("p1").len(), 1);
}

#[test]
fn pulled_account_deletion_removes_the_row() {
    let mut repo = store_with_user("u1");
    repo.ensure_project_exists("p1", "u1", 100);
    repo.sync_platform_account(
        "a1", "u1", "p1", "weibo", "acct-9", Some("n"), None, 5, 6, 7, true, false, None, false,
        2, 200,
    )
    .unwrap();
    assert!(repo.get_platform_account("a1").is_some());
    repo.sync_platform_account(
        "a1", "u1", "p1", "weibo", "acct-9", None, None, 0, 0, 0, true, false, None, true, 3, 300,
    )
    .unwrap();
    assert!(repo.get_platform_account("a1").is_none());
    assert!(repo.list_platform_accounts("p1").is_empty());
}

#[test]
fn topics_sync_and_pending_listing() {
    let mut repo = store_with_user("u1");
    repo.ensure_project_exists("p1", "u1", 100);
    repo.sync_project_topic(
        "t1",
        "u1",
        "p1",
        "Title",
        "{\"title\":\"Title\"}",
        Some("2025-01-01"),
        None,
        1,
        4,
        false,
        None,
        200,
    )
    .unwrap();
    let t = repo.get_project_topic("t1").unwrap();
    assert_eq!(t.sync_status, SyncStatus::Synced);
    assert_eq!(t.server_version, 4);
    assert!(repo.list_pending_project_topics("p1").is_empty());
    let local = repo
        .create_project_topic("u1", "p1", "Mine", "{}", 300)
        .unwrap();
    assert_eq!(local.local_version, 1);
    assert_eq!(local.sync_status, SyncStatus::Pending);
    let pending = repo.list_pending_project_topics("p1");
    assert_eq!(pending.len(), 1);
    assert_eq!(pending[0].id, local.id);
}

#[test]
fn publication_status_update_bumps_version() {
    let mut repo = store_with_user("u1");
    let p = repo.create_project("u1", &draft_project(), 200).unwrap();
    let c = repo
        .create_content(
            "u1",
            &CreateContent {
                project_id: p.id.clone(),
                title: None,
                content_type: "article".to_string(),
                text_content: None,
                tags: None,
            },
            210,
        )
        .unwrap();
    let pb = repo
        .create_publication(
            "u1",
            &CreatePublication {
                content_id: c.id.clone(),
                account_id: "acc".to_string(),
                platform: "weibo".to_string(),
                scheduled_at: None,
            },
            220,
        )
        .unwrap();
    repo.update_publication_status(&pb.id, "published", None, 400);
    let got = repo.get_publication(&pb.id).unwrap();
    assert_eq!(got.status, "published");
    assert_eq!(got.local_version, 2);
    assert_eq!(got.sync_status, SyncStatus::Pending);
    let listed = repo.list_publications(&c.id);
    assert_eq!(listed.len(), 1);
}

#[test]
fn content_update_recounts_words() {
    let mut repo = store_with_user("u1");
    let p = repo.create_project("u1", &draft_project(), 200).unwrap();
    let c = repo
        .create_content(
            "u1",
            &CreateContent {
                project_id: p.id.clone(),
                title: None,
                content_type: "article".to_string(),
                text_content: Some("abc".to_string()),
                tags: None,
            },
            210,
        )
        .unwrap();
    assert_eq!(c.word_count, 3);
    repo.update_content(&c.id, None, Some("longer text"), 300);
    let got = repo.get_content(&c.id).unwrap();
    assert_eq!(got.word_count, 11);
    assert_eq!(got.local_version, 2);
}

#[test]
fn cloud_id_lookup_finds_the_mapped_project() {
    let mut repo = store_with_user("u1");
    repo.sync_project("p1", "u1", "Remote", None, Some(42), 1, 200)
        .unwrap();
    assert_eq!(repo.get_project_uuid_by_cloud_id(42), Some("p1".to_string()));
    assert_eq!(repo.get_project_uuid_by_cloud_id(43), None);
}

#[test]
fn default_user_is_provisioned_once() {
    let mut repo = Repository::new();
    repo.ensure_default_user(100);
    repo.ensure_default_user(200);
    let u = repo.get_user().unwrap();
    assert_eq!(u.id, "current-user");
    assert_eq!(u.created_at, 100);
}

#[test]
fn well_formed_check_accepts_built_stores_and_rejects_orphans() {
    let mut repo = store_with_user("u1");
    let p = repo.create_project("u1", &draft_project(), 200).unwrap();
    assert!(repo.is_well_formed());
    // A row adopted from outside the library with a missing parent is refused.
    let mut orphaned = Repository::new();
    let mut stray = repo.get_project(&p.id).unwrap();
    stray.user_id = "nobody".to_string();
    orphaned.projects.push(stray);
    assert!(!orphaned.is_well_formed());
}
