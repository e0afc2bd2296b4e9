//! Provider and engine behavior against a scripted remote: ordering,
//! placeholder provisioning, partial failure, single-flight, and the full
//! local-edit/push/edit lifecycle.

use flowsync::engine::SyncEngine;
use flowsync::errors::SyncError;
use flowsync::model::CreateProject;
use flowsync::providers::{
    AccountProvider, ProjectProvider, ProjectTopicProvider, ProviderKind, SyncProvider,
    UserProvider,
};
use flowsync::remote::{
    AccountAck, AccountPushRecord, ProjectAck, ProjectPushRecord, RemoteAccount, RemoteProject,
    RemoteService, RemoteTopic, RemoteUser, TopicAck, TopicPushRecord,
};
use flowsync::status::SyncStatus;
use flowsync::store::Repository;

/// A scripted remote: fixed answers, call counting, and switchable failures.
struct ScriptedRemote {
    calls: usize,
    upsert_calls: usize,
    fail_projects: bool,
    ack_wrong_id: bool,
    user_uuid: Option<String>,
    projects: Vec<(String, String, Option<String>, i64)>,
    accounts: Vec<(String, String, String, String)>,
    topics: Vec<(String, String)>,
    ack_version: i64,
}

impl ScriptedRemote {
    fn new() -> ScriptedRemote {
        ScriptedRemote {
            calls: 0,
            upsert_calls: 0,
            fail_projects: false,
            ack_wrong_id: false,
            user_uuid: None,
            projects: Vec::new(),
            accounts: Vec::new(),
            topics: Vec::new(),
            ack_version: 1,
        }
    }
}

impl RemoteService for ScriptedRemote {
    fn fetch_current_user(&mut self, _token: &str) -> Result<RemoteUser, SyncError> {
        self.calls += 1;
        match &self.user_uuid {
            Some(uuid) => Ok(RemoteUser {
                id: 1,
                uuid: uuid.clone(),
                username: "alice".to_string(),
                nickname: "Alice".to_string(),
                email: Some("a@b.c".to_string()),
                avatar: None,
            }),
            None => Err(SyncError::Network("no session".to_string())),
        }
    }

    fn fetch_projects(&mut self, _token: &str) -> Result<Vec<RemoteProject>, SyncError> {
        self.calls += 1;
        if self.fail_projects {
            return Err(SyncError::Network("down".to_string()));
        }
        Ok(self
            .projects
            .iter()
            .map(|(id, name, desc, sv)| RemoteProject {
                id: id.clone(),
                name: name.clone(),
                description: desc.clone(),
                server_version: *sv,
            })
            .collect())
    }

    fn upsert_project(
        &mut self,
        record: &ProjectPushRecord,
        _token: &str,
    ) -> Result<ProjectAck, SyncError> {
        self.calls += 1;
        self.upsert_calls += 1;
        let id = if self.ack_wrong_id {
            "someone-else".to_string()
        } else {
            record.id.clone()
        };
        Ok(ProjectAck {
            id,
            server_version: self.ack_version,
        })
    }

    fn fetch_accounts(&mut self, _token: &str) -> Result<Vec<RemoteAccount>, SyncError> {
        self.calls += 1;
        Ok(self
            .accounts
            .iter()
            .map(|(id, project_id, platform, account_id)| RemoteAccount {
                id: id.clone(),
                user_id: "u1".to_string(),
                project_id: project_id.clone(),
                platform: platform.clone(),
                account_id: account_id.clone(),
                account_name: Some("acct".to_string()),
                avatar_url: None,
                followers_count: Some(10),
                following_count: None,
                posts_count: None,
                is_active: None,
                session_valid: None,
                metadata: None,
                is_deleted: false,
                server_version: 1,
            })
            .collect())
    }

    fn upsert_account(
        &mut self,
        record: &AccountPushRecord,
        _token: &str,
    ) -> Result<AccountAck, SyncError> {
        self.calls += 1;
        self.upsert_calls += 1;
        Ok(AccountAck {
            id: record.id.clone(),
            project_id: record.project_id.clone(),
            server_version: self.ack_version,
        })
    }

    fn fetch_project_topics(
        &mut self,
        _project_id: &str,
        _token: &str,
    ) -> Result<Vec<RemoteTopic>, SyncError> {
        self.calls += 1;
        Ok(self
            .topics
            .iter()
            .map(|(id, title)| RemoteTopic {
                id: id.clone(),
                title: title.clone(),
                payload: "{}".to_string(),
                batch_date: None,
                source_uid: None,
                status: 0,
                server_version: 1,
                is_deleted: false,
            })
            .collect())
    }

    fn upsert_project_topics(
        &mut self,
        _project_id: &str,
        records: &Vec<TopicPushRecord>,
        _token: &str,
    ) -> Result<Vec<TopicAck>, SyncError> {
        self.calls += 1;
        self.upsert_calls += 1;
        Ok(records
            .iter()
            .map(|r| TopicAck {
                id: r.id.clone(),
                server_version: self.ack_version,
            })
            .collect())
    }
}

fn draft_project() -> CreateProject {
    CreateProject {
        name: "Draft".to_string(),
        description: None,
        industry: None,
        sub_industries: None,
        brand_name: None,
        brand_tone: None,
        brand_keywords: None,
        topics: None,
        keywords: None,
    }
}

fn engine_with_all_providers() -> SyncEngine {
    let mut engine = SyncEngine::new();
    engine.register_provider(ProviderKind::User);
    engine.register_provider(ProviderKind::Project);
    engine.register_provider(ProviderKind::PlatformAccount);
    engine.register_provider(ProviderKind::ProjectTopic);
    engine
}

#[test]
fn registration_is_idempotent_per_kind() {
    let mut engine = SyncEngine::new();
    engine.register_provider(ProviderKind::User);
    engine.register_provider(ProviderKind::Project);
    engine.register_provider(ProviderKind::User);
    assert_eq!(engine.providers.len(), 2);
    assert_eq!(engine.providers[0], ProviderKind::User);
    assert_eq!(engine.providers[1], ProviderKind::Project);
}

#[test]
fn successful_pass_stamps_sync_time() {
    let mut engine = engine_with_all_providers();
    let mut repo = Repository::new();
    let mut remote = ScriptedRemote::new();
    remote.user_uuid = Some("u1".to_string());
    remote.projects = vec![("p1".to_string(), "Remote".to_string(), None, 3)];
    let r = engine.start_sync_at(&mut remote, &mut repo, "u1", "tok", 1000);
    assert!(r.is_ok());
    let status = engine.get_status();
    assert!(!status.is_syncing);
    assert_eq!(status.last_sync_time, Some(1000));
    assert_eq!(status.last_error, None);
    let p = repo.get_project("p1").unwrap();
    assert_eq!(p.name, "Remote");
    assert_eq!(p.server_version, 3);
    assert_eq!(p.sync_status, SyncStatus::Synced);
}

#[test]
fn single_flight_suppresses_second_pass() {
    let mut engine = engine_with_all_providers();
    let mut repo = Repository::new();
    let mut remote = ScriptedRemote::new();
    remote.user_uuid = Some("u1".to_string());
    // A pass is in flight: the guard is held.
    assert!(engine.begin_pass());
    let r = engine.start_sync_at(&mut remote, &mut repo, "u1", "tok", 1000);
    assert!(r.is_ok());
    // No network sequence happened at all.
    assert_eq!(remote.calls, 0);
    assert!(engine.get_status().is_syncing);
}

#[test]
fn failed_provider_does_not_abort_the_pass() {
    let mut engine = engine_with_all_providers();
    let mut repo = Repository::new();
    let mut remote = ScriptedRemote::new();
    remote.user_uuid = Some("u1".to_string());
    remote.fail_projects = true;
    remote.accounts = vec![(
        "a1".to_string(),
        "p9".to_string(),
        "weibo".to_string(),
        "acct-1".to_string(),
    )];
    let r = engine.start_sync_at(&mut remote, &mut repo, "u1", "tok", 1000);
    let msg = r.unwrap_err();
    assert_eq!(msg, "pull failed for Project: network error: down");
    // The user provider's changes persist.
    assert_eq!(repo.get_user().unwrap().email, Some("a@b.c".to_string()));
    // The account provider still ran and applied its pull.
    assert!(repo.get_platform_account("a1").is_some());
    let status = engine.get_status();
    assert!(!status.is_syncing);
    assert_eq!(status.last_error, Some(msg));
    assert_eq!(status.last_sync_time, None);
}

#[test]
fn error_is_cleared_by_the_next_clean_pass() {
    let mut engine = engine_with_all_providers();
    let mut repo = Repository::new();
    let mut remote = ScriptedRemote::new();
    remote.user_uuid = Some("u1".to_string());
    remote.fail_projects = true;
    assert!(engine
        .start_sync_at(&mut remote, &mut repo, "u1", "tok", 1000)
        .is_err());
    remote.fail_projects = false;
    let r = engine.start_sync_at(&mut remote, &mut repo, "u1", "tok", 2000);
    assert!(r.is_ok());
    let status = engine.get_status();
    assert_eq!(status.last_error, None);
    assert_eq!(status.last_sync_time, Some(2000));
}

#[test]
fn wall_clock_pass_reports_a_sync_time() {
    let mut engine = engine_with_all_providers();
    let mut repo = Repository::new();
    let mut remote = ScriptedRemote::new();
    remote.user_uuid = Some("u1".to_string());
    let r = engine.start_sync(&mut remote, &mut repo, "u1", "tok");
    assert!(r.is_ok());
    assert!(engine.get_status().last_sync_time.is_some());
}

#[test]
fn account_pull_provisions_missing_project() {
    let mut repo = Repository::new();
    let acc = RemoteAccount {
        id: "a1".to_string(),
        user_id: "u1".to_string(),
        project_id: "p-missing".to_string(),
        platform: "weibo".to_string(),
        account_id: "acct-1".to_string(),
        account_name: None,
        avatar_url: None,
        followers_count: None,
        following_count: None,
        posts_count: None,
        is_active: None,
        session_valid: None,
        metadata: None,
        is_deleted: false,
        server_version: 1,
    };
    AccountProvider::apply_pull_record(&mut repo, &acc, "u1", 500);
    // The account landed, and its parent was provisioned as a placeholder.
    assert!(repo.get_platform_account("a1").is_some());
    let placeholder = repo.get_project("p-missing").unwrap();
    assert_eq!(placeholder.name, "Default Project");
    assert_eq!(placeholder.sync_status, SyncStatus::Pending);
    // The placeholder's own user was provisioned too.
    assert!(repo.get_user().is_some());
}

#[test]
fn push_confirms_and_second_push_makes_no_call() {
    let mut repo = Repository::new();
    repo.ensure_user_exists("u1", 100);
    let p = repo.create_project("u1", &draft_project(), 200).unwrap();
    let mut remote = ScriptedRemote::new();
    let provider = ProjectProvider;
    let r = provider.push(&mut remote, &mut repo, "u1", "tok", 300);
    assert!(r.is_ok());
    assert_eq!(remote.upsert_calls, 1);
    let got = repo.get_project(&p.id).unwrap();
    assert_eq!(got.sync_status, SyncStatus::Synced);
    assert_eq!(got.server_version, 1);
    // Nothing is pending any more: a repeated push stays off the network.
    let r2 = provider.push(&mut remote, &mut repo, "u1", "tok", 400);
    assert!(r2.is_ok());
    assert_eq!(remote.upsert_calls, 1);
}

#[test]
fn lifecycle_create_push_edit() {
    let mut repo = Repository::new();
    repo.ensure_user_exists("u1", 100);
    let p = repo.create_project("u1", &draft_project(), 200).unwrap();
    assert_eq!(p.local_version, 1);
    assert_eq!(p.sync_status, SyncStatus::Pending);
    let mut remote = ScriptedRemote::new();
    remote.ack_version = 1;
    let provider = ProjectProvider;
    provider.push(&mut remote, &mut repo, "u1", "tok", 300).unwrap();
    let synced = repo.get_project(&p.id).unwrap();
    assert_eq!(synced.sync_status, SyncStatus::Synced);
    assert_eq!(synced.server_version, 1);
    assert_eq!(synced.local_version, 1);
    let update = flowsync::model::UpdateProject {
        name: Some("Edited".to_string()),
        description: None,
        industry: None,
        sub_industries: None,
        brand_name: None,
        brand_tone: None,
        brand_keywords: None,
        topics: None,
        keywords: None,
        account_tags: None,
        preferred_platforms: None,
        content_style: None,
    };
    repo.update_project(&p.id, &update, 400);
    let edited = repo.get_project(&p.id).unwrap();
    assert_eq!(edited.local_version, 2);
    assert_eq!(edited.sync_status, SyncStatus::Pending);
    assert_eq!(edited.server_version, 1);
}

#[test]
fn user_pull_applies_identity_record() {
    let mut repo = Repository::new();
    let mut remote = ScriptedRemote::new();
    remote.user_uuid = Some("u1".to_string());
    let provider = UserProvider;
    let r = provider.pull(&mut remote, &mut repo, "u1", "tok", 500);
    assert!(r.is_ok());
    let u = repo.get_user().unwrap();
    assert_eq!(u.id, "u1");
    assert_eq!(u.username, Some("alice".to_string()));
}

#[test]
fn topic_pull_skips_blank_ids() {
    let mut repo = Repository::new();
    repo.ensure_project_exists("p1", "u1", 100);
    let mut remote = ScriptedRemote::new();
    remote.topics = vec![
        ("  ".to_string(), "Blank".to_string()),
        ("t1".to_string(), "Real".to_string()),
    ];
    // Drive the per-project application directly with the fetched batch.
    let items = remote.fetch_project_topics("p1", "tok").unwrap();
    ProjectTopicProvider::apply_pull(&mut repo, "u1", "p1", &items, 200);
    assert!(repo.get_project_topic("t1").is_some());
    assert_eq!(repo.list_pending_project_topics("p1").len(), 0);
}

#[test]
fn topic_push_confirms_pending_rows() {
    let mut repo = Repository::new();
    repo.ensure_project_exists("p1", "u1", 100);
    // The placeholder project is live, so listings see it.
    let t = repo
        .create_project_topic("u1", "p1", "Mine", "{}", 200)
        .unwrap();
    let mut remote = ScriptedRemote::new();
    remote.ack_version = 5;
    let provider = ProjectTopicProvider;
    let r = provider.push(&mut remote, &mut repo, "u1", "tok", 300);
    assert!(r.is_ok());
    let got = repo.get_project_topic(&t.id).unwrap();
    assert_eq!(got.sync_status, SyncStatus::Synced);
    assert_eq!(got.server_version, 5);
}

#[test]
fn push_record_decodes_stored_lists() {
    let mut repo = Repository::new();
    repo.ensure_user_exists("u1", 100);
    let mut data = draft_project();
    data.keywords = Some(vec!["ai".to_string(), "writing".to_string()]);
    let p = repo.create_project("u1", &data, 200).unwrap();
    let record = ProjectPushRecord::from_project(&p);
    assert_eq!(record.keywords, vec!["ai".to_string(), "writing".to_string()]);
    assert_eq!(record.sub_industries, Vec::<String>::new());
    assert_eq!(record.name, "Draft");
}

#[test]
fn generated_ids_are_distinct() {
    let mut repo = Repository::new();
    repo.ensure_user_exists("u1", 100);
    let a = repo.create_project("u1", &draft_project(), 200).unwrap();
    let b = repo.create_project("u1", &draft_project(), 201).unwrap();
    assert_ne!(a.id, b.id);
}

#[test]
fn mismatched_confirmation_leaves_the_row_pending() {
    let mut repo = Repository::new();
    repo.ensure_user_exists("u1", 100);
    let p = repo.create_project("u1", &draft_project(), 200).unwrap();
    let mut remote = ScriptedRemote::new();
    remote.ack_wrong_id = true;
    let provider = ProjectProvider;
    let r = provider.push(&mut remote, &mut repo, "u1", "tok", 300);
    assert!(r.is_err());
    // The rejected record stays pending, to be retried by a later pass.
    let got = repo.get_project(&p.id).unwrap();
    assert_eq!(got.sync_status, SyncStatus::Pending);
    assert_eq!(got.server_version, 0);
    assert_eq!(repo.list_pending_projects("u1").len(), 1);
}

#[test]
fn empty_registry_pass_succeeds() {
    let mut engine = SyncEngine::new();
    let mut repo = Repository::new();
    let mut remote = ScriptedRemote::new();
    let r = engine.start_sync_at(&mut remote, &mut repo, "u1", "tok", 1000);
    assert!(r.is_ok());
    assert_eq!(remote.calls, 0);
    assert_eq!(engine.get_status().last_sync_time, Some(1000));
}
