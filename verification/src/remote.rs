//! The remote collaborator's data, as plain values, and the narrow capability
//! the sync layer depends on: typed fetches and idempotent upserts carrying a
//! bearer credential. Transport, decoding and retry policy live behind the
//! implementation of `RemoteService`, outside this library's concern.

use vstd::prelude::*;
use vstd::string::StrSliceExecFns;

use crate::errors::SyncError;
use crate::model::{PlatformAccount, Project, ProjectTopic};
use crate::store::opt_str_view;
use crate::trusted::parsed_string_list;

verus! {

/// The authoritative identity record of the signed-in user.
#[derive(Debug)]
pub struct RemoteUser {
    pub id: i64,
    pub uuid: String,
    pub username: String,
    pub nickname: String,
    pub email: Option<String>,
    pub avatar: Option<String>,
}

pub ghost struct RemoteUserModel {
    pub id: i64,
    pub uuid: Seq<char>,
    pub username: Seq<char>,
    pub nickname: Seq<char>,
    pub email: Option<Seq<char>>,
    pub avatar: Option<Seq<char>>,
}

impl View for RemoteUser {
    type V = RemoteUserModel;

    open spec fn view(&self) -> RemoteUserModel {
        RemoteUserModel {
            id: self.id,
            uuid: self.uuid@,
            username: self.username@,
            nickname: self.nickname@,
            email: self.email.deep_view(),
            avatar: self.avatar.deep_view(),
        }
    }
}

/// One authoritative project record.
#[derive(Debug)]
pub struct RemoteProject {
    pub id: String,
    pub name: String,
    pub description: Option<String>,
    pub server_version: i64,
}

pub ghost struct RemoteProjectModel {
    pub id: Seq<char>,
    pub name: Seq<char>,
    pub description: Option<Seq<char>>,
    pub server_version: i64,
}

impl View for RemoteProject {
    type V = RemoteProjectModel;

    open spec fn view(&self) -> RemoteProjectModel {
        RemoteProjectModel {
            id: self.id@,
            name: self.name@,
            description: self.description.deep_view(),
            server_version: self.server_version,
        }
    }
}

/// One authoritative platform-account record.
#[derive(Debug)]
pub struct RemoteAccount {
    pub id: String,
    pub user_id: String,
    pub project_id: String,
    pub platform: String,
    pub account_id: String,
    pub account_name: Option<String>,
    pub avatar_url: Option<String>,
    pub followers_count: Option<i64>,
    pub following_count: Option<i64>,
    pub posts_count: Option<i64>,
    pub is_active: Option<bool>,
    pub session_valid: Option<bool>,
    pub metadata: Option<String>,
    pub is_deleted: bool,
    pub server_version: i64,
}

pub ghost struct RemoteAccountModel {
    pub id: Seq<char>,
    pub user_id: Seq<char>,
    pub project_id: Seq<char>,
    pub platform: Seq<char>,
    pub account_id: Seq<char>,
    pub account_name: Option<Seq<char>>,
    pub avatar_url: Option<Seq<char>>,
    pub followers_count: Option<i64>,
    pub following_count: Option<i64>,
    pub posts_count: Option<i64>,
    pub is_active: Option<bool>,
    pub session_valid: Option<bool>,
    pub metadata: Option<Seq<char>>,
    pub is_deleted: bool,
    pub server_version: i64,
}

impl View for RemoteAccount {
    type V = RemoteAccountModel;

    open spec fn view(&self) -> RemoteAccountModel {
        RemoteAccountModel {
            id: self.id@,
            user_id: self.user_id@,
            project_id: self.project_id@,
            platform: self.platform@,
            account_id: self.account_id@,
            account_name: self.account_name.deep_view(),
            avatar_url: self.avatar_url.deep_view(),
            followers_count: self.followers_count,
            following_count: self.following_count,
            posts_count: self.posts_count,
            is_active: self.is_active,
            session_valid: self.session_valid,
            metadata: self.metadata.deep_view(),
            is_deleted: self.is_deleted,
            server_version: self.server_version,
        }
    }
}

/// One authoritative project-topic record; `payload` carries its full JSON
/// text opaquely.
#[derive(Debug)]
pub struct RemoteTopic {
    pub id: String,
    pub title: String,
    pub payload: String,
    pub batch_date: Option<String>,
    pub source_uid: Option<String>,
    pub status: i64,
    pub server_version: i64,
    pub is_deleted: bool,
}

pub ghost struct RemoteTopicModel {
    pub id: Seq<char>,
    pub title: Seq<char>,
    pub payload: Seq<char>,
    pub batch_date: Option<Seq<char>>,
    pub source_uid: Option<Seq<char>>,
    pub status: i64,
    pub server_version: i64,
    pub is_deleted: bool,
}

impl View for RemoteTopic {
    type V = RemoteTopicModel;

    open spec fn view(&self) -> RemoteTopicModel {
        RemoteTopicModel {
            id: self.id@,
            title: self.title@,
            payload: self.payload@,
            batch_date: self.batch_date.deep_view(),
            source_uid: self.source_uid.deep_view(),
            status: self.status,
            server_version: self.server_version,
            is_deleted: self.is_deleted,
        }
    }
}

/// The body of an idempotent project upsert: stored JSON list fields travel
/// as decoded lists.
#[derive(Debug)]
pub struct ProjectPushRecord {
    pub id: String,
    pub name: String,
    pub description: Option<String>,
    pub industry: Option<String>,
    pub sub_industries: Vec<String>,
    pub brand_name: Option<String>,
    pub brand_tone: Option<String>,
    pub brand_keywords: Vec<String>,
    pub topics: Vec<String>,
    pub keywords: Vec<String>,
    pub account_tags: Vec<String>,
    pub preferred_platforms: Vec<String>,
    pub content_style: Option<String>,
}

pub ghost struct ProjectPushRecordModel {
    pub id: Seq<char>,
    pub name: Seq<char>,
    pub description: Option<Seq<char>>,
    pub industry: Option<Seq<char>>,
    pub sub_industries: Seq<Seq<char>>,
    pub brand_name: Option<Seq<char>>,
    pub brand_tone: Option<Seq<char>>,
    pub brand_keywords: Seq<Seq<char>>,
    pub topics: Seq<Seq<char>>,
    pub keywords: Seq<Seq<char>>,
    pub account_tags: Seq<Seq<char>>,
    pub preferred_platforms: Seq<Seq<char>>,
    pub content_style: Option<Seq<char>>,
}

impl View for ProjectPushRecord {
    type V = ProjectPushRecordModel;

    open spec fn view(&self) -> ProjectPushRecordModel {
        ProjectPushRecordModel {
            id: self.id@,
            name: self.name@,
            description: self.description.deep_view(),
            industry: self.industry.deep_view(),
            sub_industries: self.sub_industries.deep_view(),
            brand_name: self.brand_name.deep_view(),
            brand_tone: self.brand_tone.deep_view(),
            brand_keywords: self.brand_keywords.deep_view(),
            topics: self.topics.deep_view(),
            keywords: self.keywords.deep_view(),
            account_tags: self.account_tags.deep_view(),
            preferred_platforms: self.preferred_platforms.deep_view(),
            content_style: self.content_style.deep_view(),
        }
    }
}

/// The body of an idempotent account upsert.
#[derive(Debug)]
pub struct AccountPushRecord {
    pub id: String,
    pub project_id: String,
    pub platform: String,
    pub account_id: String,
    pub account_name: Option<String>,
    pub avatar_url: Option<String>,
    pub followers_count: i64,
    pub following_count: i64,
    pub posts_count: i64,
    pub is_active: bool,
    pub session_valid: bool,
    pub metadata: Option<String>,
    pub is_deleted: bool,
}

pub ghost struct AccountPushRecordModel {
    pub id: Seq<char>,
    pub project_id: Seq<char>,
    pub platform: Seq<char>,
    pub account_id: Seq<char>,
    pub account_name: Option<Seq<char>>,
    pub avatar_url: Option<Seq<char>>,
    pub followers_count: i64,
    pub following_count: i64,
    pub posts_count: i64,
    pub is_active: bool,
    pub session_valid: bool,
    pub metadata: Option<Seq<char>>,
    pub is_deleted: bool,
}

impl View for AccountPushRecord {
    type V = AccountPushRecordModel;

    open spec fn view(&self) -> AccountPushRecordModel {
        AccountPushRecordModel {
            id: self.id@,
            project_id: self.project_id@,
            platform: self.platform@,
            account_id: self.account_id@,
            account_name: self.account_name.deep_view(),
            avatar_url: self.avatar_url.deep_view(),
            followers_count: self.followers_count,
            following_count: self.following_count,
            posts_count: self.posts_count,
            is_active: self.is_active,
            session_valid: self.session_valid,
            metadata: self.metadata.deep_view(),
            is_deleted: self.is_deleted,
        }
    }
}

/// One topic row of a batched topic upsert; the authoritative identity and
/// status fields override whatever the payload text carries.
#[derive(Debug)]
pub struct TopicPushRecord {
    pub id: String,
    pub title: String,
    pub payload: String,
    pub batch_date: Option<String>,
    pub source_uid: Option<String>,
    pub status: i64,
    pub is_deleted: bool,
}

pub ghost struct TopicPushRecordModel {
    pub id: Seq<char>,
    pub title: Seq<char>,
    pub payload: Seq<char>,
    pub batch_date: Option<Seq<char>>,
    pub source_uid: Option<Seq<char>>,
    pub status: i64,
    pub is_deleted: bool,
}

impl View for TopicPushRecord {
    type V = TopicPushRecordModel;

    open spec fn view(&self) -> TopicPushRecordModel {
        TopicPushRecordModel {
            id: self.id@,
            title: self.title@,
            payload: self.payload@,
            batch_date: self.batch_date.deep_view(),
            source_uid: self.source_uid.deep_view(),
            status: self.status,
            is_deleted: self.is_deleted,
        }
    }
}

/// Remote confirmation of a project upsert.
#[derive(Debug)]
pub struct ProjectAck {
    pub id: String,
    pub server_version: i64,
}

pub ghost struct ProjectAckModel {
    pub id: Seq<char>,
    pub server_version: i64,
}

impl View for ProjectAck {
    type V = ProjectAckModel;

    open spec fn view(&self) -> ProjectAckModel {
        ProjectAckModel { id: self.id@, server_version: self.server_version }
    }
}

/// Remote confirmation of an account upsert.
#[derive(Debug)]
pub struct AccountAck {
    pub id: String,
    pub project_id: String,
    pub server_version: i64,
}

pub ghost struct AccountAckModel {
    pub id: Seq<char>,
    pub project_id: Seq<char>,
    pub server_version: i64,
}

impl View for AccountAck {
    type V = AccountAckModel;

    open spec fn view(&self) -> AccountAckModel {
        AccountAckModel {
            id: self.id@,
            project_id: self.project_id@,
            server_version: self.server_version,
        }
    }
}

/// Remote confirmation of one topic row in a batched upsert.
#[derive(Debug)]
pub struct TopicAck {
    pub id: String,
    pub server_version: i64,
}

pub ghost struct TopicAckModel {
    pub id: Seq<char>,
    pub server_version: i64,
}

impl View for TopicAck {
    type V = TopicAckModel;

    open spec fn view(&self) -> TopicAckModel {
        TopicAckModel { id: self.id@, server_version: self.server_version }
    }
}

/// The abstract remote capability the sync layer runs against: typed fetches
/// and idempotent upserts under a bearer credential. Implementations decide
/// transport, decoding, timeouts and retries; nothing is assumed of their
/// answers, so every caller here is verified for every possible answer.
pub trait RemoteService {
    fn fetch_current_user(&mut self, token: &str) -> Result<RemoteUser, SyncError>;

    fn fetch_projects(&mut self, token: &str) -> Result<Vec<RemoteProject>, SyncError>;

    fn upsert_project(&mut self, record: &ProjectPushRecord, token: &str) -> Result<
        ProjectAck,
        SyncError,
    >;

    fn fetch_accounts(&mut self, token: &str) -> Result<Vec<RemoteAccount>, SyncError>;

    fn upsert_account(&mut self, record: &AccountPushRecord, token: &str) -> Result<
        AccountAck,
        SyncError,
    >;

    fn fetch_project_topics(&mut self, project_id: &str, token: &str) -> Result<
        Vec<RemoteTopic>,
        SyncError,
    >;

    fn upsert_project_topics(
        &mut self,
        project_id: &str,
        records: &Vec<TopicPushRecord>,
        token: &str,
    ) -> Result<Vec<TopicAck>, SyncError>;
}

/// The decoded form of a stored JSON list field: absent or undecodable text
/// reads as the empty list.
pub open spec fn parsed_or_empty(o: Option<Seq<char>>) -> Seq<Seq<char>> {
    match o {
        Some(s) => match parsed_string_list(s) {
            Some(l) => l,
            None => Seq::empty(),
        },
        None => Seq::empty(),
    }
}

/// Decodes a stored JSON list field, reading absent or undecodable text as
/// the empty list.
pub fn parse_list_or_empty(o: &Option<String>) -> (r: Vec<String>)
    ensures
        r.deep_view() == parsed_or_empty(o.deep_view()),
{
    match o {
        Some(s) => match crate::trusted::parse_string_list(s.as_str()) {
            Some(v) => v,
            None => Vec::new(),
        },
        None => Vec::new(),
    }
}

/// The push body of one project row.
pub open spec fn project_push_record_of(p: crate::model::ProjectModel) -> ProjectPushRecordModel {
    ProjectPushRecordModel {
        id: p.id,
        name: p.name,
        description: p.description,
        industry: p.industry,
        sub_industries: parsed_or_empty(p.sub_industries),
        brand_name: p.brand_name,
        brand_tone: p.brand_tone,
        brand_keywords: parsed_or_empty(p.brand_keywords),
        topics: parsed_or_empty(p.topics),
        keywords: parsed_or_empty(p.keywords),
        account_tags: parsed_or_empty(p.account_tags),
        preferred_platforms: parsed_or_empty(p.preferred_platforms),
        content_style: p.content_style,
    }
}

impl ProjectPushRecord {
    /// Builds the push body of one pending project row.
    pub fn from_project(p: &Project) -> (r: ProjectPushRecord)
        ensures
            r@ == project_push_record_of(p@),
    {
        ProjectPushRecord {
            id: p.id.clone(),
            name: p.name.clone(),
            description: crate::model::clone_opt_string(&p.description),
            industry: crate::model::clone_opt_string(&p.industry),
            sub_industries: parse_list_or_empty(&p.sub_industries),
            brand_name: crate::model::clone_opt_string(&p.brand_name),
            brand_tone: crate::model::clone_opt_string(&p.brand_tone),
            brand_keywords: parse_list_or_empty(&p.brand_keywords),
            topics: parse_list_or_empty(&p.topics),
            keywords: parse_list_or_empty(&p.keywords),
            account_tags: parse_list_or_empty(&p.account_tags),
            preferred_platforms: parse_list_or_empty(&p.preferred_platforms),
            content_style: crate::model::clone_opt_string(&p.content_style),
        }
    }
}

/// The push body of one account row.
pub open spec fn account_push_record_of(
    a: crate::model::PlatformAccountModel,
) -> AccountPushRecordModel {
    AccountPushRecordModel {
        id: a.id,
        project_id: a.project_id,
        platform: a.platform,
        account_id: a.account_id,
        account_name: a.account_name,
        avatar_url: a.avatar_url,
        followers_count: a.followers_count,
        following_count: a.following_count,
        posts_count: a.posts_count,
        is_active: a.is_active,
        session_valid: a.session_valid,
        metadata: a.metadata,
        is_deleted: a.is_deleted,
    }
}

impl AccountPushRecord {
    /// Builds the push body of one pending account row.
    pub fn from_account(a: &PlatformAccount) -> (r: AccountPushRecord)
        ensures
            r@ == account_push_record_of(a@),
    {
        AccountPushRecord {
            id: a.id.clone(),
            project_id: a.project_id.clone(),
            platform: a.platform.clone(),
            account_id: a.account_id.clone(),
            account_name: crate::model::clone_opt_string(&a.account_name),
            avatar_url: crate::model::clone_opt_string(&a.avatar_url),
            followers_count: a.followers_count,
            following_count: a.following_count,
            posts_count: a.posts_count,
            is_active: a.is_active,
            session_valid: a.session_valid,
            metadata: crate::model::clone_opt_string(&a.metadata),
            is_deleted: a.is_deleted,
        }
    }
}

/// The push body of one topic row: the stored payload text plus the
/// authoritative identity and status fields that override it.
pub open spec fn topic_push_record_of(t: crate::model::ProjectTopicModel) -> TopicPushRecordModel {
    TopicPushRecordModel {
        id: t.id,
        title: t.title,
        payload: t.payload,
        batch_date: t.batch_date,
        source_uid: t.source_uid,
        status: t.status,
        is_deleted: t.is_deleted,
    }
}

impl TopicPushRecord {
    /// Builds the push body of one pending topic row.
    pub fn from_topic(t: &ProjectTopic) -> (r: TopicPushRecord)
        ensures
            r@ == topic_push_record_of(t@),
    {
        TopicPushRecord {
            id: t.id.clone(),
            title: t.title.clone(),
            payload: t.payload.clone(),
            batch_date: crate::model::clone_opt_string(&t.batch_date),
            source_uid: crate::model::clone_opt_string(&t.source_uid),
            status: t.status,
            is_deleted: t.is_deleted,
        }
    }
}

pub open spec fn is_space_char(c: char) -> bool {
    c == ' ' || c == '\t' || c == '\n' || c == '\r'
}

/// A text that holds nothing but whitespace (the empty text included).
pub open spec fn blank_text(s: Seq<char>) -> bool {
    forall|i: int| 0 <= i < s.len() ==> is_space_char(#[trigger] s[i])
}

/// Whether a string holds nothing but whitespace.
pub fn is_blank(s: &str) -> (r: bool)
    ensures
        r == blank_text(s@),
{
    let n = s.unicode_len();
    let mut i: usize = 0;
    while i < n
        invariant
            i <= n,
            n as nat == s@.len(),
            forall|k: int| 0 <= k < i ==> is_space_char(#[trigger] s@[k]),
        decreases n - i,
    {
        let c = s.get_char(i);
        if !(c == ' ' || c == '\t' || c == '\n' || c == '\r') {
            return false;
        }
        i = i + 1;
    }
    true
}

/// A borrowed view of an optional owned string.
pub fn opt_as_str(o: &Option<String>) -> (r: Option<&str>)
    ensures
        opt_str_view(r) == o.deep_view(),
{
    match o {
        Some(s) => Some(s.as_str()),
        None => None,
    }
}

} // verus!
