//! Entity types held by the local store, their mathematical models, and the
//! request types for user-driven mutations.
//!
//! Every entity row carries the version and status bookkeeping described by
//! the store's invariants: `local_version` counts local mutations,
//! `server_version` is the remote authority's counter, and `sync_status`
//! tracks reconciliation state. Deletion is soft for history-carrying types.

use vstd::prelude::*;

use crate::status::SyncStatus;

verus! {

/// Clones an optional string, preserving the value exactly.
pub fn clone_opt_string(o: &Option<String>) -> (r: Option<String>)
    ensures
        r == *o,
{
    match o {
        Some(s) => Some(s.clone()),
        None => None,
    }
}

/// The local account owner. Users are mirrors of remote identity and carry
/// no local-version bookkeeping: they are never mutated offline.
#[derive(Debug)]
pub struct User {
    pub id: String,
    pub email: Option<String>,
    pub phone: Option<String>,
    pub username: Option<String>,
    pub nickname: Option<String>,
    pub avatar: Option<String>,
    pub status: i64,
    pub is_superuser: bool,
    pub is_staff: bool,
    pub subscription_tier: String,
    pub settings: Option<String>,
    pub synced_at: Option<i64>,
    pub server_version: i64,
    pub created_at: i64,
    pub updated_at: i64,
}

pub ghost struct UserModel {
    pub id: Seq<char>,
    pub email: Option<Seq<char>>,
    pub phone: Option<Seq<char>>,
    pub username: Option<Seq<char>>,
    pub nickname: Option<Seq<char>>,
    pub avatar: Option<Seq<char>>,
    pub status: i64,
    pub is_superuser: bool,
    pub is_staff: bool,
    pub subscription_tier: Seq<char>,
    pub settings: Option<Seq<char>>,
    pub synced_at: Option<i64>,
    pub server_version: i64,
    pub created_at: i64,
    pub updated_at: i64,
}

impl View for User {
    type V = UserModel;

    open spec fn view(&self) -> UserModel {
        UserModel {
            id: self.id@,
            email: self.email.deep_view(),
            phone: self.phone.deep_view(),
            username: self.username.deep_view(),
            nickname: self.nickname.deep_view(),
            avatar: self.avatar.deep_view(),
            status: self.status,
            is_superuser: self.is_superuser,
            is_staff: self.is_staff,
            subscription_tier: self.subscription_tier@,
            settings: self.settings.deep_view(),
            synced_at: self.synced_at,
            server_version: self.server_version,
            created_at: self.created_at,
            updated_at: self.updated_at,
        }
    }
}

impl Clone for User {
    fn clone(&self) -> (r: User)
        ensures
            r == *self,
    {
        User {
            id: self.id.clone(),
            email: clone_opt_string(&self.email),
            phone: clone_opt_string(&self.phone),
            username: clone_opt_string(&self.username),
            nickname: clone_opt_string(&self.nickname),
            avatar: clone_opt_string(&self.avatar),
            status: self.status,
            is_superuser: self.is_superuser,
            is_staff: self.is_staff,
            subscription_tier: self.subscription_tier.clone(),
            settings: clone_opt_string(&self.settings),
            synced_at: self.synced_at,
            server_version: self.server_version,
            created_at: self.created_at,
            updated_at: self.updated_at,
        }
    }
}

/// A project: the owner-scoped container every other entity hangs off.
#[derive(Debug)]
pub struct Project {
    pub id: String,
    pub user_id: String,
    pub name: String,
    pub description: Option<String>,
    pub industry: Option<String>,
    pub sub_industries: Option<String>,
    pub brand_name: Option<String>,
    pub brand_tone: Option<String>,
    pub brand_keywords: Option<String>,
    pub topics: Option<String>,
    pub keywords: Option<String>,
    pub account_tags: Option<String>,
    pub preferred_platforms: Option<String>,
    pub content_style: Option<String>,
    pub settings: Option<String>,
    pub is_default: bool,
    pub is_deleted: bool,
    pub deleted_at: Option<i64>,
    pub synced_at: Option<i64>,
    pub server_version: i64,
    pub local_version: i64,
    pub sync_status: SyncStatus,
    pub created_at: i64,
    pub updated_at: i64,
    pub cloud_id: Option<i64>,
}

pub ghost struct ProjectModel {
    pub id: Seq<char>,
    pub user_id: Seq<char>,
    pub name: Seq<char>,
    pub description: Option<Seq<char>>,
    pub industry: Option<Seq<char>>,
    pub sub_industries: Option<Seq<char>>,
    pub brand_name: Option<Seq<char>>,
    pub brand_tone: Option<Seq<char>>,
    pub brand_keywords: Option<Seq<char>>,
    pub topics: Option<Seq<char>>,
    pub keywords: Option<Seq<char>>,
    pub account_tags: Option<Seq<char>>,
    pub preferred_platforms: Option<Seq<char>>,
    pub content_style: Option<Seq<char>>,
    pub settings: Option<Seq<char>>,
    pub is_default: bool,
    pub is_deleted: bool,
    pub deleted_at: Option<i64>,
    pub synced_at: Option<i64>,
    pub server_version: i64,
    pub local_version: i64,
    pub sync_status: SyncStatus,
    pub created_at: i64,
    pub updated_at: i64,
    pub cloud_id: Option<i64>,
}

impl View for Project {
    type V = ProjectModel;

    open spec fn view(&self) -> ProjectModel {
        ProjectModel {
            id: self.id@,
            user_id: self.user_id@,
            name: self.name@,
            description: self.description.deep_view(),
            industry: self.industry.deep_view(),
            sub_industries: self.sub_industries.deep_view(),
            brand_name: self.brand_name.deep_view(),
            brand_tone: self.brand_tone.deep_view(),
            brand_keywords: self.brand_keywords.deep_view(),
            topics: self.topics.deep_view(),
            keywords: self.keywords.deep_view(),
            account_tags: self.account_tags.deep_view(),
            preferred_platforms: self.preferred_platforms.deep_view(),
            content_style: self.content_style.deep_view(),
            settings: self.settings.deep_view(),
            is_default: self.is_default,
            is_deleted: self.is_deleted,
            deleted_at: self.deleted_at,
            synced_at: self.synced_at,
            server_version: self.server_version,
            local_version: self.local_version,
            sync_status: self.sync_status,
            created_at: self.created_at,
            updated_at: self.updated_at,
            cloud_id: self.cloud_id,
        }
    }
}

impl Clone for Project {
    fn clone(&self) -> (r: Project)
        ensures
            r == *self,
    {
        Project {
            id: self.id.clone(),
            user_id: self.user_id.clone(),
            name: self.name.clone(),
            description: clone_opt_string(&self.description),
            industry: clone_opt_string(&self.industry),
            sub_industries: clone_opt_string(&self.sub_industries),
            brand_name: clone_opt_string(&self.brand_name),
            brand_tone: clone_opt_string(&self.brand_tone),
            brand_keywords: clone_opt_string(&self.brand_keywords),
            topics: clone_opt_string(&self.topics),
            keywords: clone_opt_string(&self.keywords),
            account_tags: clone_opt_string(&self.account_tags),
            preferred_platforms: clone_opt_string(&self.preferred_platforms),
            content_style: clone_opt_string(&self.content_style),
            settings: clone_opt_string(&self.settings),
            is_default: self.is_default,
            is_deleted: self.is_deleted,
            deleted_at: self.deleted_at,
            synced_at: self.synced_at,
            server_version: self.server_version,
            local_version: self.local_version,
            sync_status: self.sync_status,
            created_at: self.created_at,
            updated_at: self.updated_at,
            cloud_id: self.cloud_id,
        }
    }
}

/// A third-party platform account bound to a project. Pure mirror of remote
/// truth: it may be hard-deleted locally, being reconstructable by a pull.
#[derive(Debug)]
pub struct PlatformAccount {
    pub id: String,
    pub user_id: String,
    pub project_id: String,
    pub platform: String,
    pub account_id: String,
    pub account_name: Option<String>,
    pub avatar_url: Option<String>,
    pub is_active: bool,
    pub session_valid: bool,
    pub last_session_check: Option<i64>,
    pub followers_count: i64,
    pub following_count: i64,
    pub posts_count: i64,
    pub metadata: Option<String>,
    pub last_profile_sync_at: Option<i64>,
    pub is_deleted: bool,
    pub deleted_at: Option<i64>,
    pub synced_at: Option<i64>,
    pub server_version: i64,
    pub local_version: i64,
    pub sync_status: SyncStatus,
    pub created_at: i64,
    pub updated_at: i64,
}

pub ghost struct PlatformAccountModel {
    pub id: Seq<char>,
    pub user_id: Seq<char>,
    pub project_id: Seq<char>,
    pub platform: Seq<char>,
    pub account_id: Seq<char>,
    pub account_name: Option<Seq<char>>,
    pub avatar_url: Option<Seq<char>>,
    pub is_active: bool,
    pub session_valid: bool,
    pub last_session_check: Option<i64>,
    pub followers_count: i64,
    pub following_count: i64,
    pub posts_count: i64,
    pub metadata: Option<Seq<char>>,
    pub last_profile_sync_at: Option<i64>,
    pub is_deleted: bool,
    pub deleted_at: Option<i64>,
    pub synced_at: Option<i64>,
    pub server_version: i64,
    pub local_version: i64,
    pub sync_status: SyncStatus,
    pub created_at: i64,
    pub updated_at: i64,
}

impl View for PlatformAccount {
    type V = PlatformAccountModel;

    open spec fn view(&self) -> PlatformAccountModel {
        PlatformAccountModel {
            id: self.id@,
            user_id: self.user_id@,
            project_id: self.project_id@,
            platform: self.platform@,
            account_id: self.account_id@,
            account_name: self.account_name.deep_view(),
            avatar_url: self.avatar_url.deep_view(),
            is_active: self.is_active,
            session_valid: self.session_valid,
            last_session_check: self.last_session_check,
            followers_count: self.followers_count,
            following_count: self.following_count,
            posts_count: self.posts_count,
            metadata: self.metadata.deep_view(),
            last_profile_sync_at: self.last_profile_sync_at,
            is_deleted: self.is_deleted,
            deleted_at: self.deleted_at,
            synced_at: self.synced_at,
            server_version: self.server_version,
            local_version: self.local_version,
            sync_status: self.sync_status,
            created_at: self.created_at,
            updated_at: self.updated_at,
        }
    }
}

impl Clone for PlatformAccount {
    fn clone(&self) -> (r: PlatformAccount)
        ensures
            r == *self,
    {
        PlatformAccount {
            id: self.id.clone(),
            user_id: self.user_id.clone(),
            project_id: self.project_id.clone(),
            platform: self.platform.clone(),
            account_id: self.account_id.clone(),
            account_name: clone_opt_string(&self.account_name),
            avatar_url: clone_opt_string(&self.avatar_url),
            is_active: self.is_active,
            session_valid: self.session_valid,
            last_session_check: self.last_session_check,
            followers_count: self.followers_count,
            following_count: self.following_count,
            posts_count: self.posts_count,
            metadata: clone_opt_string(&self.metadata),
            last_profile_sync_at: self.last_profile_sync_at,
            is_deleted: self.is_deleted,
            deleted_at: self.deleted_at,
            synced_at: self.synced_at,
            server_version: self.server_version,
            local_version: self.local_version,
            sync_status: self.sync_status,
            created_at: self.created_at,
            updated_at: self.updated_at,
        }
    }
}

/// A project-private topic suggestion; its full remote record is carried
/// opaquely in `payload`.
#[derive(Debug)]
pub struct ProjectTopic {
    pub id: String,
    pub user_id: String,
    pub project_id: String,
    pub title: String,
    pub payload: String,
    pub batch_date: Option<String>,
    pub source_uid: Option<String>,
    pub status: i64,
    pub is_deleted: bool,
    pub deleted_at: Option<i64>,
    pub synced_at: Option<i64>,
    pub server_version: i64,
    pub local_version: i64,
    pub sync_status: SyncStatus,
    pub created_at: i64,
    pub updated_at: i64,
}

pub ghost struct ProjectTopicModel {
    pub id: Seq<char>,
    pub user_id: Seq<char>,
    pub project_id: Seq<char>,
    pub title: Seq<char>,
    pub payload: Seq<char>,
    pub batch_date: Option<Seq<char>>,
    pub source_uid: Option<Seq<char>>,
    pub status: i64,
    pub is_deleted: bool,
    pub deleted_at: Option<i64>,
    pub synced_at: Option<i64>,
    pub server_version: i64,
    pub local_version: i64,
    pub sync_status: SyncStatus,
    pub created_at: i64,
    pub updated_at: i64,
}

impl View for ProjectTopic {
    type V = ProjectTopicModel;

    open spec fn view(&self) -> ProjectTopicModel {
        ProjectTopicModel {
            id: self.id@,
            user_id: self.user_id@,
            project_id: self.project_id@,
            title: self.title@,
            payload: self.payload@,
            batch_date: self.batch_date.deep_view(),
            source_uid: self.source_uid.deep_view(),
            status: self.status,
            is_deleted: self.is_deleted,
            deleted_at: self.deleted_at,
            synced_at: self.synced_at,
            server_version: self.server_version,
            local_version: self.local_version,
            sync_status: self.sync_status,
            created_at: self.created_at,
            updated_at: self.updated_at,
        }
    }
}

impl Clone for ProjectTopic {
    fn clone(&self) -> (r: ProjectTopic)
        ensures
            r == *self,
    {
        ProjectTopic {
            id: self.id.clone(),
            user_id: self.user_id.clone(),
            project_id: self.project_id.clone(),
            title: self.title.clone(),
            payload: self.payload.clone(),
            batch_date: clone_opt_string(&self.batch_date),
            source_uid: clone_opt_string(&self.source_uid),
            status: self.status,
            is_deleted: self.is_deleted,
            deleted_at: self.deleted_at,
            synced_at: self.synced_at,
            server_version: self.server_version,
            local_version: self.local_version,
            sync_status: self.sync_status,
            created_at: self.created_at,
            updated_at: self.updated_at,
        }
    }
}

/// A piece of authored content belonging to a project.
#[derive(Debug)]
pub struct Content {
    pub id: String,
    pub user_id: String,
    pub project_id: String,
    pub title: Option<String>,
    pub content_type: String,
    pub status: String,
    pub text_content: Option<String>,
    pub summary: Option<String>,
    pub media_urls: Option<String>,
    pub cover_url: Option<String>,
    pub tags: Option<String>,
    pub keywords: Option<String>,
    pub word_count: i64,
    pub read_time_minutes: i64,
    pub ai_generated: bool,
    pub generation_params: Option<String>,
    pub version: i64,
    pub parent_id: Option<String>,
    pub is_deleted: bool,
    pub deleted_at: Option<i64>,
    pub synced_at: Option<i64>,
    pub server_version: i64,
    pub local_version: i64,
    pub sync_status: SyncStatus,
    pub created_at: i64,
    pub updated_at: i64,
}

pub ghost struct ContentModel {
    pub id: Seq<char>,
    pub user_id: Seq<char>,
    pub project_id: Seq<char>,
    pub title: Option<Seq<char>>,
    pub content_type: Seq<char>,
    pub status: Seq<char>,
    pub text_content: Option<Seq<char>>,
    pub summary: Option<Seq<char>>,
    pub media_urls: Option<Seq<char>>,
    pub cover_url: Option<Seq<char>>,
    pub tags: Option<Seq<char>>,
    pub keywords: Option<Seq<char>>,
    pub word_count: i64,
    pub read_time_minutes: i64,
    pub ai_generated: bool,
    pub generation_params: Option<Seq<char>>,
    pub version: i64,
    pub parent_id: Option<Seq<char>>,
    pub is_deleted: bool,
    pub deleted_at: Option<i64>,
    pub synced_at: Option<i64>,
    pub server_version: i64,
    pub local_version: i64,
    pub sync_status: SyncStatus,
    pub created_at: i64,
    pub updated_at: i64,
}

impl View for Content {
    type V = ContentModel;

    open spec fn view(&self) -> ContentModel {
        ContentModel {
            id: self.id@,
            user_id: self.user_id@,
            project_id: self.project_id@,
            title: self.title.deep_view(),
            content_type: self.content_type@,
            status: self.status@,
            text_content: self.text_content.deep_view(),
            summary: self.summary.deep_view(),
            media_urls: self.media_urls.deep_view(),
            cover_url: self.cover_url.deep_view(),
            tags: self.tags.deep_view(),
            keywords: self.keywords.deep_view(),
            word_count: self.word_count,
            read_time_minutes: self.read_time_minutes,
            ai_generated: self.ai_generated,
            generation_params: self.generation_params.deep_view(),
            version: self.version,
            parent_id: self.parent_id.deep_view(),
            is_deleted: self.is_deleted,
            deleted_at: self.deleted_at,
            synced_at: self.synced_at,
            server_version: self.server_version,
            local_version: self.local_version,
            sync_status: self.sync_status,
            created_at: self.created_at,
            updated_at: self.updated_at,
        }
    }
}

impl Clone for Content {
    fn clone(&self) -> (r: Content)
        ensures
            r == *self,
    {
        Content {
            id: self.id.clone(),
            user_id: self.user_id.clone(),
            project_id: self.project_id.clone(),
            title: clone_opt_string(&self.title),
            content_type: self.content_type.clone(),
            status: self.status.clone(),
            text_content: clone_opt_string(&self.text_content),
            summary: clone_opt_string(&self.summary),
            media_urls: clone_opt_string(&self.media_urls),
            cover_url: clone_opt_string(&self.cover_url),
            tags: clone_opt_string(&self.tags),
            keywords: clone_opt_string(&self.keywords),
            word_count: self.word_count,
            read_time_minutes: self.read_time_minutes,
            ai_generated: self.ai_generated,
            generation_params: clone_opt_string(&self.generation_params),
            version: self.version,
            parent_id: clone_opt_string(&self.parent_id),
            is_deleted: self.is_deleted,
            deleted_at: self.deleted_at,
            synced_at: self.synced_at,
            server_version: self.server_version,
            local_version: self.local_version,
            sync_status: self.sync_status,
            created_at: self.created_at,
            updated_at: self.updated_at,
        }
    }
}

/// A publishing task: one piece of content targeted at one platform account.
#[derive(Debug)]
pub struct Publication {
    pub id: String,
    pub user_id: String,
    pub content_id: String,
    pub account_id: String,
    pub platform: String,
    pub status: String,
    pub adapted_content: Option<String>,
    pub scheduled_at: Option<i64>,
    pub published_at: Option<i64>,
    pub platform_post_id: Option<String>,
    pub platform_post_url: Option<String>,
    pub error_message: Option<String>,
    pub retry_count: i64,
    pub last_retry_at: Option<i64>,
    pub synced_at: Option<i64>,
    pub server_version: i64,
    pub local_version: i64,
    pub sync_status: SyncStatus,
    pub created_at: i64,
    pub updated_at: i64,
}

pub ghost struct PublicationModel {
    pub id: Seq<char>,
    pub user_id: Seq<char>,
    pub content_id: Seq<char>,
    pub account_id: Seq<char>,
    pub platform: Seq<char>,
    pub status: Seq<char>,
    pub adapted_content: Option<Seq<char>>,
    pub scheduled_at: Option<i64>,
    pub published_at: Option<i64>,
    pub platform_post_id: Option<Seq<char>>,
    pub platform_post_url: Option<Seq<char>>,
    pub error_message: Option<Seq<char>>,
    pub retry_count: i64,
    pub last_retry_at: Option<i64>,
    pub synced_at: Option<i64>,
    pub server_version: i64,
    pub local_version: i64,
    pub sync_status: SyncStatus,
    pub created_at: i64,
    pub updated_at: i64,
}

impl View for Publication {
    type V = PublicationModel;

    open spec fn view(&self) -> PublicationModel {
        PublicationModel {
            id: self.id@,
            user_id: self.user_id@,
            content_id: self.content_id@,
            account_id: self.account_id@,
            platform: self.platform@,
            status: self.status@,
            adapted_content: self.adapted_content.deep_view(),
            scheduled_at: self.scheduled_at,
            published_at: self.published_at,
            platform_post_id: self.platform_post_id.deep_view(),
            platform_post_url: self.platform_post_url.deep_view(),
            error_message: self.error_message.deep_view(),
            retry_count: self.retry_count,
            last_retry_at: self.last_retry_at,
            synced_at: self.synced_at,
            server_version: self.server_version,
            local_version: self.local_version,
            sync_status: self.sync_status,
            created_at: self.created_at,
            updated_at: self.updated_at,
        }
    }
}

impl Clone for Publication {
    fn clone(&self) -> (r: Publication)
        ensures
            r == *self,
    {
        Publication {
            id: self.id.clone(),
            user_id: self.user_id.clone(),
            content_id: self.content_id.clone(),
            account_id: self.account_id.clone(),
            platform: self.platform.clone(),
            status: self.status.clone(),
            adapted_content: clone_opt_string(&self.adapted_content),
            scheduled_at: self.scheduled_at,
            published_at: self.published_at,
            platform_post_id: clone_opt_string(&self.platform_post_id),
            platform_post_url: clone_opt_string(&self.platform_post_url),
            error_message: clone_opt_string(&self.error_message),
            retry_count: self.retry_count,
            last_retry_at: self.last_retry_at,
            synced_at: self.synced_at,
            server_version: self.server_version,
            local_version: self.local_version,
            sync_status: self.sync_status,
            created_at: self.created_at,
            updated_at: self.updated_at,
        }
    }
}

/// Fields of a user-driven project creation.
#[derive(Debug)]
pub struct CreateProject {
    pub name: String,
    pub description: Option<String>,
    pub industry: Option<String>,
    pub sub_industries: Option<Vec<String>>,
    pub brand_name: Option<String>,
    pub brand_tone: Option<String>,
    pub brand_keywords: Option<Vec<String>>,
    pub topics: Option<Vec<String>>,
    pub keywords: Option<Vec<String>>,
}

pub ghost struct CreateProjectModel {
    pub name: Seq<char>,
    pub description: Option<Seq<char>>,
    pub industry: Option<Seq<char>>,
    pub sub_industries: Option<Seq<Seq<char>>>,
    pub brand_name: Option<Seq<char>>,
    pub brand_tone: Option<Seq<char>>,
    pub brand_keywords: Option<Seq<Seq<char>>>,
    pub topics: Option<Seq<Seq<char>>>,
    pub keywords: Option<Seq<Seq<char>>>,
}

impl View for CreateProject {
    type V = CreateProjectModel;

    open spec fn view(&self) -> CreateProjectModel {
        CreateProjectModel {
            name: self.name@,
            description: self.description.deep_view(),
            industry: self.industry.deep_view(),
            sub_industries: self.sub_industries.deep_view(),
            brand_name: self.brand_name.deep_view(),
            brand_tone: self.brand_tone.deep_view(),
            brand_keywords: self.brand_keywords.deep_view(),
            topics: self.topics.deep_view(),
            keywords: self.keywords.deep_view(),
        }
    }
}

/// Fields of a user-driven project update; absent fields keep the stored value.
#[derive(Debug)]
pub struct UpdateProject {
    pub name: Option<String>,
    pub description: Option<String>,
    pub industry: Option<String>,
    pub sub_industries: Option<Vec<String>>,
    pub brand_name: Option<String>,
    pub brand_tone: Option<String>,
    pub brand_keywords: Option<Vec<String>>,
    pub topics: Option<Vec<String>>,
    pub keywords: Option<Vec<String>>,
    pub account_tags: Option<Vec<String>>,
    pub preferred_platforms: Option<Vec<String>>,
    pub content_style: Option<String>,
}

pub ghost struct UpdateProjectModel {
    pub name: Option<Seq<char>>,
    pub description: Option<Seq<char>>,
    pub industry: Option<Seq<char>>,
    pub sub_industries: Option<Seq<Seq<char>>>,
    pub brand_name: Option<Seq<char>>,
    pub brand_tone: Option<Seq<char>>,
    pub brand_keywords: Option<Seq<Seq<char>>>,
    pub topics: Option<Seq<Seq<char>>>,
    pub keywords: Option<Seq<Seq<char>>>,
    pub account_tags: Option<Seq<Seq<char>>>,
    pub preferred_platforms: Option<Seq<Seq<char>>>,
    pub content_style: Option<Seq<char>>,
}

impl View for UpdateProject {
    type V = UpdateProjectModel;

    open spec fn view(&self) -> UpdateProjectModel {
        UpdateProjectModel {
            name: self.name.deep_view(),
            description: self.description.deep_view(),
            industry: self.industry.deep_view(),
            sub_industries: self.sub_industries.deep_view(),
            brand_name: self.brand_name.deep_view(),
            brand_tone: self.brand_tone.deep_view(),
            brand_keywords: self.brand_keywords.deep_view(),
            topics: self.topics.deep_view(),
            keywords: self.keywords.deep_view(),
            account_tags: self.account_tags.deep_view(),
            preferred_platforms: self.preferred_platforms.deep_view(),
            content_style: self.content_style.deep_view(),
        }
    }
}

/// Fields of a user-driven content creation.
#[derive(Debug)]
pub struct CreateContent {
    pub project_id: String,
    pub title: Option<String>,
    pub content_type: String,
    pub text_content: Option<String>,
    pub tags: Option<Vec<String>>,
}

pub ghost struct CreateContentModel {
    pub project_id: Seq<char>,
    pub title: Option<Seq<char>>,
    pub content_type: Seq<char>,
    pub text_content: Option<Seq<char>>,
    pub tags: Option<Seq<Seq<char>>>,
}

impl View for CreateContent {
    type V = CreateContentModel;

    open spec fn view(&self) -> CreateContentModel {
        CreateContentModel {
            project_id: self.project_id@,
            title: self.title.deep_view(),
            content_type: self.content_type@,
            text_content: self.text_content.deep_view(),
            tags: self.tags.deep_view(),
        }
    }
}

/// Fields of a user-driven publication creation.
#[derive(Debug)]
pub struct CreatePublication {
    pub content_id: String,
    pub account_id: String,
    pub platform: String,
    pub scheduled_at: Option<i64>,
}

pub ghost struct CreatePublicationModel {
    pub content_id: Seq<char>,
    pub account_id: Seq<char>,
    pub platform: Seq<char>,
    pub scheduled_at: Option<i64>,
}

impl View for CreatePublication {
    type V = CreatePublicationModel;

    open spec fn view(&self) -> CreatePublicationModel {
        CreatePublicationModel {
            content_id: self.content_id@,
            account_id: self.account_id@,
            platform: self.platform@,
            scheduled_at: self.scheduled_at,
        }
    }
}

} // verus!
