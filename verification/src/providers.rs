//! Sync providers: one per entity type, each encapsulating the pull/push
//! protocol for its type. The remote's answers are never assumed: every
//! function that applies an answer takes it as a value and is verified for
//! every possible value.

use vstd::prelude::*;

use crate::errors::SyncError;
use crate::model::{PlatformAccount, Project, ProjectTopic};
use crate::remote::{
    blank_text, is_blank, opt_as_str, AccountAck, AccountPushRecord, ProjectAck,
    ProjectPushRecord, RemoteAccount, RemoteAccountModel, RemoteProject, RemoteProjectModel,
    RemoteService, RemoteTopic, RemoteTopicModel, RemoteUser, TopicAck, TopicPushRecord,
};
use crate::status::str_eq;
use crate::store::{
    ensure_user_model, has_project_id, has_user_id, Repository, StoreModel,
};
use crate::store_accounts::{
    account_models, mark_account_synced_model, pending_account_pred, sync_platform_account_model,
};
use crate::store_projects::{
    ensure_project_model, live_user_project, mark_project_synced_model, pending_project_pred,
    project_models, sync_project_model,
};
use crate::store_topics::{
    has_pending_topics, mark_topic_synced_model, pending_topic_pred, sync_project_topic_model,
    topic_models,
};

verus! {

/// The entity types a sync engine can be asked to reconcile, in the fixed
/// dependency order the registration list is meant to follow.
#[derive(Clone, Copy, Debug, PartialEq, Eq, Structural)]
pub enum ProviderKind {
    User,
    Project,
    PlatformAccount,
    ProjectTopic,
}

pub open spec fn provider_name(k: ProviderKind) -> Seq<char> {
    match k {
        ProviderKind::User => "User"@,
        ProviderKind::Project => "Project"@,
        ProviderKind::PlatformAccount => "PlatformAccount"@,
        ProviderKind::ProjectTopic => "ProjectTopic"@,
    }
}

impl ProviderKind {
    /// The provider's display name.
    pub fn name(&self) -> (r: &'static str)
        ensures
            r@ == provider_name(*self),
    {
        match self {
            ProviderKind::User => "User",
            ProviderKind::Project => "Project",
            ProviderKind::PlatformAccount => "PlatformAccount",
            ProviderKind::ProjectTopic => "ProjectTopic",
        }
    }
}

/// The per-entity-type pull/push capability. Providers are stateless: the
/// engine reuses one instance across passes. A pull or push may fail, but it
/// always leaves the store well-formed.
pub trait SyncProvider<R: RemoteService> {
    fn name(&self) -> &'static str;

    fn pull(
        &self,
        remote: &mut R,
        repo: &mut Repository,
        user_id: &str,
        token: &str,
        now: i64,
    ) -> (r: Result<(), SyncError>)
        requires
            old(repo)@.wf(),
        ensures
            final(repo)@.wf(),
    ;

    fn push(
        &self,
        remote: &mut R,
        repo: &mut Repository,
        user_id: &str,
        token: &str,
        now: i64,
    ) -> (r: Result<(), SyncError>)
        requires
            old(repo)@.wf(),
        ensures
            final(repo)@.wf(),
    ;
}

/// Reconciles the signed-in user's identity record.
pub struct UserProvider;

impl UserProvider {
    /// Applies a fetched identity record: exactly one coalesce upsert.
    pub fn apply_pull(repo: &mut Repository, ru: &RemoteUser, now: i64)
        requires
            old(repo)@.wf(),
        ensures
            final(repo)@.wf(),
            final(repo)@ == crate::store::sync_user_model(
                old(repo)@,
                ru@.uuid,
                ru@.email,
                Some(ru@.username),
                Some(ru@.nickname),
                ru@.avatar,
                now,
            ),
    {
        repo.sync_user(
            ru.uuid.as_str(),
            opt_as_str(&ru.email),
            Some(ru.username.as_str()),
            Some(ru.nickname.as_str()),
            opt_as_str(&ru.avatar),
            now,
        );
    }
}

impl<R: RemoteService> SyncProvider<R> for UserProvider {
    fn name(&self) -> &'static str {
        "User"
    }

    fn pull(
        &self,
        remote: &mut R,
        repo: &mut Repository,
        user_id: &str,
        token: &str,
        now: i64,
    ) -> (r: Result<(), SyncError>)
        ensures
            r is Err ==> final(repo)@ == old(repo)@,
            r is Ok ==> exists|ru: crate::remote::RemoteUserModel|
                final(repo)@ == crate::store::sync_user_model(
                    old(repo)@,
                    ru.uuid,
                    ru.email,
                    Some(ru.username),
                    Some(ru.nickname),
                    ru.avatar,
                    now,
                ),
    {
        let ru = match remote.fetch_current_user(token) {
            Ok(u) => u,
            Err(e) => {
                return Err(e);
            },
        };
        UserProvider::apply_pull(repo, &ru, now);
        proof {
            assert(repo@ == crate::store::sync_user_model(
                old(repo)@,
                ru@.uuid,
                ru@.email,
                Some(ru@.username),
                Some(ru@.nickname),
                ru@.avatar,
                now,
            ));
        }
        Ok(())
    }

    fn push(
        &self,
        remote: &mut R,
        repo: &mut Repository,
        user_id: &str,
        token: &str,
        now: i64,
    ) -> (r: Result<(), SyncError>)
        ensures
            *final(repo) == *old(repo),
            *final(remote) == *old(remote),
            r is Ok,
    {
        // Identity edits are made online; there is nothing to push.
        Ok(())
    }
}

pub open spec fn remote_project_models(v: Seq<RemoteProject>) -> Seq<RemoteProjectModel> {
    v.map_values(|p: RemoteProject| p@)
}

/// Pulled project records applied in order, each an upsert.
pub open spec fn apply_remote_projects(
    s: StoreModel,
    items: Seq<RemoteProjectModel>,
    user_id: Seq<char>,
    now: i64,
) -> StoreModel
    decreases items.len(),
{
    if items.len() == 0 {
        s
    } else {
        apply_remote_projects(
            sync_project_model(
                s,
                items[0].id,
                user_id,
                items[0].name,
                items[0].description,
                None,
                items[0].server_version,
                now,
            ),
            items.drop_first(),
            user_id,
            now,
        )
    }
}

/// Push confirmations applied in order: each marks one project row synced at
/// its confirmed version.
pub open spec fn mark_projects_fold(
    s: StoreModel,
    confirms: Seq<(Seq<char>, i64)>,
    now: i64,
) -> StoreModel
    decreases confirms.len(),
{
    if confirms.len() == 0 {
        s
    } else {
        mark_projects_fold(
            mark_project_synced_model(s, confirms[0].0, confirms[0].1, now),
            confirms.drop_first(),
            now,
        )
    }
}

pub proof fn lemma_mark_projects_fold_push(
    s: StoreModel,
    confirms: Seq<(Seq<char>, i64)>,
    c: (Seq<char>, i64),
    now: i64,
)
    ensures
        mark_projects_fold(s, confirms.push(c), now) == mark_project_synced_model(
            mark_projects_fold(s, confirms, now),
            c.0,
            c.1,
            now,
        ),
    decreases confirms.len(),
{
    let snoc = confirms.push(c);
    assert(snoc.len() == confirms.len() + 1);
    if confirms.len() == 0 {
        assert(snoc[0] == c);
        assert(snoc.drop_first() =~= Seq::<(Seq<char>, i64)>::empty());
        assert(mark_projects_fold(s, snoc, now) == mark_projects_fold(
            mark_project_synced_model(s, c.0, c.1, now),
            snoc.drop_first(),
            now,
        ));
        assert(mark_projects_fold(s, confirms, now) == s);
    } else {
        assert(snoc[0] == confirms[0]);
        assert(snoc.drop_first() =~= confirms.drop_first().push(c));
        let stepped = mark_project_synced_model(s, confirms[0].0, confirms[0].1, now);
        assert(mark_projects_fold(s, snoc, now) == mark_projects_fold(
            stepped,
            snoc.drop_first(),
            now,
        ));
        lemma_mark_projects_fold_push(stepped, confirms.drop_first(), c, now);
        assert(mark_projects_fold(s, confirms, now) == mark_projects_fold(
            stepped,
            confirms.drop_first(),
            now,
        ));
    }
}

/// Reconciles the user's projects.
pub struct ProjectProvider;

impl ProjectProvider {
    /// Applies a fetched batch of project records, in order. The owning user
    /// is required, so every upsert succeeds.
    pub fn apply_pull(repo: &mut Repository, user_id: &str, items: &Vec<RemoteProject>, now: i64)
        requires
            old(repo)@.wf(),
            has_user_id(old(repo)@.users, user_id@),
        ensures
            final(repo)@.wf(),
            final(repo)@ == apply_remote_projects(
                old(repo)@,
                remote_project_models(items@),
                user_id@,
                now,
            ),
    {
        let ghost s0 = repo@;
        let ghost models = remote_project_models(items@);
        let n = items.len();
        let mut i: usize = 0;
        proof {
            assert(models.skip(0) =~= models);
        }
        while i < n
            invariant
                n == items.len(),
                i <= n,
                repo@.wf(),
                repo@.users == s0.users,
                has_user_id(s0.users, user_id@),
                models == remote_project_models(items@),
                apply_remote_projects(repo@, models.skip(i as int), user_id@, now)
                    == apply_remote_projects(s0, models, user_id@, now),
            decreases n - i,
        {
            let ghost pre = repo@;
            let item = &items[i];
            let res = repo.sync_project(
                item.id.as_str(),
                user_id,
                item.name.as_str(),
                opt_as_str(&item.description),
                None,
                item.server_version,
                now,
            );
            proof {
                assert(has_user_id(pre.users, user_id@));
                assert(res is Ok);
                assert(models[i as int] == item@);
                assert(models.skip(i as int).len() > 0);
                assert(models.skip(i as int)[0] == models[i as int]);
                assert(models.skip(i as int).drop_first() =~= models.skip(i as int + 1));
                assert(apply_remote_projects(pre, models.skip(i as int), user_id@, now)
                    == apply_remote_projects(repo@, models.skip(i as int + 1), user_id@, now));
            }
            i = i + 1;
        }
        proof {
            assert(models.skip(n as int) =~= Seq::<RemoteProjectModel>::empty());
            assert(apply_remote_projects(repo@, models.skip(n as int), user_id@, now) == repo@);
        }
    }

    /// Applies one upsert confirmation: a matching id marks the row synced at
    /// the confirmed version; a mismatched id is a rejection and changes
    /// nothing.
    pub fn apply_push_ack(
        repo: &mut Repository,
        project_id: &str,
        ack: &ProjectAck,
        now: i64,
    ) -> (r: Result<(), SyncError>)
        requires
            old(repo)@.wf(),
        ensures
            final(repo)@.wf(),
            ack@.id == project_id@ ==> r is Ok && final(repo)@ == mark_project_synced_model(
                old(repo)@,
                project_id@,
                ack@.server_version,
                now,
            ),
            ack@.id != project_id@ ==> r is Err && final(repo)@ == old(repo)@,
    {
        if str_eq(ack.id.as_str(), project_id) {
            repo.mark_project_synced(project_id, ack.server_version, now);
            Ok(())
        } else {
            Err(SyncError::RemoteRejected("project id mismatch".to_owned()))
        }
    }
}

impl<R: RemoteService> SyncProvider<R> for ProjectProvider {
    fn name(&self) -> &'static str {
        "Project"
    }

    fn pull(
        &self,
        remote: &mut R,
        repo: &mut Repository,
        user_id: &str,
        token: &str,
        now: i64,
    ) -> (r: Result<(), SyncError>)
        ensures
            r is Err ==> final(repo)@ == ensure_user_model(old(repo)@, user_id@, now),
            r is Ok ==> exists|items: Seq<RemoteProjectModel>|
                final(repo)@ == apply_remote_projects(
                    ensure_user_model(old(repo)@, user_id@, now),
                    items,
                    user_id@,
                    now,
                ),
    {
        repo.ensure_user_exists(user_id, now);
        let items = match remote.fetch_projects(token) {
            Ok(v) => v,
            Err(e) => {
                return Err(e);
            },
        };
        ProjectProvider::apply_pull(repo, user_id, &items, now);
        proof {
            assert(repo@ == apply_remote_projects(
                ensure_user_model(old(repo)@, user_id@, now),
                remote_project_models(items@),
                user_id@,
                now,
            ));
        }
        Ok(())
    }

    fn push(
        &self,
        remote: &mut R,
        repo: &mut Repository,
        user_id: &str,
        token: &str,
        now: i64,
    ) -> (r: Result<(), SyncError>)
        ensures
            old(repo)@.projects.filter(pending_project_pred(user_id@)).len() == 0 ==> r is Ok
                && *final(repo) == *old(repo) && *final(remote) == *old(remote),
            exists|confirms: Seq<(Seq<char>, i64)>|
                {
                    &&& final(repo)@ == mark_projects_fold(old(repo)@, confirms, now)
                    &&& forall|k: int|
                        0 <= k < confirms.len() ==> exists|j: int|
                            0 <= j < old(repo)@.projects.filter(
                                pending_project_pred(user_id@),
                            ).len() && (#[trigger] confirms[k]).0 == old(repo)@.projects.filter(
                                pending_project_pred(user_id@),
                            )[j].id
                },
    {
        let ghost s0 = repo@;
        let ghost pend = s0.projects.filter(pending_project_pred(user_id@));
        let pending = repo.list_pending_projects(user_id);
        if pending.len() == 0 {
            proof {
                let none_confirmed: Seq<(Seq<char>, i64)> = Seq::empty();
                assert(repo@ == mark_projects_fold(s0, none_confirmed, now));
            }
            return Ok(());
        }
        let ghost mut confirms: Seq<(Seq<char>, i64)> = Seq::empty();
        let mut first_err: Option<SyncError> = None;
        let n = pending.len();
        let mut i: usize = 0;
        proof {
            assert(repo@ == mark_projects_fold(s0, confirms, now));
        }
        while i < n
            invariant
                n == pending.len(),
                i <= n,
                repo@.wf(),
                pend == s0.projects.filter(pending_project_pred(user_id@)),
                project_models(pending@) == pend,
                repo@ == mark_projects_fold(s0, confirms, now),
                forall|k: int|
                    0 <= k < confirms.len() ==> exists|j: int|
                        0 <= j < pend.len() && (#[trigger] confirms[k]).0 == pend[j].id,
            decreases n - i,
        {
            let record = ProjectPushRecord::from_project(&pending[i]);
            match remote.upsert_project(&record, token) {
                Ok(ack) => {
                    let applied = ProjectProvider::apply_push_ack(
                        repo,
                        pending[i].id.as_str(),
                        &ack,
                        now,
                    );
                    match applied {
                        Ok(()) => {
                            proof {
                                let c = (pending[i as int]@.id, ack@.server_version);
                                lemma_mark_projects_fold_push(s0, confirms, c, now);
                                let prev = confirms;
                                confirms = confirms.push(c);
                                assert(pend[i as int].id == pending[i as int]@.id);
                                assert forall|k: int| 0 <= k < confirms.len() implies exists|
                                    j: int,
                                |
                                    0 <= j < pend.len() && (#[trigger] confirms[k]).0
                                        == pend[j].id by {
                                    if k < prev.len() {
                                        assert(confirms[k] == prev[k]);
                                    } else {
                                        assert(confirms[k] == c);
                                        assert(pend[i as int].id == c.0);
                                    }
                                }
                            }
                        },
                        Err(e) => {
                            if first_err.is_none() {
                                first_err = Some(e);
                            }
                        },
                    }
                },
                Err(e) => {
                    if first_err.is_none() {
                        first_err = Some(e);
                    }
                },
            }
            i = i + 1;
        }
        match first_err {
            None => Ok(()),
            Some(e) => Err(e),
        }
    }
}

pub open spec fn or_zero(o: Option<i64>) -> i64 {
    match o {
        Some(v) => v,
        None => 0,
    }
}

pub open spec fn or_flag(o: Option<bool>, default: bool) -> bool {
    match o {
        Some(v) => v,
        None => default,
    }
}

pub open spec fn remote_account_models(v: Seq<RemoteAccount>) -> Seq<RemoteAccountModel> {
    v.map_values(|a: RemoteAccount| a@)
}

/// One pulled account record applied: the owning user and project are
/// provisioned first (placeholders if missing), then the record upserts.
pub open spec fn pull_account_step(
    s: StoreModel,
    a: RemoteAccountModel,
    user_id: Seq<char>,
    now: i64,
) -> StoreModel {
    sync_platform_account_model(
        ensure_project_model(s, a.project_id, user_id, now),
        a.id,
        user_id,
        a.project_id,
        a.platform,
        a.account_id,
        a.account_name,
        a.avatar_url,
        or_zero(a.followers_count),
        or_zero(a.following_count),
        or_zero(a.posts_count),
        or_flag(a.is_active, true),
        or_flag(a.session_valid, false),
        a.metadata,
        a.is_deleted,
        a.server_version,
        now,
    )
}

/// Pulled account records applied in order.
pub open spec fn apply_remote_accounts(
    s: StoreModel,
    items: Seq<RemoteAccountModel>,
    user_id: Seq<char>,
    now: i64,
) -> StoreModel
    decreases items.len(),
{
    if items.len() == 0 {
        s
    } else {
        apply_remote_accounts(pull_account_step(s, items[0], user_id, now), items.drop_first(), user_id, now)
    }
}

/// Push confirmations applied in order: each marks one account row synced at
/// its confirmed version.
pub open spec fn mark_accounts_fold(
    s: StoreModel,
    confirms: Seq<(Seq<char>, i64)>,
    now: i64,
) -> StoreModel
    decreases confirms.len(),
{
    if confirms.len() == 0 {
        s
    } else {
        mark_accounts_fold(
            mark_account_synced_model(s, confirms[0].0, confirms[0].1, now),
            confirms.drop_first(),
            now,
        )
    }
}

pub proof fn lemma_mark_accounts_fold_push(
    s: StoreModel,
    confirms: Seq<(Seq<char>, i64)>,
    c: (Seq<char>, i64),
    now: i64,
)
    ensures
        mark_accounts_fold(s, confirms.push(c), now) == mark_account_synced_model(
            mark_accounts_fold(s, confirms, now),
            c.0,
            c.1,
            now,
        ),
    decreases confirms.len(),
{
    let snoc = confirms.push(c);
    assert(snoc.len() == confirms.len() + 1);
    if confirms.len() == 0 {
        assert(snoc[0] == c);
        assert(snoc.drop_first() =~= Seq::<(Seq<char>, i64)>::empty());
        assert(mark_accounts_fold(s, snoc, now) == mark_accounts_fold(
            mark_account_synced_model(s, c.0, c.1, now),
            snoc.drop_first(),
            now,
        ));
        assert(mark_accounts_fold(s, confirms, now) == s);
    } else {
        assert(snoc[0] == confirms[0]);
        assert(snoc.drop_first() =~= confirms.drop_first().push(c));
        let stepped = mark_account_synced_model(s, confirms[0].0, confirms[0].1, now);
        assert(mark_accounts_fold(s, snoc, now) == mark_accounts_fold(
            stepped,
            snoc.drop_first(),
            now,
        ));
        lemma_mark_accounts_fold_push(stepped, confirms.drop_first(), c, now);
        assert(mark_accounts_fold(s, confirms, now) == mark_accounts_fold(
            stepped,
            confirms.drop_first(),
            now,
        ));
    }
}

/// Reconciles the user's platform accounts.
pub struct AccountProvider;

impl AccountProvider {
    /// Applies one pulled account record. A record whose project is not yet
    /// present locally still succeeds: a placeholder project is provisioned
    /// first, so the parent constraint holds.
    pub fn apply_pull_record(repo: &mut Repository, acc: &RemoteAccount, user_id: &str, now: i64)
        requires
            old(repo)@.wf(),
        ensures
            final(repo)@.wf(),
            final(repo)@ == pull_account_step(old(repo)@, acc@, user_id@, now),
            has_project_id(final(repo)@.projects, acc@.project_id),
            has_user_id(final(repo)@.users, user_id@),
    {
        repo.ensure_project_exists(acc.project_id.as_str(), user_id, now);
        let followers = match acc.followers_count {
            Some(v) => v,
            None => 0,
        };
        let following = match acc.following_count {
            Some(v) => v,
            None => 0,
        };
        let posts = match acc.posts_count {
            Some(v) => v,
            None => 0,
        };
        let active = match acc.is_active {
            Some(v) => v,
            None => true,
        };
        let session = match acc.session_valid {
            Some(v) => v,
            None => false,
        };
        let ghost mid = repo@;
        let res = repo.sync_platform_account(
            acc.id.as_str(),
            user_id,
            acc.project_id.as_str(),
            acc.platform.as_str(),
            acc.account_id.as_str(),
            opt_as_str(&acc.account_name),
            opt_as_str(&acc.avatar_url),
            followers,
            following,
            posts,
            active,
            session,
            opt_as_str(&acc.metadata),
            acc.is_deleted,
            acc.server_version,
            now,
        );
        proof {
            assert(has_user_id(mid.users, user_id@));
            assert(has_project_id(mid.projects, acc@.project_id));
            assert(res is Ok);
            // The upsert touches only the account table, so the provisioned
            // parents are still present.
            assert(final(repo)@.projects == mid.projects);
            assert(final(repo)@.users == mid.users);
        }
    }

    /// Applies a fetched batch of account records, in order.
    pub fn apply_pull(repo: &mut Repository, user_id: &str, items: &Vec<RemoteAccount>, now: i64)
        requires
            old(repo)@.wf(),
        ensures
            final(repo)@.wf(),
            final(repo)@ == apply_remote_accounts(
                old(repo)@,
                remote_account_models(items@),
                user_id@,
                now,
            ),
    {
        let ghost s0 = repo@;
        let ghost models = remote_account_models(items@);
        let n = items.len();
        let mut i: usize = 0;
        proof {
            assert(models.skip(0) =~= models);
        }
        while i < n
            invariant
                n == items.len(),
                i <= n,
                repo@.wf(),
                models == remote_account_models(items@),
                apply_remote_accounts(repo@, models.skip(i as int), user_id@, now)
                    == apply_remote_accounts(s0, models, user_id@, now),
            decreases n - i,
        {
            let ghost pre = repo@;
            AccountProvider::apply_pull_record(repo, &items[i], user_id, now);
            proof {
                assert(models[i as int] == items[i as int]@);
                assert(models.skip(i as int).len() > 0);
                assert(models.skip(i as int)[0] == models[i as int]);
                assert(models.skip(i as int).drop_first() =~= models.skip(i as int + 1));
                assert(apply_remote_accounts(pre, models.skip(i as int), user_id@, now)
                    == apply_remote_accounts(repo@, models.skip(i as int + 1), user_id@, now));
            }
            i = i + 1;
        }
        proof {
            assert(models.skip(n as int) =~= Seq::<RemoteAccountModel>::empty());
        }
    }

    /// Applies one upsert confirmation: matching id and project mark the row
    /// synced at the confirmed version; any mismatch is a rejection and
    /// changes nothing.
    pub fn apply_push_ack(
        repo: &mut Repository,
        account_id: &str,
        project_id: &str,
        ack: &AccountAck,
        now: i64,
    ) -> (r: Result<(), SyncError>)
        requires
            old(repo)@.wf(),
        ensures
            final(repo)@.wf(),
            (ack@.id == account_id@ && ack@.project_id == project_id@) ==> r is Ok && final(repo)@
                == mark_account_synced_model(old(repo)@, account_id@, ack@.server_version, now),
            (ack@.id != account_id@ || ack@.project_id != project_id@) ==> r is Err && final(repo)@
                == old(repo)@,
    {
        if !str_eq(ack.id.as_str(), account_id) {
            return Err(SyncError::RemoteRejected("account id mismatch".to_owned()));
        }
        if !str_eq(ack.project_id.as_str(), project_id) {
            return Err(SyncError::RemoteRejected("account project mismatch".to_owned()));
        }
        repo.mark_platform_account_synced(account_id, ack.server_version, now);
        Ok(())
    }
}

impl<R: RemoteService> SyncProvider<R> for AccountProvider {
    fn name(&self) -> &'static str {
        "PlatformAccount"
    }

    fn pull(
        &self,
        remote: &mut R,
        repo: &mut Repository,
        user_id: &str,
        token: &str,
        now: i64,
    ) -> (r: Result<(), SyncError>)
        ensures
            r is Err ==> final(repo)@ == ensure_user_model(old(repo)@, user_id@, now),
            r is Ok ==> exists|items: Seq<RemoteAccountModel>|
                final(repo)@ == apply_remote_accounts(
                    ensure_user_model(old(repo)@, user_id@, now),
                    items,
                    user_id@,
                    now,
                ),
    {
        repo.ensure_user_exists(user_id, now);
        let items = match remote.fetch_accounts(token) {
            Ok(v) => v,
            Err(e) => {
                return Err(e);
            },
        };
        AccountProvider::apply_pull(repo, user_id, &items, now);
        proof {
            assert(repo@ == apply_remote_accounts(
                ensure_user_model(old(repo)@, user_id@, now),
                remote_account_models(items@),
                user_id@,
                now,
            ));
        }
        Ok(())
    }

    fn push(
        &self,
        remote: &mut R,
        repo: &mut Repository,
        user_id: &str,
        token: &str,
        now: i64,
    ) -> (r: Result<(), SyncError>)
        ensures
            old(repo)@.accounts.filter(pending_account_pred(user_id@)).len() == 0 ==> r is Ok
                && *final(repo) == *old(repo) && *final(remote) == *old(remote),
            exists|confirms: Seq<(Seq<char>, i64)>|
                {
                    &&& final(repo)@ == mark_accounts_fold(old(repo)@, confirms, now)
                    &&& forall|k: int|
                        0 <= k < confirms.len() ==> exists|j: int|
                            0 <= j < old(repo)@.accounts.filter(
                                pending_account_pred(user_id@),
                            ).len() && (#[trigger] confirms[k]).0 == old(repo)@.accounts.filter(
                                pending_account_pred(user_id@),
                            )[j].id
                },
    {
        let ghost s0 = repo@;
        let ghost pend = s0.accounts.filter(pending_account_pred(user_id@));
        let pending = repo.list_pending_platform_accounts(user_id);
        if pending.len() == 0 {
            proof {
                let none_confirmed: Seq<(Seq<char>, i64)> = Seq::empty();
                assert(repo@ == mark_accounts_fold(s0, none_confirmed, now));
            }
            return Ok(());
        }
        let ghost mut confirms: Seq<(Seq<char>, i64)> = Seq::empty();
        let mut first_err: Option<SyncError> = None;
        let n = pending.len();
        let mut i: usize = 0;
        proof {
            assert(repo@ == mark_accounts_fold(s0, confirms, now));
        }
        while i < n
            invariant
                n == pending.len(),
                i <= n,
                repo@.wf(),
                pend == s0.accounts.filter(pending_account_pred(user_id@)),
                account_models(pending@) == pend,
                repo@ == mark_accounts_fold(s0, confirms, now),
                forall|k: int|
                    0 <= k < confirms.len() ==> exists|j: int|
                        0 <= j < pend.len() && (#[trigger] confirms[k]).0 == pend[j].id,
            decreases n - i,
        {
            let record = AccountPushRecord::from_account(&pending[i]);
            match remote.upsert_account(&record, token) {
                Ok(ack) => {
                    let applied = AccountProvider::apply_push_ack(
                        repo,
                        pending[i].id.as_str(),
                        pending[i].project_id.as_str(),
                        &ack,
                        now,
                    );
                    match applied {
                        Ok(()) => {
                            proof {
                                let c = (pending[i as int]@.id, ack@.server_version);
                                lemma_mark_accounts_fold_push(s0, confirms, c, now);
                                let prev = confirms;
                                confirms = confirms.push(c);
                                assert(pend[i as int].id == pending[i as int]@.id);
                                assert forall|k: int| 0 <= k < confirms.len() implies exists|
                                    j: int,
                                |
                                    0 <= j < pend.len() && (#[trigger] confirms[k]).0
                                        == pend[j].id by {
                                    if k < prev.len() {
                                        assert(confirms[k] == prev[k]);
                                    } else {
                                        assert(confirms[k] == c);
                                        assert(pend[i as int].id == c.0);
                                    }
                                }
                            }
                        },
                        Err(e) => {
                            if first_err.is_none() {
                                first_err = Some(e);
                            }
                        },
                    }
                },
                Err(e) => {
                    if first_err.is_none() {
                        first_err = Some(e);
                    }
                },
            }
            i = i + 1;
        }
        match first_err {
            None => Ok(()),
            Some(e) => Err(e),
        }
    }
}

pub open spec fn remote_topic_models(v: Seq<RemoteTopic>) -> Seq<RemoteTopicModel> {
    v.map_values(|t: RemoteTopic| t@)
}

/// One pulled topic record applied; records with a blank id are skipped.
pub open spec fn pull_topic_step(
    s: StoreModel,
    t: RemoteTopicModel,
    user_id: Seq<char>,
    project_id: Seq<char>,
    now: i64,
) -> StoreModel {
    if blank_text(t.id) {
        s
    } else {
        sync_project_topic_model(
            s,
            t.id,
            user_id,
            project_id,
            t.title,
            t.payload,
            t.batch_date,
            t.source_uid,
            t.status,
            t.server_version,
            t.is_deleted,
            None,
            now,
        )
    }
}

/// Pulled topic records applied in order.
pub open spec fn apply_remote_topics(
    s: StoreModel,
    items: Seq<RemoteTopicModel>,
    user_id: Seq<char>,
    project_id: Seq<char>,
    now: i64,
) -> StoreModel
    decreases items.len(),
{
    if items.len() == 0 {
        s
    } else {
        apply_remote_topics(
            pull_topic_step(s, items[0], user_id, project_id, now),
            items.drop_first(),
            user_id,
            project_id,
            now,
        )
    }
}

/// One whole pull round for one project: the project is provisioned, then
/// its fetched batch applies in order.
pub open spec fn topic_pull_round(
    s: StoreModel,
    round: (Seq<char>, Seq<RemoteTopicModel>),
    user_id: Seq<char>,
    now: i64,
) -> StoreModel {
    apply_remote_topics(
        ensure_project_model(s, round.0, user_id, now),
        round.1,
        user_id,
        round.0,
        now,
    )
}

/// Pull rounds applied in order, one per listed project.
pub open spec fn apply_topic_pull_rounds(
    s: StoreModel,
    rounds: Seq<(Seq<char>, Seq<RemoteTopicModel>)>,
    user_id: Seq<char>,
    now: i64,
) -> StoreModel
    decreases rounds.len(),
{
    if rounds.len() == 0 {
        s
    } else {
        apply_topic_pull_rounds(
            topic_pull_round(s, rounds[0], user_id, now),
            rounds.drop_first(),
            user_id,
            now,
        )
    }
}

pub proof fn lemma_topic_pull_rounds_push(
    s: StoreModel,
    rounds: Seq<(Seq<char>, Seq<RemoteTopicModel>)>,
    round: (Seq<char>, Seq<RemoteTopicModel>),
    user_id: Seq<char>,
    now: i64,
)
    ensures
        apply_topic_pull_rounds(s, rounds.push(round), user_id, now) == topic_pull_round(
            apply_topic_pull_rounds(s, rounds, user_id, now),
            round,
            user_id,
            now,
        ),
    decreases rounds.len(),
{
    let snoc = rounds.push(round);
    assert(snoc.len() == rounds.len() + 1);
    if rounds.len() == 0 {
        assert(snoc[0] == round);
        assert(snoc.drop_first() =~= Seq::<(Seq<char>, Seq<RemoteTopicModel>)>::empty());
        assert(apply_topic_pull_rounds(s, snoc, user_id, now) == apply_topic_pull_rounds(
            topic_pull_round(s, round, user_id, now),
            snoc.drop_first(),
            user_id,
            now,
        ));
        assert(apply_topic_pull_rounds(s, rounds, user_id, now) == s);
    } else {
        assert(snoc[0] == rounds[0]);
        assert(snoc.drop_first() =~= rounds.drop_first().push(round));
        let stepped = topic_pull_round(s, rounds[0], user_id, now);
        assert(apply_topic_pull_rounds(s, snoc, user_id, now) == apply_topic_pull_rounds(
            stepped,
            snoc.drop_first(),
            user_id,
            now,
        ));
        lemma_topic_pull_rounds_push(stepped, rounds.drop_first(), round, user_id, now);
        assert(apply_topic_pull_rounds(s, rounds, user_id, now) == apply_topic_pull_rounds(
            stepped,
            rounds.drop_first(),
            user_id,
            now,
        ));
    }
}

/// Push confirmations applied in order: each marks one topic row synced at
/// its confirmed version.
pub open spec fn mark_topics_fold(
    s: StoreModel,
    confirms: Seq<(Seq<char>, i64)>,
    now: i64,
) -> StoreModel
    decreases confirms.len(),
{
    if confirms.len() == 0 {
        s
    } else {
        mark_topics_fold(
            mark_topic_synced_model(s, confirms[0].0, confirms[0].1, now),
            confirms.drop_first(),
            now,
        )
    }
}

pub proof fn lemma_mark_topics_fold_push(
    s: StoreModel,
    confirms: Seq<(Seq<char>, i64)>,
    c: (Seq<char>, i64),
    now: i64,
)
    ensures
        mark_topics_fold(s, confirms.push(c), now) == mark_topic_synced_model(
            mark_topics_fold(s, confirms, now),
            c.0,
            c.1,
            now,
        ),
    decreases confirms.len(),
{
    let snoc = confirms.push(c);
    assert(snoc.len() == confirms.len() + 1);
    if confirms.len() == 0 {
        assert(snoc[0] == c);
        assert(snoc.drop_first() =~= Seq::<(Seq<char>, i64)>::empty());
        assert(mark_topics_fold(s, snoc, now) == mark_topics_fold(
            mark_topic_synced_model(s, c.0, c.1, now),
            snoc.drop_first(),
            now,
        ));
        assert(mark_topics_fold(s, confirms, now) == s);
    } else {
        assert(snoc[0] == confirms[0]);
        assert(snoc.drop_first() =~= confirms.drop_first().push(c));
        let stepped = mark_topic_synced_model(s, confirms[0].0, confirms[0].1, now);
        assert(mark_topics_fold(s, snoc, now) == mark_topics_fold(
            stepped,
            snoc.drop_first(),
            now,
        ));
        lemma_mark_topics_fold_push(stepped, confirms.drop_first(), c, now);
        assert(mark_topics_fold(s, confirms, now) == mark_topics_fold(
            stepped,
            confirms.drop_first(),
            now,
        ));
    }
}

/// Reconciles each project's private topics.
pub struct ProjectTopicProvider;

impl ProjectTopicProvider {
    /// Applies a fetched batch of topic records for one project, in order.
    /// The owning user and project are required, so every upsert succeeds.
    pub fn apply_pull(
        repo: &mut Repository,
        user_id: &str,
        project_id: &str,
        items: &Vec<RemoteTopic>,
        now: i64,
    )
        requires
            old(repo)@.wf(),
            has_user_id(old(repo)@.users, user_id@),
            has_project_id(old(repo)@.projects, project_id@),
        ensures
            final(repo)@.wf(),
            final(repo)@ == apply_remote_topics(
                old(repo)@,
                remote_topic_models(items@),
                user_id@,
                project_id@,
                now,
            ),
    {
        let ghost s0 = repo@;
        let ghost models = remote_topic_models(items@);
        let n = items.len();
        let mut i: usize = 0;
        proof {
            assert(models.skip(0) =~= models);
        }
        while i < n
            invariant
                n == items.len(),
                i <= n,
                repo@.wf(),
                repo@.users == s0.users,
                repo@.projects == s0.projects,
                has_user_id(s0.users, user_id@),
                has_project_id(s0.projects, project_id@),
                models == remote_topic_models(items@),
                apply_remote_topics(repo@, models.skip(i as int), user_id@, project_id@, now)
                    == apply_remote_topics(s0, models, user_id@, project_id@, now),
            decreases n - i,
        {
            let ghost pre = repo@;
            let item = &items[i];
            if !is_blank(item.id.as_str()) {
                let res = repo.sync_project_topic(
                    item.id.as_str(),
                    user_id,
                    project_id,
                    item.title.as_str(),
                    item.payload.as_str(),
                    opt_as_str(&item.batch_date),
                    opt_as_str(&item.source_uid),
                    item.status,
                    item.server_version,
                    item.is_deleted,
                    None,
                    now,
                );
                proof {
                    assert(has_user_id(pre.users, user_id@));
                    assert(has_project_id(pre.projects, project_id@));
                    assert(res is Ok);
                }
            }
            proof {
                assert(models[i as int] == items[i as int]@);
                assert(models.skip(i as int).len() > 0);
                assert(models.skip(i as int)[0] == models[i as int]);
                assert(models.skip(i as int).drop_first() =~= models.skip(i as int + 1));
                assert(repo@ == pull_topic_step(pre, models[i as int], user_id@, project_id@, now));
                assert(apply_remote_topics(pre, models.skip(i as int), user_id@, project_id@, now)
                    == apply_remote_topics(
                    repo@,
                    models.skip(i as int + 1),
                    user_id@,
                    project_id@,
                    now,
                ));
            }
            i = i + 1;
        }
        proof {
            assert(models.skip(n as int) =~= Seq::<RemoteTopicModel>::empty());
        }
    }

    /// Applies one confirmation row of a batched topic upsert: a blank id is
    /// skipped, any other marks that row synced at the confirmed version.
    pub fn apply_push_ack(repo: &mut Repository, ack: &TopicAck, now: i64)
        requires
            old(repo)@.wf(),
        ensures
            final(repo)@.wf(),
            blank_text(ack@.id) ==> final(repo)@ == old(repo)@,
            !blank_text(ack@.id) ==> final(repo)@ == mark_topic_synced_model(
                old(repo)@,
                ack@.id,
                ack@.server_version,
                now,
            ),
    {
        if !is_blank(ack.id.as_str()) {
            repo.mark_project_topic_synced(ack.id.as_str(), ack.server_version, now);
        }
    }
}

impl<R: RemoteService> SyncProvider<R> for ProjectTopicProvider {
    fn name(&self) -> &'static str {
        "ProjectTopic"
    }

    fn pull(
        &self,
        remote: &mut R,
        repo: &mut Repository,
        user_id: &str,
        token: &str,
        now: i64,
    ) -> (r: Result<(), SyncError>)
        ensures
            old(repo)@.projects.filter(live_user_project(user_id@)).len() == 0 ==> r is Ok
                && *final(repo) == *old(repo) && *final(remote) == *old(remote),
            exists|rounds: Seq<(Seq<char>, Seq<RemoteTopicModel>)>|
                final(repo)@ == apply_topic_pull_rounds(old(repo)@, rounds, user_id@, now),
    {
        let ghost s0 = repo@;
        let ghost live = s0.projects.filter(live_user_project(user_id@));
        let projects = repo.list_projects(user_id);
        proof {
            vstd::seq_lib::to_multiset_len(project_models(projects@));
            vstd::seq_lib::to_multiset_len(live);
            assert(projects@.len() == live.len());
        }
        if projects.len() == 0 {
            proof {
                let no_rounds: Seq<(Seq<char>, Seq<RemoteTopicModel>)> = Seq::empty();
                assert(repo@ == apply_topic_pull_rounds(s0, no_rounds, user_id@, now));
            }
            return Ok(());
        }
        let ghost mut rounds: Seq<(Seq<char>, Seq<RemoteTopicModel>)> = Seq::empty();
        let n = projects.len();
        let mut i: usize = 0;
        proof {
            assert(repo@ == apply_topic_pull_rounds(s0, rounds, user_id@, now));
        }
        while i < n
            invariant
                n == projects.len(),
                i <= n,
                repo@.wf(),
                s0 == old(repo)@,
                live == s0.projects.filter(live_user_project(user_id@)),
                n == live.len(),
                repo@ == apply_topic_pull_rounds(s0, rounds, user_id@, now),
            decreases n - i,
        {
            let project_id = &projects[i].id;
            let items = match remote.fetch_project_topics(project_id.as_str(), token) {
                Ok(v) => v,
                Err(e) => {
                    return Err(e);
                },
            };
            // The listed project normally exists already; provisioning makes
            // that a proven fact whatever the listing returned.
            let ghost pre = repo@;
            repo.ensure_project_exists(project_id.as_str(), user_id, now);
            ProjectTopicProvider::apply_pull(repo, user_id, project_id.as_str(), &items, now);
            proof {
                let round = (project_id@, remote_topic_models(items@));
                assert(repo@ == topic_pull_round(pre, round, user_id@, now));
                lemma_topic_pull_rounds_push(s0, rounds, round, user_id@, now);
                rounds = rounds.push(round);
            }
            i = i + 1;
        }
        Ok(())
    }

    fn push(
        &self,
        remote: &mut R,
        repo: &mut Repository,
        user_id: &str,
        token: &str,
        now: i64,
    ) -> (r: Result<(), SyncError>)
        ensures
            !has_pending_topics(old(repo)@.topics) ==> r is Ok && *final(repo) == *old(repo)
                && *final(remote) == *old(remote),
            exists|confirms: Seq<(Seq<char>, i64)>|
                final(repo)@ == mark_topics_fold(old(repo)@, confirms, now),
    {
        let ghost s0 = repo@;
        let ghost repo0 = *repo;
        let ghost remote0 = *remote;
        let ghost mut confirms: Seq<(Seq<char>, i64)> = Seq::empty();
        let projects = repo.list_projects(user_id);
        let mut first_err: Option<SyncError> = None;
        let n = projects.len();
        let mut i: usize = 0;
        proof {
            assert(repo@ == mark_topics_fold(s0, confirms, now));
        }
        while i < n
            invariant
                n == projects.len(),
                i <= n,
                repo@.wf(),
                repo@ == mark_topics_fold(s0, confirms, now),
                !has_pending_topics(s0.topics) ==> *repo == repo0 && *remote == remote0
                    && first_err is None,
                repo0@ == s0,
            decreases n - i,
        {
            let project_id = &projects[i].id;
            let pending = repo.list_pending_project_topics(project_id.as_str());
            if pending.len() > 0 {
                proof {
                    // With nothing pending anywhere, no per-project pending
                    // list can be populated.
                    if !has_pending_topics(s0.topics) {
                        let pred = pending_topic_pred(project_id@);
                        let pend_here = repo@.topics.filter(pred);
                        assert(topic_models(pending@).len() == pend_here.len());
                        assert(pend_here.len() > 0);
                        repo@.topics.lemma_filter_pred(pred, 0);
                        crate::laws::lemma_filter_subset(repo@.topics, pred);
                        assert(repo@.topics.contains(pend_here[0]));
                        let j = choose|j: int|
                            0 <= j < repo@.topics.len() && repo@.topics[j] == pend_here[0];
                        assert(s0.topics[j].sync_status == crate::status::SyncStatus::Pending);
                        assert(false);
                    }
                }
                let mut records: Vec<TopicPushRecord> = Vec::new();
                let m = pending.len();
                let mut j: usize = 0;
                while j < m
                    invariant
                        m == pending.len(),
                        j <= m,
                    decreases m - j,
                {
                    records.push(TopicPushRecord::from_topic(&pending[j]));
                    j = j + 1;
                }
                match remote.upsert_project_topics(project_id.as_str(), &records, token) {
                    Ok(acks) => {
                        let a = acks.len();
                        let mut k: usize = 0;
                        while k < a
                            invariant
                                a == acks.len(),
                                k <= a,
                                repo@.wf(),
                                repo@ == mark_topics_fold(s0, confirms, now),
                            decreases a - k,
                        {
                            let ghost pre = repo@;
                            ProjectTopicProvider::apply_push_ack(repo, &acks[k], now);
                            proof {
                                if !crate::remote::blank_text(acks[k as int]@.id) {
                                    let c = (acks[k as int]@.id, acks[k as int]@.server_version);
                                    lemma_mark_topics_fold_push(s0, confirms, c, now);
                                    confirms = confirms.push(c);
                                }
                            }
                            k = k + 1;
                        }
                    },
                    Err(e) => {
                        if first_err.is_none() {
                            first_err = Some(e);
                        }
                    },
                }
            }
            i = i + 1;
        }
        match first_err {
            None => Ok(()),
            Some(e) => Err(e),
        }
    }
}


/// One provider's possible pull effect on the store: whatever the remote
/// answered, the store moved exactly as that provider's pull protocol allows.
pub open spec fn pull_step_effect(
    k: ProviderKind,
    s: StoreModel,
    s2: StoreModel,
    user_id: Seq<char>,
    now: i64,
) -> bool {
    match k {
        ProviderKind::User => s2 == s || (exists|ru: crate::remote::RemoteUserModel|
            s2 == crate::store::sync_user_model(
                s,
                ru.uuid,
                ru.email,
                Some(ru.username),
                Some(ru.nickname),
                ru.avatar,
                now,
            )),
        ProviderKind::Project => s2 == ensure_user_model(s, user_id, now) || (exists|
            items: Seq<RemoteProjectModel>,
        |
            s2 == apply_remote_projects(ensure_user_model(s, user_id, now), items, user_id, now)),
        ProviderKind::PlatformAccount => s2 == ensure_user_model(s, user_id, now) || (exists|
            items: Seq<RemoteAccountModel>,
        |
            s2 == apply_remote_accounts(ensure_user_model(s, user_id, now), items, user_id, now)),
        ProviderKind::ProjectTopic => exists|rounds: Seq<(Seq<char>, Seq<RemoteTopicModel>)>|
            s2 == apply_topic_pull_rounds(s, rounds, user_id, now),
    }
}

/// One provider's possible push effect on the store: some set of rows got
/// confirmation marks, nothing else moved.
pub open spec fn push_step_effect(
    k: ProviderKind,
    s: StoreModel,
    s2: StoreModel,
    user_id: Seq<char>,
    now: i64,
) -> bool {
    match k {
        ProviderKind::User => s2 == s,
        ProviderKind::Project => exists|confirms: Seq<(Seq<char>, i64)>|
            s2 == mark_projects_fold(s, confirms, now),
        ProviderKind::PlatformAccount => exists|confirms: Seq<(Seq<char>, i64)>|
            s2 == mark_accounts_fold(s, confirms, now),
        ProviderKind::ProjectTopic => exists|confirms: Seq<(Seq<char>, i64)>|
            s2 == mark_topics_fold(s, confirms, now),
    }
}

/// One step of a reconciliation pass: some provider's pull or push effect.
pub open spec fn pass_step(s: StoreModel, s2: StoreModel, user_id: Seq<char>, now: i64) -> bool {
    exists|k: ProviderKind|
        #![trigger pull_step_effect(k, s, s2, user_id, now)]
        #![trigger push_step_effect(k, s, s2, user_id, now)]
        pull_step_effect(k, s, s2, user_id, now) || push_step_effect(k, s, s2, user_id, now)
}

/// The store states reachable by at most `n` provider steps of one pass.
pub open spec fn pass_reachable(
    s: StoreModel,
    s2: StoreModel,
    user_id: Seq<char>,
    now: i64,
    n: nat,
) -> bool
    decreases n,
{
    s == s2 || (n > 0 && exists|mid: StoreModel|
        #[trigger] pass_step(s, mid, user_id, now) && pass_reachable(
            mid,
            s2,
            user_id,
            now,
            (n - 1) as nat,
        ))
}

/// Reachability extends by one more step at the end of the chain.
pub proof fn lemma_pass_reachable_extend(
    s0: StoreModel,
    s1: StoreModel,
    s2: StoreModel,
    user_id: Seq<char>,
    now: i64,
    n: nat,
)
    requires
        pass_reachable(s0, s1, user_id, now, n),
        pass_step(s1, s2, user_id, now),
    ensures
        pass_reachable(s0, s2, user_id, now, n + 1),
    decreases n,
{
    if s0 == s1 {
        assert(pass_reachable(s2, s2, user_id, now, n));
        assert(pass_step(s0, s2, user_id, now));
    } else {
        let mid = choose|mid: StoreModel|
            #[trigger] pass_step(s0, mid, user_id, now) && pass_reachable(
                mid,
                s1,
                user_id,
                now,
                (n - 1) as nat,
            );
        lemma_pass_reachable_extend(mid, s1, s2, user_id, now, (n - 1) as nat);
        assert(pass_reachable(mid, s2, user_id, now, n));
    }
}

} // verus!
