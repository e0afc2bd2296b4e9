//! Laws of the synchronization layer that span several operations, proved
//! over the store's mathematical model.

use vstd::prelude::*;

use crate::status::SyncStatus;
use crate::store::{
    account_key, has_account_id, has_account_key, has_project_id, has_topic_id, StoreModel,
};
use crate::store_accounts::{
    account_index_of_id, account_index_of_key, sync_platform_account_model,
};
use crate::store_projects::{
    mark_project_synced_model, pending_project_pred, sync_project_model,
};
use crate::store_topics::sync_project_topic_model;

verus! {

/// Every element a filter keeps is an element of the filtered sequence.
pub proof fn lemma_filter_subset<A>(s: Seq<A>, pred: spec_fn(A) -> bool)
    ensures
        forall|i: int| 0 <= i < s.filter(pred).len() ==> s.contains(#[trigger] s.filter(pred)[i]),
    decreases s.len(),
{
    reveal(Seq::filter);
    if s.len() > 0 {
        lemma_filter_subset(s.drop_last(), pred);
        let f = s.filter(pred);
        let fd = s.drop_last().filter(pred);
        assert forall|i: int| 0 <= i < f.len() implies s.contains(#[trigger] f[i]) by {
            if pred(s.last()) {
                if i < fd.len() {
                    assert(f[i] == fd[i]);
                    assert(s.drop_last().contains(fd[i]));
                    let j = choose|j: int|
                        0 <= j < s.drop_last().len() && s.drop_last()[j] == fd[i];
                    assert(s[j] == fd[i]);
                } else {
                    assert(f[i] == s.last());
                    assert(s[s.len() - 1] == s.last());
                }
            } else {
                assert(f[i] == fd[i]);
                assert(s.drop_last().contains(fd[i]));
                let j = choose|j: int| 0 <= j < s.drop_last().len() && s.drop_last()[j] == fd[i];
                assert(s[j] == fd[i]);
            }
        }
    }
}

/// After a push confirmation for a project row, that row is `Synced` and
/// carries the remote-confirmed version — and it is absent from the set a
/// push submits, so a repeated push of the unchanged row makes no remote
/// call for it.
pub proof fn lemma_push_confirmation_clears_pending(
    s: StoreModel,
    id: Seq<char>,
    user_id: Seq<char>,
    server_version: i64,
    now: i64,
)
    ensures
        ({
            let s2 = mark_project_synced_model(s, id, server_version, now);
            &&& forall|i: int|
                0 <= i < s2.projects.len() && (#[trigger] s2.projects[i]).id == id
                    ==> s2.projects[i].sync_status == SyncStatus::Synced
                    && s2.projects[i].server_version == server_version
            &&& forall|i: int|
                0 <= i < s2.projects.filter(pending_project_pred(user_id)).len() ==> (
                #[trigger] s2.projects.filter(pending_project_pred(user_id))[i]).id != id
        }),
{
    let s2 = mark_project_synced_model(s, id, server_version, now);
    let pred = pending_project_pred(user_id);
    let f = s2.projects.filter(pred);
    lemma_filter_subset(s2.projects, pred);
    assert forall|i: int| 0 <= i < f.len() implies (#[trigger] f[i]).id != id by {
        s2.projects.lemma_filter_pred(pred, i);
        assert(s2.projects.contains(f[i]));
        let j = choose|j: int| 0 <= j < s2.projects.len() && s2.projects[j] == f[i];
        if f[i].id == id {
            assert(s2.projects[j].sync_status == SyncStatus::Synced);
        }
    }
}

/// Applying one identical pulled project record twice, at one clock reading,
/// leaves exactly what one application leaves: one matching local row exists,
/// and the second application changes nothing.
pub proof fn lemma_project_pull_idempotent(
    s: StoreModel,
    id: Seq<char>,
    user_id: Seq<char>,
    name: Seq<char>,
    description: Option<Seq<char>>,
    cloud_id: Option<i64>,
    server_version: i64,
    now: i64,
)
    requires
        s.wf(),
    ensures
        ({
            let once = sync_project_model(s, id, user_id, name, description, cloud_id, server_version, now);
            &&& has_project_id(once.projects, id)
            &&& sync_project_model(once, id, user_id, name, description, cloud_id, server_version, now)
                == once
        }),
{
    let once = sync_project_model(s, id, user_id, name, description, cloud_id, server_version, now);
    if has_project_id(s.projects, id) {
        let j = choose|j: int| 0 <= j < s.projects.len() && s.projects[j].id == id;
        assert(once.projects[j].id == id);
        assert(has_project_id(once.projects, id));
        let twice = sync_project_model(
            once,
            id,
            user_id,
            name,
            description,
            cloud_id,
            server_version,
            now,
        );
        assert forall|k: int| 0 <= k < once.projects.len() implies twice.projects[k]
            == once.projects[k] by {
            let p = s.projects[k];
            if p.id == id {
                if p.sync_status == SyncStatus::Pending {
                    assert(once.projects[k] == p);
                } else {
                    match description {
                        Some(d) => {},
                        None => {},
                    }
                    match cloud_id {
                        Some(c) => {},
                        None => {},
                    }
                }
            }
        }
        assert(twice.projects =~= once.projects);
        assert(twice =~= once);
    } else {
        assert(once.projects[s.projects.len() as int].id == id);
        assert(has_project_id(once.projects, id));
        let twice = sync_project_model(
            once,
            id,
            user_id,
            name,
            description,
            cloud_id,
            server_version,
            now,
        );
        assert forall|k: int| 0 <= k < once.projects.len() implies twice.projects[k]
            == once.projects[k] by {
            if k < s.projects.len() {
                assert(!(s.projects[k].id == id));
            } else {
                match description {
                    Some(d) => {},
                    None => {},
                }
                match cloud_id {
                    Some(c) => {},
                    None => {},
                }
            }
        }
        assert(twice.projects =~= once.projects);
        assert(twice =~= once);
    }
}

/// The same, for one pulled topic record.
pub proof fn lemma_topic_pull_idempotent(
    s: StoreModel,
    id: Seq<char>,
    user_id: Seq<char>,
    project_id: Seq<char>,
    title: Seq<char>,
    payload: Seq<char>,
    batch_date: Option<Seq<char>>,
    source_uid: Option<Seq<char>>,
    status: i64,
    server_version: i64,
    is_deleted: bool,
    deleted_at: Option<i64>,
    now: i64,
)
    requires
        s.wf(),
    ensures
        ({
            let once = sync_project_topic_model(
                s,
                id,
                user_id,
                project_id,
                title,
                payload,
                batch_date,
                source_uid,
                status,
                server_version,
                is_deleted,
                deleted_at,
                now,
            );
            &&& has_topic_id(once.topics, id)
            &&& sync_project_topic_model(
                once,
                id,
                user_id,
                project_id,
                title,
                payload,
                batch_date,
                source_uid,
                status,
                server_version,
                is_deleted,
                deleted_at,
                now,
            ) == once
        }),
{
    let once = sync_project_topic_model(
        s,
        id,
        user_id,
        project_id,
        title,
        payload,
        batch_date,
        source_uid,
        status,
        server_version,
        is_deleted,
        deleted_at,
        now,
    );
    if has_topic_id(s.topics, id) {
        let j = choose|j: int| 0 <= j < s.topics.len() && s.topics[j].id == id;
        assert(once.topics[j].id == id);
        assert(has_topic_id(once.topics, id));
        let twice = sync_project_topic_model(
            once,
            id,
            user_id,
            project_id,
            title,
            payload,
            batch_date,
            source_uid,
            status,
            server_version,
            is_deleted,
            deleted_at,
            now,
        );
        assert forall|k: int| 0 <= k < once.topics.len() implies twice.topics[k]
            == once.topics[k] by {
            let t = s.topics[k];
            if t.id == id {
                if t.sync_status == SyncStatus::Pending {
                    assert(once.topics[k] == t);
                } else {
                    match batch_date {
                        Some(d) => {},
                        None => {},
                    }
                    match source_uid {
                        Some(u) => {},
                        None => {},
                    }
                }
            }
        }
        assert(twice.topics =~= once.topics);
        assert(twice =~= once);
    } else {
        assert(once.topics[s.topics.len() as int].id == id);
        assert(has_topic_id(once.topics, id));
        let twice = sync_project_topic_model(
            once,
            id,
            user_id,
            project_id,
            title,
            payload,
            batch_date,
            source_uid,
            status,
            server_version,
            is_deleted,
            deleted_at,
            now,
        );
        assert forall|k: int| 0 <= k < once.topics.len() implies twice.topics[k]
            == once.topics[k] by {
            if k < s.topics.len() {
                assert(!(s.topics[k].id == id));
            } else {
                match batch_date {
                    Some(d) => {},
                    None => {},
                }
                match source_uid {
                    Some(u) => {},
                    None => {},
                }
            }
        }
        assert(twice.topics =~= once.topics);
        assert(twice =~= once);
    }
}


/// Applying one identical pulled account record twice, at one clock reading,
/// leaves exactly what one application leaves. The record's id and secondary
/// key must agree: where one local row carries the id while a different one
/// carries the key, the two applications land on two different rows.
pub proof fn lemma_account_pull_idempotent(
    s: StoreModel,
    id: Seq<char>,
    user_id: Seq<char>,
    project_id: Seq<char>,
    platform: Seq<char>,
    account_id: Seq<char>,
    account_name: Option<Seq<char>>,
    avatar_url: Option<Seq<char>>,
    followers_count: i64,
    following_count: i64,
    posts_count: i64,
    is_active: bool,
    session_valid: bool,
    metadata: Option<Seq<char>>,
    is_deleted: bool,
    server_version: i64,
    now: i64,
)
    requires
        s.wf(),
        has_account_id(s.accounts, id) ==> account_key(
            s.accounts[account_index_of_id(s.accounts, id)],
        ) == (project_id, platform, account_id),
        has_account_key(s.accounts, (project_id, platform, account_id))
            ==> s.accounts[account_index_of_key(
            s.accounts,
            (project_id, platform, account_id),
        )].id == id,
    ensures
        ({
            let once = sync_platform_account_model(
                s,
                id,
                user_id,
                project_id,
                platform,
                account_id,
                account_name,
                avatar_url,
                followers_count,
                following_count,
                posts_count,
                is_active,
                session_valid,
                metadata,
                is_deleted,
                server_version,
                now,
            );
            sync_platform_account_model(
                once,
                id,
                user_id,
                project_id,
                platform,
                account_id,
                account_name,
                avatar_url,
                followers_count,
                following_count,
                posts_count,
                is_active,
                session_valid,
                metadata,
                is_deleted,
                server_version,
                now,
            ) == once
        }),
{
    let key = (project_id, platform, account_id);
    let once = sync_platform_account_model(
        s,
        id,
        user_id,
        project_id,
        platform,
        account_id,
        account_name,
        avatar_url,
        followers_count,
        following_count,
        posts_count,
        is_active,
        session_valid,
        metadata,
        is_deleted,
        server_version,
        now,
    );
    if has_account_id(s.accounts, id) || has_account_key(s.accounts, key) {
        if !has_account_id(s.accounts, id) {
            // The key row carries the id, so the id is present after all.
            let kk = account_index_of_key(s.accounts, key);
            assert(0 <= kk < s.accounts.len() && account_key(s.accounts[kk]) == key);
            assert(s.accounts[kk].id == id);
        }
        assert(has_account_id(s.accounts, id));
        let idx = account_index_of_id(s.accounts, id);
        assert(0 <= idx < s.accounts.len() && s.accounts[idx].id == id);
        assert(account_key(s.accounts[idx]) == key);
        let row = s.accounts[idx];
        if row.sync_status == SyncStatus::Pending {
            assert(once == s);
        } else if is_deleted {
            crate::store_accounts::lemma_account_remove_preserves(s.accounts, idx);
            assert forall|x: Seq<char>| !(#[trigger] has_account_id(once.accounts, x)) || x != id
                by {
                if has_account_id(once.accounts, x) && x == id {
                    let k = choose|k: int|
                        0 <= k < once.accounts.len() && once.accounts[k].id == x;
                    if k < idx {
                        assert(once.accounts[k] == s.accounts[k]);
                        assert(s.accounts[k].id != s.accounts[idx].id);
                    } else {
                        assert(once.accounts[k] == s.accounts[k + 1]);
                        assert(s.accounts[idx].id != s.accounts[k + 1].id);
                    }
                }
            }
            assert(!has_account_id(once.accounts, id));
            assert forall|x: (Seq<char>, Seq<char>, Seq<char>)| !(#[trigger] has_account_key(
                once.accounts,
                x,
            )) || x != key by {
                if has_account_key(once.accounts, x) && x == key {
                    let k = choose|k: int|
                        0 <= k < once.accounts.len() && account_key(once.accounts[k]) == x;
                    if k < idx {
                        assert(once.accounts[k] == s.accounts[k]);
                        assert(account_key(s.accounts[k]) != account_key(s.accounts[idx]));
                    } else {
                        assert(once.accounts[k] == s.accounts[k + 1]);
                        assert(account_key(s.accounts[idx]) != account_key(s.accounts[k + 1]));
                    }
                }
            }
            assert(!has_account_key(once.accounts, key));
        } else {
            let merged = crate::store_accounts::remote_account_fields_merge(
                row,
                account_name,
                avatar_url,
                followers_count,
                following_count,
                posts_count,
                is_active,
                session_valid,
                metadata,
                server_version,
                now,
            );
            assert(once.accounts == s.accounts.update(idx, merged));
            assert(once.accounts[idx] == merged);
            crate::store_accounts::lemma_account_update_same_key(s.accounts, idx, merged);
            assert(has_account_id(once.accounts, id));
            crate::store::Repository::lemma_id_index(once.accounts, id, idx);
            let merged2 = crate::store_accounts::remote_account_fields_merge(
                merged,
                account_name,
                avatar_url,
                followers_count,
                following_count,
                posts_count,
                is_active,
                session_valid,
                metadata,
                server_version,
                now,
            );
            match account_name {
                Some(v) => {},
                None => {},
            }
            match avatar_url {
                Some(v) => {},
                None => {},
            }
            match metadata {
                Some(v) => {},
                None => {},
            }
            assert(merged2 == merged);
            let twice = sync_platform_account_model(
                once,
                id,
                user_id,
                project_id,
                platform,
                account_id,
                account_name,
                avatar_url,
                followers_count,
                following_count,
                posts_count,
                is_active,
                session_valid,
                metadata,
                is_deleted,
                server_version,
                now,
            );
            assert(twice.accounts == once.accounts.update(idx, merged2));
            assert forall|k: int| 0 <= k < once.accounts.len() implies twice.accounts[k]
                == once.accounts[k] by {}
            assert(twice.accounts =~= once.accounts);
            assert(twice =~= once);
        }
    } else {
        if is_deleted {
            assert(once == s);
        } else {
            let fresh = crate::store_accounts::fresh_remote_account(
                id,
                user_id,
                project_id,
                platform,
                account_id,
                account_name,
                avatar_url,
                followers_count,
                following_count,
                posts_count,
                is_active,
                session_valid,
                metadata,
                server_version,
                now,
            );
            assert(once.accounts == s.accounts.push(fresh));
            let fresh_at = s.accounts.len() as int;
            assert(once.accounts[fresh_at] == fresh);
            assert(has_account_id(once.accounts, id));
            crate::store_accounts::lemma_account_push(s.accounts, fresh);
            crate::store::Repository::lemma_id_index(once.accounts, id, fresh_at);
            let merged2 = crate::store_accounts::remote_account_fields_merge(
                fresh,
                account_name,
                avatar_url,
                followers_count,
                following_count,
                posts_count,
                is_active,
                session_valid,
                metadata,
                server_version,
                now,
            );
            match account_name {
                Some(v) => {},
                None => {},
            }
            match avatar_url {
                Some(v) => {},
                None => {},
            }
            match metadata {
                Some(v) => {},
                None => {},
            }
            assert(merged2 == fresh);
            let twice = sync_platform_account_model(
                once,
                id,
                user_id,
                project_id,
                platform,
                account_id,
                account_name,
                avatar_url,
                followers_count,
                following_count,
                posts_count,
                is_active,
                session_valid,
                metadata,
                is_deleted,
                server_version,
                now,
            );
            assert(twice.accounts == once.accounts.update(fresh_at, merged2));
            assert forall|k: int| 0 <= k < once.accounts.len() implies twice.accounts[k]
                == once.accounts[k] by {}
            assert(twice.accounts =~= once.accounts);
            assert(twice =~= once);
        }
    }
}


/// A push confirms only what the remote accepted: a row whose id received no
/// confirmation is untouched by the whole push fold — in particular, a
/// rejected `Pending` row stays `Pending`, to be retried by a later pass.
pub proof fn lemma_push_fold_skips_unconfirmed_project(
    s: StoreModel,
    confirms: Seq<(Seq<char>, i64)>,
    now: i64,
    i: int,
)
    requires
        0 <= i < s.projects.len(),
        forall|k: int| 0 <= k < confirms.len() ==> (#[trigger] confirms[k]).0 != s.projects[i].id,
    ensures
        crate::providers::mark_projects_fold(s, confirms, now).projects.len()
            == s.projects.len(),
        crate::providers::mark_projects_fold(s, confirms, now).projects[i] == s.projects[i],
    decreases confirms.len(),
{
    if confirms.len() > 0 {
        let stepped = mark_project_synced_model(s, confirms[0].0, confirms[0].1, now);
        assert(stepped.projects[i] == s.projects[i]);
        assert(stepped.projects.len() == s.projects.len());
        assert forall|k: int| 0 <= k < confirms.drop_first().len() implies (
        #[trigger] confirms.drop_first()[k]).0 != stepped.projects[i].id by {
            assert(confirms.drop_first()[k] == confirms[k + 1]);
        }
        lemma_push_fold_skips_unconfirmed_project(stepped, confirms.drop_first(), now, i);
    }
}

/// The same, for the account push fold.
pub proof fn lemma_push_fold_skips_unconfirmed_account(
    s: StoreModel,
    confirms: Seq<(Seq<char>, i64)>,
    now: i64,
    i: int,
)
    requires
        0 <= i < s.accounts.len(),
        forall|k: int| 0 <= k < confirms.len() ==> (#[trigger] confirms[k]).0 != s.accounts[i].id,
    ensures
        crate::providers::mark_accounts_fold(s, confirms, now).accounts.len()
            == s.accounts.len(),
        crate::providers::mark_accounts_fold(s, confirms, now).accounts[i] == s.accounts[i],
    decreases confirms.len(),
{
    if confirms.len() > 0 {
        let stepped = crate::store_accounts::mark_account_synced_model(
            s,
            confirms[0].0,
            confirms[0].1,
            now,
        );
        assert(stepped.accounts[i] == s.accounts[i]);
        assert(stepped.accounts.len() == s.accounts.len());
        assert forall|k: int| 0 <= k < confirms.drop_first().len() implies (
        #[trigger] confirms.drop_first()[k]).0 != stepped.accounts[i].id by {
            assert(confirms.drop_first()[k] == confirms[k + 1]);
        }
        lemma_push_fold_skips_unconfirmed_account(stepped, confirms.drop_first(), now, i);
    }
}

/// The same, for the topic push fold.
pub proof fn lemma_push_fold_skips_unconfirmed_topic(
    s: StoreModel,
    confirms: Seq<(Seq<char>, i64)>,
    now: i64,
    i: int,
)
    requires
        0 <= i < s.topics.len(),
        forall|k: int| 0 <= k < confirms.len() ==> (#[trigger] confirms[k]).0 != s.topics[i].id,
    ensures
        crate::providers::mark_topics_fold(s, confirms, now).topics.len() == s.topics.len(),
        crate::providers::mark_topics_fold(s, confirms, now).topics[i] == s.topics[i],
    decreases confirms.len(),
{
    if confirms.len() > 0 {
        let stepped = crate::store_topics::mark_topic_synced_model(
            s,
            confirms[0].0,
            confirms[0].1,
            now,
        );
        assert(stepped.topics[i] == s.topics[i]);
        assert(stepped.topics.len() == s.topics.len());
        assert forall|k: int| 0 <= k < confirms.drop_first().len() implies (
        #[trigger] confirms.drop_first()[k]).0 != stepped.topics[i].id by {
            assert(confirms.drop_first()[k] == confirms[k + 1]);
        }
        lemma_push_fold_skips_unconfirmed_topic(stepped, confirms.drop_first(), now, i);
    }
}

} // verus!
