//! Platform-account table operations. Accounts mirror remote truth: a pulled
//! deletion removes the local row outright, and the secondary key
//! `(project_id, platform, account_id)` makes repeated pulls of one remote
//! record land in one local row instead of duplicating it.

use vstd::prelude::*;
use vstd::pervasive::VecAdditionalExecFns;

use crate::errors::StoreError;
use crate::model::{PlatformAccount, PlatformAccountModel};
use crate::status::{str_eq, SyncStatus};
use crate::store::{
    account_key, coalesce_seq, coalesce_str_field, has_account_id, has_account_key,
    has_project_id, has_user_id, lemma_wf_after_accounts_change, opt_str_view, Repository,
    StoreModel, unique_account_ids, unique_account_keys,
};

verus! {

/// Index of the row carrying an id (meaningful when one exists; unique).
pub open spec fn account_index_of_id(s: Seq<PlatformAccountModel>, id: Seq<char>) -> int {
    choose|i: int| 0 <= i < s.len() && s[i].id == id
}

/// Index of the row carrying a secondary key (meaningful when one exists).
pub open spec fn account_index_of_key(
    s: Seq<PlatformAccountModel>,
    key: (Seq<char>, Seq<char>, Seq<char>),
) -> int {
    choose|i: int| 0 <= i < s.len() && account_key(s[i]) == key
}

/// An account row born from a user-driven creation.
pub open spec fn fresh_local_account(
    id: Seq<char>,
    user_id: Seq<char>,
    project_id: Seq<char>,
    platform: Seq<char>,
    account_id: Seq<char>,
    account_name: Option<Seq<char>>,
    now: i64,
) -> PlatformAccountModel {
    PlatformAccountModel {
        id: id,
        user_id: user_id,
        project_id: project_id,
        platform: platform,
        account_id: account_id,
        account_name: account_name,
        avatar_url: None,
        is_active: true,
        session_valid: false,
        last_session_check: None,
        followers_count: 0,
        following_count: 0,
        posts_count: 0,
        metadata: None,
        last_profile_sync_at: None,
        is_deleted: false,
        deleted_at: None,
        synced_at: None,
        server_version: 0,
        local_version: 1,
        sync_status: SyncStatus::Pending,
        created_at: now,
        updated_at: now,
    }
}

/// A user-driven upsert landing on an existing key: the display name
/// coalesces, the row turns `Pending`, its local version steps by one.
pub open spec fn apply_account_local_upsert(
    a: PlatformAccountModel,
    account_name: Option<Seq<char>>,
    now: i64,
) -> PlatformAccountModel {
    PlatformAccountModel {
        account_name: coalesce_seq(account_name, a.account_name),
        sync_status: SyncStatus::Pending,
        local_version: (a.local_version + 1) as i64,
        updated_at: now,
        ..a
    }
}

/// Insert-or-update of a user-driven account registration, keyed by the
/// secondary key.
pub open spec fn upsert_local_account_model(
    s: StoreModel,
    id: Seq<char>,
    user_id: Seq<char>,
    project_id: Seq<char>,
    platform: Seq<char>,
    account_id: Seq<char>,
    account_name: Option<Seq<char>>,
    now: i64,
) -> StoreModel {
    let key = (project_id, platform, account_id);
    if has_account_key(s.accounts, key) {
        let idx = account_index_of_key(s.accounts, key);
        StoreModel {
            accounts: s.accounts.update(
                idx,
                apply_account_local_upsert(s.accounts[idx], account_name, now),
            ),
            ..s
        }
    } else {
        StoreModel {
            accounts: s.accounts.push(
                fresh_local_account(id, user_id, project_id, platform, account_id, account_name, now),
            ),
            ..s
        }
    }
}

/// Coalesce merge of pulled profile fields into an existing row; the row
/// turns `Synced` and adopts the remote version.
pub open spec fn remote_account_fields_merge(
    a: PlatformAccountModel,
    account_name: Option<Seq<char>>,
    avatar_url: Option<Seq<char>>,
    followers_count: i64,
    following_count: i64,
    posts_count: i64,
    is_active: bool,
    session_valid: bool,
    metadata: Option<Seq<char>>,
    server_version: i64,
    now: i64,
) -> PlatformAccountModel {
    PlatformAccountModel {
        account_name: coalesce_seq(account_name, a.account_name),
        avatar_url: coalesce_seq(avatar_url, a.avatar_url),
        followers_count: followers_count,
        following_count: following_count,
        posts_count: posts_count,
        is_active: is_active,
        session_valid: session_valid,
        metadata: coalesce_seq(metadata, a.metadata),
        is_deleted: false,
        deleted_at: None,
        sync_status: SyncStatus::Synced,
        server_version: server_version,
        synced_at: Some(now),
        updated_at: now,
        ..a
    }
}

/// An account row first seen through a pull.
pub open spec fn fresh_remote_account(
    id: Seq<char>,
    user_id: Seq<char>,
    project_id: Seq<char>,
    platform: Seq<char>,
    account_id: Seq<char>,
    account_name: Option<Seq<char>>,
    avatar_url: Option<Seq<char>>,
    followers_count: i64,
    following_count: i64,
    posts_count: i64,
    is_active: bool,
    session_valid: bool,
    metadata: Option<Seq<char>>,
    server_version: i64,
    now: i64,
) -> PlatformAccountModel {
    PlatformAccountModel {
        id: id,
        user_id: user_id,
        project_id: project_id,
        platform: platform,
        account_id: account_id,
        account_name: account_name,
        avatar_url: avatar_url,
        is_active: is_active,
        session_valid: session_valid,
        last_session_check: None,
        followers_count: followers_count,
        following_count: following_count,
        posts_count: posts_count,
        metadata: metadata,
        last_profile_sync_at: None,
        is_deleted: false,
        deleted_at: None,
        synced_at: Some(now),
        server_version: server_version,
        local_version: 0,
        sync_status: SyncStatus::Synced,
        created_at: now,
        updated_at: now,
    }
}

/// Upsert of one pulled account record. The matching row is found by id
/// first, then by the secondary key (a locally created row not yet pushed).
/// A `Pending` row defers the incoming record; a pulled deletion removes the
/// row outright (accounts are reconstructable mirrors).
pub open spec fn sync_platform_account_model(
    s: StoreModel,
    id: Seq<char>,
    user_id: Seq<char>,
    project_id: Seq<char>,
    platform: Seq<char>,
    account_id: Seq<char>,
    account_name: Option<Seq<char>>,
    avatar_url: Option<Seq<char>>,
    followers_count: i64,
    following_count: i64,
    posts_count: i64,
    is_active: bool,
    session_valid: bool,
    metadata: Option<Seq<char>>,
    is_deleted: bool,
    server_version: i64,
    now: i64,
) -> StoreModel {
    let key = (project_id, platform, account_id);
    if has_account_id(s.accounts, id) || has_account_key(s.accounts, key) {
        let idx = if has_account_id(s.accounts, id) {
            account_index_of_id(s.accounts, id)
        } else {
            account_index_of_key(s.accounts, key)
        };
        if s.accounts[idx].sync_status == SyncStatus::Pending {
            s
        } else if is_deleted {
            StoreModel { accounts: s.accounts.remove(idx), ..s }
        } else {
            StoreModel {
                accounts: s.accounts.update(
                    idx,
                    remote_account_fields_merge(
                        s.accounts[idx],
                        account_name,
                        avatar_url,
                        followers_count,
                        following_count,
                        posts_count,
                        is_active,
                        session_valid,
                        metadata,
                        server_version,
                        now,
                    ),
                ),
                ..s
            }
        }
    } else if is_deleted {
        s
    } else {
        StoreModel {
            accounts: s.accounts.push(
                fresh_remote_account(
                    id,
                    user_id,
                    project_id,
                    platform,
                    account_id,
                    account_name,
                    avatar_url,
                    followers_count,
                    following_count,
                    posts_count,
                    is_active,
                    session_valid,
                    metadata,
                    server_version,
                    now,
                ),
            ),
            ..s
        }
    }
}

/// Push confirmation for an account row.
pub open spec fn mark_account_synced_model(
    s: StoreModel,
    id: Seq<char>,
    server_version: i64,
    now: i64,
) -> StoreModel {
    StoreModel {
        accounts: s.accounts.map_values(
            |a: PlatformAccountModel|
                if a.id == id {
                    PlatformAccountModel {
                        sync_status: SyncStatus::Synced,
                        server_version: server_version,
                        synced_at: Some(now),
                        ..a
                    }
                } else {
                    a
                },
        ),
        ..s
    }
}

/// A pulled profile refresh applied to one row: every handed field is stored
/// as given (this mirrors the platform's own answer, so absent values clear).
pub open spec fn update_account_profile_model(
    s: StoreModel,
    id: Seq<char>,
    account_name: Option<Seq<char>>,
    avatar_url: Option<Seq<char>>,
    followers_count: i64,
    following_count: i64,
    posts_count: i64,
    metadata: Option<Seq<char>>,
    now: i64,
) -> StoreModel {
    StoreModel {
        accounts: s.accounts.map_values(
            |a: PlatformAccountModel|
                if a.id == id {
                    PlatformAccountModel {
                        account_name: account_name,
                        avatar_url: avatar_url,
                        followers_count: followers_count,
                        following_count: following_count,
                        posts_count: posts_count,
                        metadata: metadata,
                        last_profile_sync_at: Some(now),
                        updated_at: now,
                        ..a
                    }
                } else {
                    a
                },
        ),
        ..s
    }
}

/// Hard removal of the row with this id, if present.
pub open spec fn delete_account_model(s: StoreModel, id: Seq<char>) -> StoreModel {
    if has_account_id(s.accounts, id) {
        StoreModel { accounts: s.accounts.remove(account_index_of_id(s.accounts, id)), ..s }
    } else {
        s
    }
}

pub open spec fn has_live_account(s: Seq<PlatformAccountModel>, id: Seq<char>) -> bool {
    exists|i: int| 0 <= i < s.len() && s[i].id == id && !s[i].is_deleted
}

pub open spec fn live_project_account(project_id: Seq<char>) -> spec_fn(
    PlatformAccountModel,
) -> bool {
    |a: PlatformAccountModel| a.project_id == project_id && !a.is_deleted
}

pub open spec fn pending_account_pred(user_id: Seq<char>) -> spec_fn(PlatformAccountModel) -> bool {
    |a: PlatformAccountModel| a.user_id == user_id && a.sync_status == SyncStatus::Pending
}

/// Listing order: most recently created first.
pub open spec fn account_list_le(a: PlatformAccountModel, b: PlatformAccountModel) -> bool {
    a.created_at >= b.created_at
}

pub open spec fn sorted_accounts(s: Seq<PlatformAccountModel>) -> bool {
    forall|i: int, j: int| 0 <= i < j < s.len() ==> account_list_le(s[i], s[j])
}

pub open spec fn account_models(v: Seq<PlatformAccount>) -> Seq<PlatformAccountModel> {
    v.map_values(|a: PlatformAccount| a@)
}

/// Removing a row keeps uniqueness of ids and keys, and every remaining row
/// is one of the old rows.
pub proof fn lemma_account_remove_preserves(s: Seq<PlatformAccountModel>, i: int)
    requires
        0 <= i < s.len(),
        unique_account_ids(s),
        unique_account_keys(s),
    ensures
        unique_account_ids(s.remove(i)),
        unique_account_keys(s.remove(i)),
        s.remove(i).len() == s.len() - 1,
        forall|k: int| 0 <= k < i ==> #[trigger] s.remove(i)[k] == s[k],
        forall|k: int| i <= k < s.len() - 1 ==> #[trigger] s.remove(i)[k] == s[k + 1],
{
    s.remove_ensures(i);
    let r = s.remove(i);
    assert forall|a: int, b: int| 0 <= a < b < r.len() implies r[a].id != r[b].id && account_key(
        r[a],
    ) != account_key(r[b]) by {
        let pa: int = if a < i {
            a
        } else {
            a + 1
        };
        let pb: int = if b < i {
            b
        } else {
            b + 1
        };
        assert(r[a] == s[pa]);
        assert(r[b] == s[pb]);
        assert(pa < pb);
    }
}

/// Updating a row in place without changing its id or key keeps uniqueness
/// and the id set.
pub proof fn lemma_account_update_same_key(
    s: Seq<PlatformAccountModel>,
    i: int,
    v: PlatformAccountModel,
)
    requires
        0 <= i < s.len(),
        v.id == s[i].id,
        account_key(v) == account_key(s[i]),
        unique_account_ids(s),
        unique_account_keys(s),
    ensures
        unique_account_ids(s.update(i, v)),
        unique_account_keys(s.update(i, v)),
        forall|x: Seq<char>| #[trigger] has_account_id(s.update(i, v), x) == has_account_id(s, x),
{
    let r = s.update(i, v);
    assert forall|x: Seq<char>| #[trigger] has_account_id(r, x) == has_account_id(s, x) by {
        if has_account_id(s, x) {
            let k = choose|k: int| 0 <= k < s.len() && s[k].id == x;
            assert(r[k].id == x);
        }
        if has_account_id(r, x) {
            let k = choose|k: int| 0 <= k < r.len() && r[k].id == x;
            assert(s[k].id == x);
        }
    }
}

pub proof fn lemma_account_push(s: Seq<PlatformAccountModel>, a: PlatformAccountModel)
    ensures
        forall|x: Seq<char>| #[trigger] has_account_id(s.push(a), x) == (has_account_id(s, x)
            || a.id == x),
        unique_account_ids(s) && !has_account_id(s, a.id) ==> unique_account_ids(s.push(a)),
        unique_account_keys(s) && !has_account_key(s, account_key(a)) ==> unique_account_keys(
            s.push(a),
        ),
{
    assert forall|x: Seq<char>| #[trigger] has_account_id(s.push(a), x) == (has_account_id(s, x)
        || a.id == x) by {
        if has_account_id(s, x) {
            let i = choose|i: int| 0 <= i < s.len() && s[i].id == x;
            assert(s.push(a)[i].id == x);
        }
        if a.id == x {
            assert(s.push(a)[s.len() as int].id == x);
        }
        if has_account_id(s.push(a), x) {
            let i = choose|i: int| 0 <= i < s.push(a).len() && s.push(a)[i].id == x;
            if i < s.len() {
                assert(s[i].id == x);
            }
        }
    }
    if unique_account_ids(s) && !has_account_id(s, a.id) {
        assert forall|i: int, j: int| 0 <= i < j < s.push(a).len() implies s.push(a)[i].id
            != s.push(a)[j].id by {
            if j < s.len() {
                assert(s.push(a)[i] == s[i] && s.push(a)[j] == s[j]);
            } else {
                assert(s.push(a)[i] == s[i]);
                assert(!(s[i].id == a.id));
            }
        }
    }
    if unique_account_keys(s) && !has_account_key(s, account_key(a)) {
        assert forall|i: int, j: int| 0 <= i < j < s.push(a).len() implies account_key(
            s.push(a)[i],
        ) != account_key(s.push(a)[j]) by {
            if j < s.len() {
                assert(s.push(a)[i] == s[i] && s.push(a)[j] == s[j]);
            } else {
                assert(s.push(a)[i] == s[i]);
                assert(!(account_key(s[i]) == account_key(a)));
            }
        }
    }
}

impl Repository {
    pub(crate) fn find_account_index(&self, id: &str) -> (r: Option<usize>)
        ensures
            match r {
                Some(i) => i < self@.accounts.len() && self@.accounts[i as int].id == id@,
                None => !has_account_id(self@.accounts, id@),
            },
    {
        let mut i: usize = 0;
        while i < self.accounts.len()
            invariant
                i <= self.accounts.len(),
                forall|k: int| 0 <= k < i ==> (#[trigger] self@.accounts[k]).id != id@,
            decreases self.accounts.len() - i,
        {
            if str_eq(self.accounts[i].id.as_str(), id) {
                return Some(i);
            }
            i = i + 1;
        }
        None
    }

    pub(crate) fn find_account_key_index(
        &self,
        project_id: &str,
        platform: &str,
        account_id: &str,
    ) -> (r: Option<usize>)
        ensures
            match r {
                Some(i) => i < self@.accounts.len() && account_key(self@.accounts[i as int]) == (
                    project_id@,
                    platform@,
                    account_id@,
                ),
                None => !has_account_key(self@.accounts, (project_id@, platform@, account_id@)),
            },
    {
        let mut i: usize = 0;
        while i < self.accounts.len()
            invariant
                i <= self.accounts.len(),
                forall|k: int|
                    0 <= k < i ==> account_key(#[trigger] self@.accounts[k]) != (
                        project_id@,
                        platform@,
                        account_id@,
                    ),
            decreases self.accounts.len() - i,
        {
            if str_eq(self.accounts[i].project_id.as_str(), project_id) && str_eq(
                self.accounts[i].platform.as_str(),
                platform,
            ) && str_eq(self.accounts[i].account_id.as_str(), account_id) {
                return Some(i);
            }
            i = i + 1;
        }
        None
    }

    /// Two proof helpers tying the executable index search to the model's
    /// chosen index.
    pub proof fn lemma_id_index(s: Seq<PlatformAccountModel>, id: Seq<char>, i: int)
        requires
            unique_account_ids(s),
            0 <= i < s.len(),
            s[i].id == id,
        ensures
            has_account_id(s, id),
            account_index_of_id(s, id) == i,
    {
        assert(has_account_id(s, id));
        let ci = account_index_of_id(s, id);
        assert(0 <= ci < s.len() && s[ci].id == id);
        if ci != i {
            if ci < i {
                assert(s[ci].id != s[i].id);
            } else {
                assert(s[i].id != s[ci].id);
            }
        }
    }

    pub proof fn lemma_key_index(
        s: Seq<PlatformAccountModel>,
        key: (Seq<char>, Seq<char>, Seq<char>),
        i: int,
    )
        requires
            unique_account_keys(s),
            0 <= i < s.len(),
            account_key(s[i]) == key,
        ensures
            has_account_key(s, key),
            account_index_of_key(s, key) == i,
    {
        assert(has_account_key(s, key));
        let ci = account_index_of_key(s, key);
        assert(0 <= ci < s.len() && account_key(s[ci]) == key);
        if ci != i {
            if ci < i {
                assert(account_key(s[ci]) != account_key(s[i]));
            } else {
                assert(account_key(s[i]) != account_key(s[ci]));
            }
        }
    }

    /// Applies one pulled account record: the matching row is found by id,
    /// else by the secondary key; a `Pending` row defers the record; a pulled
    /// deletion removes the row; otherwise the fields coalesce-merge in.
    /// Fails only when a fresh row would lack its user or project parent.
    pub fn sync_platform_account(
        &mut self,
        id: &str,
        user_id: &str,
        project_id: &str,
        platform: &str,
        account_id: &str,
        account_name: Option<&str>,
        avatar_url: Option<&str>,
        followers_count: i64,
        following_count: i64,
        posts_count: i64,
        is_active: bool,
        session_valid: bool,
        metadata: Option<&str>,
        is_deleted: bool,
        server_version: i64,
        now: i64,
    ) -> (r: Result<(), StoreError>)
        requires
            old(self)@.wf(),
        ensures
            final(self)@.wf(),
            r is Ok <==> (has_account_id(old(self)@.accounts, id@) || has_account_key(
                old(self)@.accounts,
                (project_id@, platform@, account_id@),
            ) || is_deleted || (has_user_id(old(self)@.users, user_id@) && has_project_id(
                old(self)@.projects,
                project_id@,
            ))),
            match r {
                Ok(()) => final(self)@ == sync_platform_account_model(
                    old(self)@,
                    id@,
                    user_id@,
                    project_id@,
                    platform@,
                    account_id@,
                    opt_str_view(account_name),
                    opt_str_view(avatar_url),
                    followers_count,
                    following_count,
                    posts_count,
                    is_active,
                    session_valid,
                    opt_str_view(metadata),
                    is_deleted,
                    server_version,
                    now,
                ),
                Err(e) => {
                    &&& final(self)@ == old(self)@
                    &&& (e == StoreError::MissingUser <==> !has_user_id(
                        old(self)@.users,
                        user_id@,
                    ))
                    &&& (e == StoreError::MissingProject <==> has_user_id(
                        old(self)@.users,
                        user_id@,
                    ) && !has_project_id(old(self)@.projects, project_id@))
                },
            },
    {
        let ghost s1 = self@;
        let ghost key = (project_id@, platform@, account_id@);
        let ghost m = sync_platform_account_model(
            s1,
            id@,
            user_id@,
            project_id@,
            platform@,
            account_id@,
            opt_str_view(account_name),
            opt_str_view(avatar_url),
            followers_count,
            following_count,
            posts_count,
            is_active,
            session_valid,
            opt_str_view(metadata),
            is_deleted,
            server_version,
            now,
        );
        let by_id = self.find_account_index(id);
        let sel = match by_id {
            Some(i) => Some(i),
            None => self.find_account_key_index(project_id, platform, account_id),
        };
        match sel {
            Some(i) => {
                proof {
                    if by_id is Some {
                        Self::lemma_id_index(s1.accounts, id@, i as int);
                    } else {
                        Self::lemma_key_index(s1.accounts, key, i as int);
                    }
                }
                let ghost idx = i as int;
                if matches!(self.accounts[i].sync_status, SyncStatus::Pending) {
                    proof {
                        assert(self@ =~= m);
                    }
                    return Ok(());
                }
                if is_deleted {
                    self.accounts.remove(i);
                    proof {
                        let s2 = self@;
                        lemma_account_remove_preserves(s1.accounts, idx);
                        assert forall|k: int| 0 <= k < s2.accounts.len() implies s2.accounts[k]
                            == s1.accounts.remove(idx)[k] by {
                            if k < idx {
                                assert(s2.accounts[k] == s1.accounts[k]);
                            } else {
                                assert(s2.accounts[k] == s1.accounts[k + 1]);
                            }
                        }
                        assert(s2.accounts =~= s1.accounts.remove(idx));
                        assert(s2 =~= m);
                        assert forall|k: int| 0 <= k < s2.accounts.len() implies has_user_id(
                            s1.users,
                            (#[trigger] s2.accounts[k]).user_id,
                        ) && has_project_id(s1.projects, s2.accounts[k].project_id) by {
                            if k < idx {
                                assert(s2.accounts[k] == s1.accounts[k]);
                            } else {
                                assert(s2.accounts[k] == s1.accounts[k + 1]);
                            }
                        }
                        lemma_wf_after_accounts_change(s1, s2);
                    }
                    return Ok(());
                }
                let row = self.accounts[i].clone();
                let updated = PlatformAccount {
                    account_name: coalesce_str_field(account_name, &row.account_name),
                    avatar_url: coalesce_str_field(avatar_url, &row.avatar_url),
                    followers_count: followers_count,
                    following_count: following_count,
                    posts_count: posts_count,
                    is_active: is_active,
                    session_valid: session_valid,
                    metadata: coalesce_str_field(metadata, &row.metadata),
                    is_deleted: false,
                    deleted_at: None,
                    sync_status: SyncStatus::Synced,
                    server_version: server_version,
                    synced_at: Some(now),
                    updated_at: now,
                    ..row
                };
                self.accounts.set(i, updated);
                proof {
                    let s2 = self@;
                    let merged = remote_account_fields_merge(
                        s1.accounts[idx],
                        opt_str_view(account_name),
                        opt_str_view(avatar_url),
                        followers_count,
                        following_count,
                        posts_count,
                        is_active,
                        session_valid,
                        opt_str_view(metadata),
                        server_version,
                        now,
                    );
                    assert(s2.accounts[idx] == merged);
                    assert forall|k: int| 0 <= k < s2.accounts.len() implies s2.accounts[k]
                        == s1.accounts.update(idx, merged)[k] by {}
                    assert(s2.accounts =~= s1.accounts.update(idx, merged));
                    assert(s2 =~= m);
                    lemma_account_update_same_key(s1.accounts, idx, merged);
                    assert forall|k: int| 0 <= k < s2.accounts.len() implies has_user_id(
                        s1.users,
                        (#[trigger] s2.accounts[k]).user_id,
                    ) && has_project_id(s1.projects, s2.accounts[k].project_id) by {
                        if k != idx {
                            assert(s2.accounts[k] == s1.accounts[k]);
                        } else {
                            assert(s2.accounts[k].user_id == s1.accounts[k].user_id);
                            assert(s2.accounts[k].project_id == s1.accounts[k].project_id);
                        }
                    }
                    lemma_wf_after_accounts_change(s1, s2);
                }
                Ok(())
            },
            None => {
                if is_deleted {
                    proof {
                        assert(self@ =~= m);
                    }
                    return Ok(());
                }
                if self.find_user_index(user_id).is_none() {
                    return Err(StoreError::MissingUser);
                }
                if self.find_project_index(project_id).is_none() {
                    return Err(StoreError::MissingProject);
                }
                let row = PlatformAccount {
                    id: id.to_owned(),
                    user_id: user_id.to_owned(),
                    project_id: project_id.to_owned(),
                    platform: platform.to_owned(),
                    account_id: account_id.to_owned(),
                    account_name: coalesce_str_field(account_name, &None),
                    avatar_url: coalesce_str_field(avatar_url, &None),
                    is_active: is_active,
                    session_valid: session_valid,
                    last_session_check: None,
                    followers_count: followers_count,
                    following_count: following_count,
                    posts_count: posts_count,
                    metadata: coalesce_str_field(metadata, &None),
                    last_profile_sync_at: None,
                    is_deleted: false,
                    deleted_at: None,
                    synced_at: Some(now),
                    server_version: server_version,
                    local_version: 0,
                    sync_status: SyncStatus::Synced,
                    created_at: now,
                    updated_at: now,
                };
                proof {
                    assert(row@ == fresh_remote_account(
                        id@,
                        user_id@,
                        project_id@,
                        platform@,
                        account_id@,
                        opt_str_view(account_name),
                        opt_str_view(avatar_url),
                        followers_count,
                        following_count,
                        posts_count,
                        is_active,
                        session_valid,
                        opt_str_view(metadata),
                        server_version,
                        now,
                    ));
                }
                self.accounts.push(row);
                proof {
                    let s2 = self@;
                    assert(s2.accounts =~= s1.accounts.push(s2.accounts[s1.accounts.len() as int]));
                    assert(s2 =~= m);
                    lemma_account_push(s1.accounts, s2.accounts[s1.accounts.len() as int]);
                    assert forall|k: int| 0 <= k < s2.accounts.len() implies has_user_id(
                        s1.users,
                        (#[trigger] s2.accounts[k]).user_id,
                    ) && has_project_id(s1.projects, s2.accounts[k].project_id) by {
                        if k < s1.accounts.len() {
                            assert(s2.accounts[k] == s1.accounts[k]);
                        }
                    }
                    lemma_wf_after_accounts_change(s1, s2);
                }
                Ok(())
            },
        }
    }

    /// Registers an account under the given fresh id, landing on the existing
    /// row when the `(project, platform, account)` key is already taken.
    pub fn create_platform_account_with_id(
        &mut self,
        id: &str,
        user_id: &str,
        project_id: &str,
        platform: &str,
        account_id: &str,
        account_name: Option<&str>,
        now: i64,
    ) -> (r: Result<PlatformAccount, StoreError>)
        requires
            old(self)@.wf(),
            forall|i: int|
                0 <= i < old(self)@.accounts.len() && account_key(
                    #[trigger] old(self)@.accounts[i],
                ) == (project_id@, platform@, account_id@) ==> old(
                    self,
                )@.accounts[i].local_version < i64::MAX,
        ensures
            final(self)@.wf(),
            r is Ok <==> has_user_id(old(self)@.users, user_id@) && has_project_id(
                old(self)@.projects,
                project_id@,
            ) && (has_account_key(old(self)@.accounts, (project_id@, platform@, account_id@))
                || !has_account_id(old(self)@.accounts, id@)),
            match r {
                Ok(a) => {
                    &&& has_user_id(old(self)@.users, user_id@)
                    &&& has_project_id(old(self)@.projects, project_id@)
                    &&& final(self)@ == upsert_local_account_model(
                        old(self)@,
                        id@,
                        user_id@,
                        project_id@,
                        platform@,
                        account_id@,
                        opt_str_view(account_name),
                        now,
                    )
                    &&& a@ == (if has_account_key(
                        old(self)@.accounts,
                        (project_id@, platform@, account_id@),
                    ) {
                        apply_account_local_upsert(
                            old(self)@.accounts[account_index_of_key(
                                old(self)@.accounts,
                                (project_id@, platform@, account_id@),
                            )],
                            opt_str_view(account_name),
                            now,
                        )
                    } else {
                        fresh_local_account(
                            id@,
                            user_id@,
                            project_id@,
                            platform@,
                            account_id@,
                            opt_str_view(account_name),
                            now,
                        )
                    })
                    &&& a@.sync_status == SyncStatus::Pending
                    &&& (!has_account_key(
                        old(self)@.accounts,
                        (project_id@, platform@, account_id@),
                    ) ==> a@.local_version == 1 && !has_account_id(old(self)@.accounts, id@))
                },
                Err(e) => {
                    &&& final(self)@ == old(self)@
                    &&& (e == StoreError::MissingUser <==> !has_user_id(
                        old(self)@.users,
                        user_id@,
                    ))
                    &&& (e == StoreError::MissingProject <==> has_user_id(
                        old(self)@.users,
                        user_id@,
                    ) && !has_project_id(old(self)@.projects, project_id@))
                    &&& (e == StoreError::DuplicateId <==> has_user_id(old(self)@.users, user_id@)
                        && has_project_id(old(self)@.projects, project_id@) && !has_account_key(
                        old(self)@.accounts,
                        (project_id@, platform@, account_id@),
                    ) && has_account_id(old(self)@.accounts, id@))
                },
            },
    {
        if self.find_user_index(user_id).is_none() {
            return Err(StoreError::MissingUser);
        }
        if self.find_project_index(project_id).is_none() {
            return Err(StoreError::MissingProject);
        }
        let ghost s1 = self@;
        let ghost key = (project_id@, platform@, account_id@);
        let by_key = self.find_account_key_index(project_id, platform, account_id);
        match by_key {
            Some(i) => {
                proof {
                    Self::lemma_key_index(s1.accounts, key, i as int);
                }
                let ghost idx = i as int;
                let row = self.accounts[i].clone();
                let updated = PlatformAccount {
                    account_name: coalesce_str_field(account_name, &row.account_name),
                    sync_status: SyncStatus::Pending,
                    local_version: row.local_version + 1,
                    updated_at: now,
                    ..row
                };
                let result = updated.clone();
                self.accounts.set(i, updated);
                proof {
                    let s2 = self@;
                    let merged = apply_account_local_upsert(
                        s1.accounts[idx],
                        opt_str_view(account_name),
                        now,
                    );
                    assert(s2.accounts[idx] == merged);
                    assert forall|k: int| 0 <= k < s2.accounts.len() implies s2.accounts[k]
                        == s1.accounts.update(idx, merged)[k] by {}
                    assert(s2.accounts =~= s1.accounts.update(idx, merged));
                    assert(s2 =~= upsert_local_account_model(
                        s1,
                        id@,
                        user_id@,
                        project_id@,
                        platform@,
                        account_id@,
                        opt_str_view(account_name),
                        now,
                    ));
                    lemma_account_update_same_key(s1.accounts, idx, merged);
                    assert forall|k: int| 0 <= k < s2.accounts.len() implies has_user_id(
                        s1.users,
                        (#[trigger] s2.accounts[k]).user_id,
                    ) && has_project_id(s1.projects, s2.accounts[k].project_id) by {
                        if k != idx {
                            assert(s2.accounts[k] == s1.accounts[k]);
                        } else {
                            assert(s2.accounts[k].user_id == s1.accounts[k].user_id);
                            assert(s2.accounts[k].project_id == s1.accounts[k].project_id);
                        }
                    }
                    lemma_wf_after_accounts_change(s1, s2);
                }
                Ok(result)
            },
            None => {
                if self.find_account_index(id).is_some() {
                    return Err(StoreError::DuplicateId);
                }
                let row = PlatformAccount {
                    id: id.to_owned(),
                    user_id: user_id.to_owned(),
                    project_id: project_id.to_owned(),
                    platform: platform.to_owned(),
                    account_id: account_id.to_owned(),
                    account_name: coalesce_str_field(account_name, &None),
                    avatar_url: None,
                    is_active: true,
                    session_valid: false,
                    last_session_check: None,
                    followers_count: 0,
                    following_count: 0,
                    posts_count: 0,
                    metadata: None,
                    last_profile_sync_at: None,
                    is_deleted: false,
                    deleted_at: None,
                    synced_at: None,
                    server_version: 0,
                    local_version: 1,
                    sync_status: SyncStatus::Pending,
                    created_at: now,
                    updated_at: now,
                };
                proof {
                    assert(row@ == fresh_local_account(
                        id@,
                        user_id@,
                        project_id@,
                        platform@,
                        account_id@,
                        opt_str_view(account_name),
                        now,
                    ));
                }
                let result = row.clone();
                self.accounts.push(row);
                proof {
                    let s2 = self@;
                    assert(s2.accounts =~= s1.accounts.push(result@));
                    assert(s2 =~= upsert_local_account_model(
                        s1,
                        id@,
                        user_id@,
                        project_id@,
                        platform@,
                        account_id@,
                        opt_str_view(account_name),
                        now,
                    ));
                    lemma_account_push(s1.accounts, result@);
                    assert forall|k: int| 0 <= k < s2.accounts.len() implies has_user_id(
                        s1.users,
                        (#[trigger] s2.accounts[k]).user_id,
                    ) && has_project_id(s1.projects, s2.accounts[k].project_id) by {
                        if k < s1.accounts.len() {
                            assert(s2.accounts[k] == s1.accounts[k]);
                        }
                    }
                    lemma_wf_after_accounts_change(s1, s2);
                }
                Ok(result)
            },
        }
    }

    /// Registers an account under a freshly generated id.
    pub fn create_platform_account(
        &mut self,
        user_id: &str,
        project_id: &str,
        platform: &str,
        account_id: &str,
        account_name: Option<&str>,
        now: i64,
    ) -> (r: Result<PlatformAccount, StoreError>)
        requires
            old(self)@.wf(),
            forall|i: int|
                0 <= i < old(self)@.accounts.len() && account_key(
                    #[trigger] old(self)@.accounts[i],
                ) == (project_id@, platform@, account_id@) ==> old(
                    self,
                )@.accounts[i].local_version < i64::MAX,
        ensures
            final(self)@.wf(),
            r is Err ==> r->Err_0 == StoreError::MissingUser || r->Err_0
                == StoreError::MissingProject || r->Err_0 == StoreError::DuplicateId,
            match r {
                Ok(a) => {
                    &&& has_user_id(old(self)@.users, user_id@)
                    &&& has_project_id(old(self)@.projects, project_id@)
                    &&& final(self)@ == upsert_local_account_model(
                        old(self)@,
                        a@.id,
                        user_id@,
                        project_id@,
                        platform@,
                        account_id@,
                        opt_str_view(account_name),
                        now,
                    )
                    &&& a@ == (if has_account_key(
                        old(self)@.accounts,
                        (project_id@, platform@, account_id@),
                    ) {
                        apply_account_local_upsert(
                            old(self)@.accounts[account_index_of_key(
                                old(self)@.accounts,
                                (project_id@, platform@, account_id@),
                            )],
                            opt_str_view(account_name),
                            now,
                        )
                    } else {
                        fresh_local_account(
                            a@.id,
                            user_id@,
                            project_id@,
                            platform@,
                            account_id@,
                            opt_str_view(account_name),
                            now,
                        )
                    })
                    &&& a@.sync_status == SyncStatus::Pending
                    &&& (!has_account_key(
                        old(self)@.accounts,
                        (project_id@, platform@, account_id@),
                    ) ==> a@.local_version == 1)
                },
                Err(e) => {
                    &&& final(self)@ == old(self)@
                    &&& (e == StoreError::MissingUser <==> !has_user_id(
                        old(self)@.users,
                        user_id@,
                    ))
                    &&& (e == StoreError::MissingProject <==> has_user_id(
                        old(self)@.users,
                        user_id@,
                    ) && !has_project_id(old(self)@.projects, project_id@))
                },
            },
    {
        let id = crate::trusted::gen_uuid();
        let r = self.create_platform_account_with_id(
            id.as_str(),
            user_id,
            project_id,
            platform,
            account_id,
            account_name,
            now,
        );
        proof {
            if r is Ok {
                let a = r->Ok_0;
                if !has_account_key(old(self)@.accounts, (project_id@, platform@, account_id@)) {
                    assert(a@.id == id@);
                }
            }
        }
        r
    }

    /// Point lookup, excluding rows a pull has flagged deleted.
    pub fn get_platform_account(&self, id: &str) -> (r: Option<PlatformAccount>)
        requires
            self@.wf(),
        ensures
            match r {
                Some(a) => exists|i: int|
                    0 <= i < self@.accounts.len() && (#[trigger] self@.accounts[i]).id == id@
                        && !self@.accounts[i].is_deleted && a@ == self@.accounts[i],
                None => !has_live_account(self@.accounts, id@),
            },
    {
        let found = self.find_account_index(id);
        match found {
            Some(i) => {
                if self.accounts[i].is_deleted {
                    proof {
                        assert forall|k: int|
                            0 <= k < self@.accounts.len() && (#[trigger] self@.accounts[k]).id
                                == id@ implies self@.accounts[k].is_deleted by {
                            if k != i {
                                assert(self@.accounts[k].id != self@.accounts[i as int].id);
                            }
                        }
                    }
                    None
                } else {
                    Some(self.accounts[i].clone())
                }
            },
            None => None,
        }
    }

    /// The project's live accounts, most recently created first.
    pub fn list_platform_accounts(&self, project_id: &str) -> (r: Vec<PlatformAccount>)
        ensures
            account_models(r@).to_multiset() == self@.accounts.filter(
                live_project_account(project_id@),
            ).to_multiset(),
            sorted_accounts(account_models(r@)),
    {
        let ghost pred = live_project_account(project_id@);
        let mut out: Vec<PlatformAccount> = Vec::new();
        proof {
            reveal(Seq::filter);
            assert(account_models(out@) =~= Seq::<PlatformAccountModel>::empty());
            assert(self@.accounts.take(0) =~= Seq::<PlatformAccountModel>::empty());
            assert(Seq::<PlatformAccountModel>::empty().filter(pred) == Seq::<
                PlatformAccountModel,
            >::empty());
        }
        let n = self.accounts.len();
        let mut i: usize = 0;
        while i < n
            invariant
                n == self.accounts.len(),
                i <= n,
                account_models(out@).to_multiset() == self@.accounts.take(i as int).filter(
                    pred,
                ).to_multiset(),
                sorted_accounts(account_models(out@)),
                pred == live_project_account(project_id@),
            decreases n - i,
        {
            let ghost t_prev = self@.accounts.take(i as int);
            let ghost t_next = self@.accounts.take(i as int + 1);
            proof {
                assert(t_next.drop_last() =~= t_prev);
                assert(t_next.last() == self@.accounts[i as int]);
                reveal(Seq::filter);
            }
            let keep = str_eq(self.accounts[i].project_id.as_str(), project_id)
                && !self.accounts[i].is_deleted;
            if keep {
                let row = self.accounts[i].clone();
                let ghost m1 = account_models(out@);
                let mut pos: usize = 0;
                while pos < out.len() && out[pos].created_at >= row.created_at
                    invariant
                        pos <= out.len(),
                        forall|k: int|
                            0 <= k < pos ==> account_list_le(
                                (#[trigger] account_models(out@)[k]),
                                row@,
                            ),
                        account_models(out@) == m1,
                    decreases out.len() - pos,
                {
                    pos = pos + 1;
                }
                out.insert(pos, row);
                proof {
                    let m2 = account_models(out@);
                    assert(m2 =~= m1.insert(pos as int, self@.accounts[i as int]));
                    m1.insert_ensures(pos as int, self@.accounts[i as int]);
                    vstd::seq_lib::to_multiset_insert(m1, pos as int, self@.accounts[i as int]);
                    vstd::seq_lib::to_multiset_build(t_prev.filter(pred), self@.accounts[i as int]);
                    assert(t_next.filter(pred) == t_prev.filter(pred).push(
                        self@.accounts[i as int],
                    ));
                    let e = self@.accounts[i as int];
                    assert forall|a: int, b: int| 0 <= a < b < m2.len() implies account_list_le(
                        m2[a],
                        m2[b],
                    ) by {
                        if b < pos {
                            assert(m2[a] == m1[a] && m2[b] == m1[b]);
                        } else if a < pos && b == pos {
                            assert(m2[a] == m1[a] && m2[b] == e);
                        } else if a < pos && b > pos {
                            assert(m2[a] == m1[a] && m2[b] == m1[b - 1]);
                        } else if a == pos && b > pos {
                            assert(m2[a] == e && m2[b] == m1[b - 1]);
                            if (pos as int) < m1.len() {
                                assert(!account_list_le(m1[pos as int], e));
                                assert(account_list_le(e, m1[pos as int]));
                                if b - 1 > pos {
                                    assert(account_list_le(m1[pos as int], m1[b - 1]));
                                }
                            }
                        } else {
                            assert(m2[a] == m1[a - 1] && m2[b] == m1[b - 1]);
                        }
                    }
                }
            } else {
                proof {
                    assert(t_next.filter(pred) == t_prev.filter(pred));
                }
            }
            i = i + 1;
        }
        proof {
            assert(self@.accounts.take(n as int) =~= self@.accounts);
        }
        out
    }

    /// Stores a platform profile refresh on the row with this id, if present.
    pub fn update_platform_account_profile(
        &mut self,
        id: &str,
        account_name: Option<&str>,
        avatar_url: Option<&str>,
        followers_count: i64,
        following_count: i64,
        posts_count: i64,
        metadata: Option<&str>,
        now: i64,
    )
        requires
            old(self)@.wf(),
        ensures
            final(self)@.wf(),
            final(self)@ == update_account_profile_model(
                old(self)@,
                id@,
                opt_str_view(account_name),
                opt_str_view(avatar_url),
                followers_count,
                following_count,
                posts_count,
                opt_str_view(metadata),
                now,
            ),
    {
        let ghost s1 = self@;
        let ghost m = update_account_profile_model(
            s1,
            id@,
            opt_str_view(account_name),
            opt_str_view(avatar_url),
            followers_count,
            following_count,
            posts_count,
            opt_str_view(metadata),
            now,
        );
        let found = self.find_account_index(id);
        match found {
            Some(i) => {
                let row = self.accounts[i].clone();
                let updated = PlatformAccount {
                    account_name: coalesce_str_field(account_name, &None),
                    avatar_url: coalesce_str_field(avatar_url, &None),
                    followers_count: followers_count,
                    following_count: following_count,
                    posts_count: posts_count,
                    metadata: coalesce_str_field(metadata, &None),
                    last_profile_sync_at: Some(now),
                    updated_at: now,
                    ..row
                };
                self.accounts.set(i, updated);
                proof {
                    let s2 = self@;
                    assert forall|j: int| 0 <= j < s2.accounts.len() implies s2.accounts[j]
                        == m.accounts[j] by {
                        if j != i {
                            assert(s1.accounts[j].id != id@);
                        }
                    }
                    assert(s2.accounts =~= m.accounts);
                    assert(s2 =~= m);
                    lemma_account_update_same_key(s1.accounts, i as int, s2.accounts[i as int]);
                    assert(unique_account_ids(s2.accounts) && unique_account_keys(s2.accounts));
                    assert forall|k: int| 0 <= k < s2.accounts.len() implies has_user_id(
                        s1.users,
                        (#[trigger] s2.accounts[k]).user_id,
                    ) && has_project_id(s1.projects, s2.accounts[k].project_id) by {
                        if k != i {
                            assert(s2.accounts[k] == s1.accounts[k]);
                        } else {
                            assert(s2.accounts[k].user_id == s1.accounts[k].user_id);
                            assert(s2.accounts[k].project_id == s1.accounts[k].project_id);
                        }
                    }
                    lemma_wf_after_accounts_change(s1, s2);
                }
            },
            None => {
                proof {
                    assert forall|j: int| 0 <= j < self@.accounts.len() implies self@.accounts[j]
                        == m.accounts[j] by {
                        assert(s1.accounts[j].id != id@);
                    }
                    assert(self@.accounts =~= m.accounts);
                    assert(self@ =~= m);
                }
            },
        }
    }

    /// Removes the row with this id outright: accounts are pure mirrors of
    /// remote truth and are reconstructable by a future pull.
    pub fn delete_platform_account(&mut self, id: &str)
        requires
            old(self)@.wf(),
        ensures
            final(self)@.wf(),
            final(self)@ == delete_account_model(old(self)@, id@),
    {
        let ghost s1 = self@;
        let found = self.find_account_index(id);
        match found {
            Some(i) => {
                proof {
                    Self::lemma_id_index(s1.accounts, id@, i as int);
                }
                let ghost idx = i as int;
                self.accounts.remove(i);
                proof {
                    let s2 = self@;
                    lemma_account_remove_preserves(s1.accounts, idx);
                    assert forall|k: int| 0 <= k < s2.accounts.len() implies s2.accounts[k]
                        == s1.accounts.remove(idx)[k] by {
                        if k < idx {
                            assert(s2.accounts[k] == s1.accounts[k]);
                        } else {
                            assert(s2.accounts[k] == s1.accounts[k + 1]);
                        }
                    }
                    assert(s2.accounts =~= s1.accounts.remove(idx));
                    assert(s2 =~= delete_account_model(s1, id@));
                    assert forall|k: int| 0 <= k < s2.accounts.len() implies has_user_id(
                        s1.users,
                        (#[trigger] s2.accounts[k]).user_id,
                    ) && has_project_id(s1.projects, s2.accounts[k].project_id) by {
                        if k < idx {
                            assert(s2.accounts[k] == s1.accounts[k]);
                        } else {
                            assert(s2.accounts[k] == s1.accounts[k + 1]);
                        }
                    }
                    lemma_wf_after_accounts_change(s1, s2);
                }
            },
            None => {
                proof {
                    assert(self@ =~= delete_account_model(s1, id@));
                }
            },
        }
    }

    /// The user's accounts awaiting a push.
    pub fn list_pending_platform_accounts(&self, user_id: &str) -> (r: Vec<PlatformAccount>)
        ensures
            account_models(r@) == self@.accounts.filter(pending_account_pred(user_id@)),
    {
        let ghost pred = pending_account_pred(user_id@);
        let mut out: Vec<PlatformAccount> = Vec::new();
        proof {
            reveal(Seq::filter);
            assert(account_models(out@) =~= Seq::<PlatformAccountModel>::empty());
            assert(self@.accounts.take(0) =~= Seq::<PlatformAccountModel>::empty());
            assert(Seq::<PlatformAccountModel>::empty().filter(pred) == Seq::<
                PlatformAccountModel,
            >::empty());
        }
        let n = self.accounts.len();
        let mut i: usize = 0;
        while i < n
            invariant
                n == self.accounts.len(),
                i <= n,
                account_models(out@) == self@.accounts.take(i as int).filter(pred),
                pred == pending_account_pred(user_id@),
            decreases n - i,
        {
            let ghost t_prev = self@.accounts.take(i as int);
            let ghost t_next = self@.accounts.take(i as int + 1);
            proof {
                assert(t_next.drop_last() =~= t_prev);
                assert(t_next.last() == self@.accounts[i as int]);
                reveal(Seq::filter);
            }
            let keep = str_eq(self.accounts[i].user_id.as_str(), user_id)
                && matches!(self.accounts[i].sync_status, SyncStatus::Pending);
            if keep {
                let ghost m1 = account_models(out@);
                out.push(self.accounts[i].clone());
                proof {
                    assert(account_models(out@) =~= m1.push(self@.accounts[i as int]));
                }
            }
            i = i + 1;
        }
        proof {
            assert(self@.accounts.take(n as int) =~= self@.accounts);
        }
        out
    }

    /// Records a push confirmation for the row with this id.
    pub fn mark_platform_account_synced(&mut self, id: &str, server_version: i64, now: i64)
        requires
            old(self)@.wf(),
        ensures
            final(self)@.wf(),
            final(self)@ == mark_account_synced_model(old(self)@, id@, server_version, now),
    {
        let ghost s1 = self@;
        let ghost m = mark_account_synced_model(s1, id@, server_version, now);
        let found = self.find_account_index(id);
        match found {
            Some(i) => {
                let row = self.accounts[i].clone();
                let updated = PlatformAccount {
                    sync_status: SyncStatus::Synced,
                    server_version: server_version,
                    synced_at: Some(now),
                    ..row
                };
                self.accounts.set(i, updated);
                proof {
                    let s2 = self@;
                    assert forall|j: int| 0 <= j < s2.accounts.len() implies s2.accounts[j]
                        == m.accounts[j] by {
                        if j != i {
                            assert(s1.accounts[j].id != id@);
                        }
                    }
                    assert(s2.accounts =~= m.accounts);
                    assert(s2 =~= m);
                    lemma_account_update_same_key(s1.accounts, i as int, s2.accounts[i as int]);
                    assert forall|k: int| 0 <= k < s2.accounts.len() implies has_user_id(
                        s1.users,
                        (#[trigger] s2.accounts[k]).user_id,
                    ) && has_project_id(s1.projects, s2.accounts[k].project_id) by {
                        if k != i {
                            assert(s2.accounts[k] == s1.accounts[k]);
                        } else {
                            assert(s2.accounts[k].user_id == s1.accounts[k].user_id);
                            assert(s2.accounts[k].project_id == s1.accounts[k].project_id);
                        }
                    }
                    lemma_wf_after_accounts_change(s1, s2);
                }
            },
            None => {
                proof {
                    assert forall|j: int| 0 <= j < self@.accounts.len() implies self@.accounts[j]
                        == m.accounts[j] by {
                        assert(s1.accounts[j].id != id@);
                    }
                    assert(self@.accounts =~= m.accounts);
                    assert(self@ =~= m);
                }
            },
        }
    }
}

} // verus!
