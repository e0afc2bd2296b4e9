//! Project-topic table operations. A topic's full remote record travels in
//! its opaque `payload`; the store keys and versions it like any other row.

use vstd::prelude::*;
use vstd::pervasive::VecAdditionalExecFns;

use crate::errors::StoreError;
use crate::model::{ProjectTopic, ProjectTopicModel};
use crate::status::{str_eq, SyncStatus};
use crate::store::{
    coalesce_seq, coalesce_str_field, has_project_id, has_topic_id, has_user_id,
    lemma_wf_after_topics_change, opt_str_view, Repository, StoreModel,
};

verus! {

/// A topic row born from a user-driven creation.
pub open spec fn fresh_local_topic(
    id: Seq<char>,
    user_id: Seq<char>,
    project_id: Seq<char>,
    title: Seq<char>,
    payload: Seq<char>,
    now: i64,
) -> ProjectTopicModel {
    ProjectTopicModel {
        id: id,
        user_id: user_id,
        project_id: project_id,
        title: title,
        payload: payload,
        batch_date: None,
        source_uid: None,
        status: 0,
        is_deleted: false,
        deleted_at: None,
        synced_at: None,
        server_version: 0,
        local_version: 1,
        sync_status: SyncStatus::Pending,
        created_at: now,
        updated_at: now,
    }
}

/// Merge of one pulled topic record into an existing row; a `Pending` row
/// defers the record. Topics are soft-deleted: a pulled deletion flags the
/// row rather than removing it.
pub open spec fn remote_topic_merge(
    t: ProjectTopicModel,
    title: Seq<char>,
    payload: Seq<char>,
    batch_date: Option<Seq<char>>,
    source_uid: Option<Seq<char>>,
    status: i64,
    server_version: i64,
    is_deleted: bool,
    deleted_at: Option<i64>,
    now: i64,
) -> ProjectTopicModel {
    if t.sync_status == SyncStatus::Pending {
        t
    } else {
        ProjectTopicModel {
            title: title,
            payload: payload,
            batch_date: coalesce_seq(batch_date, t.batch_date),
            source_uid: coalesce_seq(source_uid, t.source_uid),
            status: status,
            is_deleted: is_deleted,
            deleted_at: deleted_at,
            sync_status: SyncStatus::Synced,
            server_version: server_version,
            synced_at: Some(now),
            updated_at: now,
            ..t
        }
    }
}

/// A topic row first seen through a pull.
pub open spec fn fresh_remote_topic(
    id: Seq<char>,
    user_id: Seq<char>,
    project_id: Seq<char>,
    title: Seq<char>,
    payload: Seq<char>,
    batch_date: Option<Seq<char>>,
    source_uid: Option<Seq<char>>,
    status: i64,
    server_version: i64,
    is_deleted: bool,
    deleted_at: Option<i64>,
    now: i64,
) -> ProjectTopicModel {
    ProjectTopicModel {
        id: id,
        user_id: user_id,
        project_id: project_id,
        title: title,
        payload: payload,
        batch_date: batch_date,
        source_uid: source_uid,
        status: status,
        is_deleted: is_deleted,
        deleted_at: deleted_at,
        synced_at: Some(now),
        server_version: server_version,
        local_version: 0,
        sync_status: SyncStatus::Synced,
        created_at: now,
        updated_at: now,
    }
}

/// Upsert of one pulled topic record.
pub open spec fn sync_project_topic_model(
    s: StoreModel,
    id: Seq<char>,
    user_id: Seq<char>,
    project_id: Seq<char>,
    title: Seq<char>,
    payload: Seq<char>,
    batch_date: Option<Seq<char>>,
    source_uid: Option<Seq<char>>,
    status: i64,
    server_version: i64,
    is_deleted: bool,
    deleted_at: Option<i64>,
    now: i64,
) -> StoreModel {
    if has_topic_id(s.topics, id) {
        StoreModel {
            topics: s.topics.map_values(
                |t: ProjectTopicModel|
                    if t.id == id {
                        remote_topic_merge(
                            t,
                            title,
                            payload,
                            batch_date,
                            source_uid,
                            status,
                            server_version,
                            is_deleted,
                            deleted_at,
                            now,
                        )
                    } else {
                        t
                    },
            ),
            ..s
        }
    } else {
        StoreModel {
            topics: s.topics.push(
                fresh_remote_topic(
                    id,
                    user_id,
                    project_id,
                    title,
                    payload,
                    batch_date,
                    source_uid,
                    status,
                    server_version,
                    is_deleted,
                    deleted_at,
                    now,
                ),
            ),
            ..s
        }
    }
}

/// Push confirmation for a topic row.
pub open spec fn mark_topic_synced_model(
    s: StoreModel,
    id: Seq<char>,
    server_version: i64,
    now: i64,
) -> StoreModel {
    StoreModel {
        topics: s.topics.map_values(
            |t: ProjectTopicModel|
                if t.id == id {
                    ProjectTopicModel {
                        sync_status: SyncStatus::Synced,
                        server_version: server_version,
                        synced_at: Some(now),
                        ..t
                    }
                } else {
                    t
                },
        ),
        ..s
    }
}

pub open spec fn has_live_topic(s: Seq<ProjectTopicModel>, id: Seq<char>) -> bool {
    exists|i: int| 0 <= i < s.len() && s[i].id == id && !s[i].is_deleted
}

pub open spec fn pending_topic_pred(project_id: Seq<char>) -> spec_fn(ProjectTopicModel) -> bool {
    |t: ProjectTopicModel| t.project_id == project_id && t.sync_status == SyncStatus::Pending
}

/// Some topic row, in any project, awaits a push.
pub open spec fn has_pending_topics(s: Seq<ProjectTopicModel>) -> bool {
    exists|i: int| 0 <= i < s.len() && s[i].sync_status == SyncStatus::Pending
}

pub open spec fn topic_models(v: Seq<ProjectTopic>) -> Seq<ProjectTopicModel> {
    v.map_values(|t: ProjectTopic| t@)
}

pub proof fn lemma_topic_rewrite_same_ids(s1: Seq<ProjectTopicModel>, s2: Seq<ProjectTopicModel>)
    requires
        s1.len() == s2.len(),
        forall|i: int| 0 <= i < s1.len() ==> s1[i].id == (#[trigger] s2[i]).id,
    ensures
        forall|x: Seq<char>| #[trigger] has_topic_id(s2, x) == has_topic_id(s1, x),
        crate::store::unique_topic_ids(s1) ==> crate::store::unique_topic_ids(s2),
{
    assert forall|x: Seq<char>| #[trigger] has_topic_id(s2, x) == has_topic_id(s1, x) by {
        if has_topic_id(s1, x) {
            let i = choose|i: int| 0 <= i < s1.len() && s1[i].id == x;
            assert(s2[i].id == x);
        }
        if has_topic_id(s2, x) {
            let i = choose|i: int| 0 <= i < s2.len() && s2[i].id == x;
            assert(s1[i].id == x);
        }
    }
}

pub proof fn lemma_topic_push(s: Seq<ProjectTopicModel>, t: ProjectTopicModel)
    ensures
        forall|x: Seq<char>| #[trigger] has_topic_id(s.push(t), x) == (has_topic_id(s, x) || t.id
            == x),
        crate::store::unique_topic_ids(s) && !has_topic_id(s, t.id)
            ==> crate::store::unique_topic_ids(s.push(t)),
{
    assert forall|x: Seq<char>| #[trigger] has_topic_id(s.push(t), x) == (has_topic_id(s, x)
        || t.id == x) by {
        if has_topic_id(s, x) {
            let i = choose|i: int| 0 <= i < s.len() && s[i].id == x;
            assert(s.push(t)[i].id == x);
        }
        if t.id == x {
            assert(s.push(t)[s.len() as int].id == x);
        }
        if has_topic_id(s.push(t), x) {
            let i = choose|i: int| 0 <= i < s.push(t).len() && s.push(t)[i].id == x;
            if i < s.len() {
                assert(s[i].id == x);
            }
        }
    }
    if crate::store::unique_topic_ids(s) && !has_topic_id(s, t.id) {
        assert forall|i: int, j: int| 0 <= i < j < s.push(t).len() implies s.push(t)[i].id
            != s.push(t)[j].id by {
            if j < s.len() {
                assert(s.push(t)[i] == s[i] && s.push(t)[j] == s[j]);
            } else {
                assert(s.push(t)[i] == s[i]);
                assert(!(s[i].id == t.id));
            }
        }
    }
}

impl Repository {
    pub(crate) fn find_topic_index(&self, id: &str) -> (r: Option<usize>)
        ensures
            match r {
                Some(i) => i < self@.topics.len() && self@.topics[i as int].id == id@,
                None => !has_topic_id(self@.topics, id@),
            },
    {
        let mut i: usize = 0;
        while i < self.topics.len()
            invariant
                i <= self.topics.len(),
                forall|k: int| 0 <= k < i ==> (#[trigger] self@.topics[k]).id != id@,
            decreases self.topics.len() - i,
        {
            if str_eq(self.topics[i].id.as_str(), id) {
                return Some(i);
            }
            i = i + 1;
        }
        None
    }

    /// Creates a topic under the given fresh id. The row starts `Pending`
    /// with local version 1.
    pub fn create_project_topic_with_id(
        &mut self,
        id: &str,
        user_id: &str,
        project_id: &str,
        title: &str,
        payload: &str,
        now: i64,
    ) -> (r: Result<ProjectTopic, StoreError>)
        requires
            old(self)@.wf(),
        ensures
            final(self)@.wf(),
            r is Ok <==> has_user_id(old(self)@.users, user_id@) && has_project_id(
                old(self)@.projects,
                project_id@,
            ) && !has_topic_id(old(self)@.topics, id@),
            match r {
                Ok(t) => {
                    &&& has_user_id(old(self)@.users, user_id@)
                    &&& has_project_id(old(self)@.projects, project_id@)
                    &&& !has_topic_id(old(self)@.topics, id@)
                    &&& t@ == fresh_local_topic(id@, user_id@, project_id@, title@, payload@, now)
                    &&& t@.local_version == 1
                    &&& t@.sync_status == SyncStatus::Pending
                    &&& final(self)@ == (StoreModel {
                        topics: old(self)@.topics.push(t@),
                        ..old(self)@
                    })
                },
                Err(e) => {
                    &&& final(self)@ == old(self)@
                    &&& (e == StoreError::MissingUser <==> !has_user_id(
                        old(self)@.users,
                        user_id@,
                    ))
                    &&& (e == StoreError::MissingProject <==> has_user_id(
                        old(self)@.users,
                        user_id@,
                    ) && !has_project_id(old(self)@.projects, project_id@))
                    &&& (e == StoreError::DuplicateId <==> has_user_id(old(self)@.users, user_id@)
                        && has_project_id(old(self)@.projects, project_id@) && has_topic_id(
                        old(self)@.topics,
                        id@,
                    ))
                },
            },
    {
        if self.find_user_index(user_id).is_none() {
            return Err(StoreError::MissingUser);
        }
        if self.find_project_index(project_id).is_none() {
            return Err(StoreError::MissingProject);
        }
        if self.find_topic_index(id).is_some() {
            return Err(StoreError::DuplicateId);
        }
        let ghost s1 = self@;
        let row = ProjectTopic {
            id: id.to_owned(),
            user_id: user_id.to_owned(),
            project_id: project_id.to_owned(),
            title: title.to_owned(),
            payload: payload.to_owned(),
            batch_date: None,
            source_uid: None,
            status: 0,
            is_deleted: false,
            deleted_at: None,
            synced_at: None,
            server_version: 0,
            local_version: 1,
            sync_status: SyncStatus::Pending,
            created_at: now,
            updated_at: now,
        };
        proof {
            assert(row@ == fresh_local_topic(id@, user_id@, project_id@, title@, payload@, now));
        }
        let result = row.clone();
        self.topics.push(row);
        proof {
            let s2 = self@;
            assert(s2.topics =~= s1.topics.push(result@));
            assert(s2 =~= (StoreModel { topics: s1.topics.push(result@), ..s1 }));
            lemma_topic_push(s1.topics, result@);
            assert forall|k: int| 0 <= k < s2.topics.len() implies has_user_id(
                s1.users,
                (#[trigger] s2.topics[k]).user_id,
            ) && has_project_id(s1.projects, s2.topics[k].project_id) by {
                if k < s1.topics.len() {
                    assert(s2.topics[k] == s1.topics[k]);
                }
            }
            lemma_wf_after_topics_change(s1, s2);
        }
        Ok(result)
    }

    /// Creates a topic under a freshly generated id.
    pub fn create_project_topic(
        &mut self,
        user_id: &str,
        project_id: &str,
        title: &str,
        payload: &str,
        now: i64,
    ) -> (r: Result<ProjectTopic, StoreError>)
        requires
            old(self)@.wf(),
        ensures
            final(self)@.wf(),
            r is Err ==> r->Err_0 == StoreError::MissingUser || r->Err_0
                == StoreError::MissingProject || r->Err_0 == StoreError::DuplicateId,
            match r {
                Ok(t) => {
                    &&& has_user_id(old(self)@.users, user_id@)
                    &&& has_project_id(old(self)@.projects, project_id@)
                    &&& !has_topic_id(old(self)@.topics, t@.id)
                    &&& t@ == fresh_local_topic(t@.id, user_id@, project_id@, title@, payload@, now)
                    &&& t@.local_version == 1
                    &&& t@.sync_status == SyncStatus::Pending
                    &&& final(self)@ == (StoreModel {
                        topics: old(self)@.topics.push(t@),
                        ..old(self)@
                    })
                },
                Err(e) => {
                    &&& final(self)@ == old(self)@
                    &&& (e == StoreError::MissingUser <==> !has_user_id(
                        old(self)@.users,
                        user_id@,
                    ))
                    &&& (e == StoreError::MissingProject <==> has_user_id(
                        old(self)@.users,
                        user_id@,
                    ) && !has_project_id(old(self)@.projects, project_id@))
                },
            },
    {
        let id = crate::trusted::gen_uuid();
        self.create_project_topic_with_id(id.as_str(), user_id, project_id, title, payload, now)
    }

    /// Applies one pulled topic record: merge into the matching row (deferred
    /// if `Pending`), or insert a fresh remote-born row. Fails only when a
    /// fresh row would lack its user or project parent.
    pub fn sync_project_topic(
        &mut self,
        topic_id: &str,
        user_id: &str,
        project_id: &str,
        title: &str,
        payload: &str,
        batch_date: Option<&str>,
        source_uid: Option<&str>,
        status: i64,
        server_version: i64,
        is_deleted: bool,
        deleted_at: Option<i64>,
        now: i64,
    ) -> (r: Result<(), StoreError>)
        requires
            old(self)@.wf(),
        ensures
            final(self)@.wf(),
            r is Ok <==> (has_topic_id(old(self)@.topics, topic_id@) || (has_user_id(
                old(self)@.users,
                user_id@,
            ) && has_project_id(old(self)@.projects, project_id@))),
            match r {
                Ok(()) => final(self)@ == sync_project_topic_model(
                    old(self)@,
                    topic_id@,
                    user_id@,
                    project_id@,
                    title@,
                    payload@,
                    opt_str_view(batch_date),
                    opt_str_view(source_uid),
                    status,
                    server_version,
                    is_deleted,
                    deleted_at,
                    now,
                ),
                Err(e) => {
                    &&& final(self)@ == old(self)@
                    &&& (e == StoreError::MissingUser <==> !has_user_id(
                        old(self)@.users,
                        user_id@,
                    ))
                    &&& (e == StoreError::MissingProject <==> has_user_id(
                        old(self)@.users,
                        user_id@,
                    ) && !has_project_id(old(self)@.projects, project_id@))
                },
            },
    {
        let ghost s1 = self@;
        let ghost m = sync_project_topic_model(
            s1,
            topic_id@,
            user_id@,
            project_id@,
            title@,
            payload@,
            opt_str_view(batch_date),
            opt_str_view(source_uid),
            status,
            server_version,
            is_deleted,
            deleted_at,
            now,
        );
        let found = self.find_topic_index(topic_id);
        match found {
            Some(i) => {
                if matches!(self.topics[i].sync_status, SyncStatus::Pending) {
                    proof {
                        assert(has_topic_id(s1.topics, topic_id@));
                        assert forall|j: int| 0 <= j < self@.topics.len() implies self@.topics[j]
                            == m.topics[j] by {
                            if j != i {
                                assert(s1.topics[j].id != topic_id@);
                            }
                        }
                        assert(self@.topics =~= m.topics);
                        assert(self@ =~= m);
                    }
                    return Ok(());
                }
                let row = self.topics[i].clone();
                let updated = ProjectTopic {
                    title: title.to_owned(),
                    payload: payload.to_owned(),
                    batch_date: coalesce_str_field(batch_date, &row.batch_date),
                    source_uid: coalesce_str_field(source_uid, &row.source_uid),
                    status: status,
                    is_deleted: is_deleted,
                    deleted_at: deleted_at,
                    sync_status: SyncStatus::Synced,
                    server_version: server_version,
                    synced_at: Some(now),
                    updated_at: now,
                    ..row
                };
                self.topics.set(i, updated);
                proof {
                    let s2 = self@;
                    assert(has_topic_id(s1.topics, topic_id@));
                    assert forall|j: int| 0 <= j < s2.topics.len() implies s2.topics[j]
                        == m.topics[j] by {
                        if j != i {
                            assert(s1.topics[j].id != topic_id@);
                        }
                    }
                    assert(s2.topics =~= m.topics);
                    assert(s2 =~= m);
                    lemma_topic_rewrite_same_ids(s1.topics, s2.topics);
                    assert forall|k: int| 0 <= k < s2.topics.len() implies has_user_id(
                        s1.users,
                        (#[trigger] s2.topics[k]).user_id,
                    ) && has_project_id(s1.projects, s2.topics[k].project_id) by {
                        if k != i {
                            assert(s2.topics[k] == s1.topics[k]);
                        } else {
                            assert(s2.topics[k].user_id == s1.topics[k].user_id);
                            assert(s2.topics[k].project_id == s1.topics[k].project_id);
                        }
                    }
                    lemma_wf_after_topics_change(s1, s2);
                }
                Ok(())
            },
            None => {
                if self.find_user_index(user_id).is_none() {
                    return Err(StoreError::MissingUser);
                }
                if self.find_project_index(project_id).is_none() {
                    return Err(StoreError::MissingProject);
                }
                let row = ProjectTopic {
                    id: topic_id.to_owned(),
                    user_id: user_id.to_owned(),
                    project_id: project_id.to_owned(),
                    title: title.to_owned(),
                    payload: payload.to_owned(),
                    batch_date: coalesce_str_field(batch_date, &None),
                    source_uid: coalesce_str_field(source_uid, &None),
                    status: status,
                    is_deleted: is_deleted,
                    deleted_at: deleted_at,
                    synced_at: Some(now),
                    server_version: server_version,
                    local_version: 0,
                    sync_status: SyncStatus::Synced,
                    created_at: now,
                    updated_at: now,
                };
                proof {
                    assert(row@ == fresh_remote_topic(
                        topic_id@,
                        user_id@,
                        project_id@,
                        title@,
                        payload@,
                        opt_str_view(batch_date),
                        opt_str_view(source_uid),
                        status,
                        server_version,
                        is_deleted,
                        deleted_at,
                        now,
                    ));
                }
                self.topics.push(row);
                proof {
                    let s2 = self@;
                    assert(s2.topics =~= s1.topics.push(s2.topics[s1.topics.len() as int]));
                    assert(s2 =~= m);
                    lemma_topic_push(s1.topics, s2.topics[s1.topics.len() as int]);
                    assert forall|k: int| 0 <= k < s2.topics.len() implies has_user_id(
                        s1.users,
                        (#[trigger] s2.topics[k]).user_id,
                    ) && has_project_id(s1.projects, s2.topics[k].project_id) by {
                        if k < s1.topics.len() {
                            assert(s2.topics[k] == s1.topics[k]);
                        }
                    }
                    lemma_wf_after_topics_change(s1, s2);
                }
                Ok(())
            },
        }
    }

    /// Point lookup, excluding soft-deleted rows.
    pub fn get_project_topic(&self, id: &str) -> (r: Option<ProjectTopic>)
        requires
            self@.wf(),
        ensures
            match r {
                Some(t) => exists|i: int|
                    0 <= i < self@.topics.len() && (#[trigger] self@.topics[i]).id == id@
                        && !self@.topics[i].is_deleted && t@ == self@.topics[i],
                None => !has_live_topic(self@.topics, id@),
            },
    {
        let found = self.find_topic_index(id);
        match found {
            Some(i) => {
                if self.topics[i].is_deleted {
                    proof {
                        assert forall|k: int|
                            0 <= k < self@.topics.len() && (#[trigger] self@.topics[k]).id == id@
                                implies self@.topics[k].is_deleted by {
                            if k != i {
                                assert(self@.topics[k].id != self@.topics[i as int].id);
                            }
                        }
                    }
                    None
                } else {
                    Some(self.topics[i].clone())
                }
            },
            None => None,
        }
    }

    /// The project's topics awaiting a push.
    pub fn list_pending_project_topics(&self, project_id: &str) -> (r: Vec<ProjectTopic>)
        ensures
            topic_models(r@) == self@.topics.filter(pending_topic_pred(project_id@)),
    {
        let ghost pred = pending_topic_pred(project_id@);
        let mut out: Vec<ProjectTopic> = Vec::new();
        proof {
            reveal(Seq::filter);
            assert(topic_models(out@) =~= Seq::<ProjectTopicModel>::empty());
            assert(self@.topics.take(0) =~= Seq::<ProjectTopicModel>::empty());
            assert(Seq::<ProjectTopicModel>::empty().filter(pred) == Seq::<
                ProjectTopicModel,
            >::empty());
        }
        let n = self.topics.len();
        let mut i: usize = 0;
        while i < n
            invariant
                n == self.topics.len(),
                i <= n,
                topic_models(out@) == self@.topics.take(i as int).filter(pred),
                pred == pending_topic_pred(project_id@),
            decreases n - i,
        {
            let ghost t_prev = self@.topics.take(i as int);
            let ghost t_next = self@.topics.take(i as int + 1);
            proof {
                assert(t_next.drop_last() =~= t_prev);
                assert(t_next.last() == self@.topics[i as int]);
                reveal(Seq::filter);
            }
            let keep = str_eq(self.topics[i].project_id.as_str(), project_id)
                && matches!(self.topics[i].sync_status, SyncStatus::Pending);
            if keep {
                let ghost m1 = topic_models(out@);
                out.push(self.topics[i].clone());
                proof {
                    assert(topic_models(out@) =~= m1.push(self@.topics[i as int]));
                }
            }
            i = i + 1;
        }
        proof {
            assert(self@.topics.take(n as int) =~= self@.topics);
        }
        out
    }

    /// Records a push confirmation for the row with this id.
    pub fn mark_project_topic_synced(&mut self, id: &str, server_version: i64, now: i64)
        requires
            old(self)@.wf(),
        ensures
            final(self)@.wf(),
            final(self)@ == mark_topic_synced_model(old(self)@, id@, server_version, now),
    {
        let ghost s1 = self@;
        let ghost m = mark_topic_synced_model(s1, id@, server_version, now);
        let found = self.find_topic_index(id);
        match found {
            Some(i) => {
                let row = self.topics[i].clone();
                let updated = ProjectTopic {
                    sync_status: SyncStatus::Synced,
                    server_version: server_version,
                    synced_at: Some(now),
                    ..row
                };
                self.topics.set(i, updated);
                proof {
                    let s2 = self@;
                    assert forall|j: int| 0 <= j < s2.topics.len() implies s2.topics[j]
                        == m.topics[j] by {
                        if j != i {
                            assert(s1.topics[j].id != id@);
                        }
                    }
                    assert(s2.topics =~= m.topics);
                    assert(s2 =~= m);
                    lemma_topic_rewrite_same_ids(s1.topics, s2.topics);
                    assert forall|k: int| 0 <= k < s2.topics.len() implies has_user_id(
                        s1.users,
                        (#[trigger] s2.topics[k]).user_id,
                    ) && has_project_id(s1.projects, s2.topics[k].project_id) by {
                        if k != i {
                            assert(s2.topics[k] == s1.topics[k]);
                        } else {
                            assert(s2.topics[k].user_id == s1.topics[k].user_id);
                            assert(s2.topics[k].project_id == s1.topics[k].project_id);
                        }
                    }
                    lemma_wf_after_topics_change(s1, s2);
                }
            },
            None => {
                proof {
                    assert forall|j: int| 0 <= j < self@.topics.len() implies self@.topics[j]
                        == m.topics[j] by {
                        assert(s1.topics[j].id != id@);
                    }
                    assert(self@.topics =~= m.topics);
                    assert(self@ =~= m);
                }
            },
        }
    }
}

} // verus!
