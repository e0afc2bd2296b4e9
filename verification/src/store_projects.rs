//! Project table operations: user-driven mutations, remote upserts, listings,
//! and the placeholder provisioning that keeps parent references valid.

use vstd::prelude::*;
use vstd::pervasive::VecAdditionalExecFns;

use crate::errors::StoreError;
use crate::model::{CreateProject, CreateProjectModel, Project, ProjectModel, UpdateProject,
    UpdateProjectModel};
use crate::status::{str_eq, SyncStatus};
use crate::store::{
    coalesce_i64, coalesce_opt_field, coalesce_seq, coalesce_str_field, encode_opt_list,
    has_project_id, has_user_id, lemma_project_push, lemma_project_rewrite_same_ids,
    lemma_wf_after_projects_change, opt_encoded, opt_str_view, Repository,
    StoreModel,
};

verus! {

/// A minimal placeholder project, provisioned so a pulled child row never
/// arrives before its parent.
pub open spec fn fresh_placeholder_project(
    id: Seq<char>,
    user_id: Seq<char>,
    now: i64,
) -> ProjectModel {
    ProjectModel {
        id: id,
        user_id: user_id,
        name: "Default Project"@,
        description: None,
        industry: None,
        sub_industries: None,
        brand_name: None,
        brand_tone: None,
        brand_keywords: None,
        topics: None,
        keywords: None,
        account_tags: None,
        preferred_platforms: None,
        content_style: None,
        settings: None,
        is_default: false,
        is_deleted: false,
        deleted_at: None,
        synced_at: None,
        server_version: 0,
        local_version: 1,
        sync_status: SyncStatus::Pending,
        created_at: now,
        updated_at: now,
        cloud_id: None,
    }
}

/// What `ensure_project_exists` provisions: the owning user first, then the
/// placeholder project.
pub open spec fn ensure_project_model(
    s: StoreModel,
    project_id: Seq<char>,
    user_id: Seq<char>,
    now: i64,
) -> StoreModel {
    provision_project_model(
        crate::store::ensure_user_model(s, user_id, now),
        project_id,
        user_id,
        now,
    )
}

/// Insert-or-ignore of a placeholder project.
pub open spec fn provision_project_model(
    s: StoreModel,
    id: Seq<char>,
    user_id: Seq<char>,
    now: i64,
) -> StoreModel {
    if has_project_id(s.projects, id) {
        s
    } else {
        StoreModel { projects: s.projects.push(fresh_placeholder_project(id, user_id, now)), ..s }
    }
}

/// Merge of one pulled project record into an existing row. A `Pending` row
/// holds unpushed local work and is left untouched: the incoming fields are
/// deferred to a pull after the next successful push.
pub open spec fn remote_project_merge(
    p: ProjectModel,
    name: Seq<char>,
    description: Option<Seq<char>>,
    cloud_id: Option<i64>,
    server_version: i64,
    now: i64,
) -> ProjectModel {
    if p.sync_status == SyncStatus::Pending {
        p
    } else {
        ProjectModel {
            name: name,
            description: coalesce_seq(description, p.description),
            sync_status: SyncStatus::Synced,
            server_version: server_version,
            synced_at: Some(now),
            updated_at: now,
            cloud_id: coalesce_i64(cloud_id, p.cloud_id),
            ..p
        }
    }
}

/// A project row first seen through a pull.
pub open spec fn fresh_remote_project(
    id: Seq<char>,
    user_id: Seq<char>,
    name: Seq<char>,
    description: Option<Seq<char>>,
    cloud_id: Option<i64>,
    server_version: i64,
    now: i64,
) -> ProjectModel {
    ProjectModel {
        id: id,
        user_id: user_id,
        name: name,
        description: description,
        industry: None,
        sub_industries: None,
        brand_name: None,
        brand_tone: None,
        brand_keywords: None,
        topics: None,
        keywords: None,
        account_tags: None,
        preferred_platforms: None,
        content_style: None,
        settings: None,
        is_default: false,
        is_deleted: false,
        deleted_at: None,
        synced_at: Some(now),
        server_version: server_version,
        local_version: 0,
        sync_status: SyncStatus::Synced,
        created_at: now,
        updated_at: now,
        cloud_id: cloud_id,
    }
}

/// Upsert of one pulled project record.
pub open spec fn sync_project_model(
    s: StoreModel,
    id: Seq<char>,
    user_id: Seq<char>,
    name: Seq<char>,
    description: Option<Seq<char>>,
    cloud_id: Option<i64>,
    server_version: i64,
    now: i64,
) -> StoreModel {
    if has_project_id(s.projects, id) {
        StoreModel {
            projects: s.projects.map_values(
                |p: ProjectModel|
                    if p.id == id {
                        remote_project_merge(p, name, description, cloud_id, server_version, now)
                    } else {
                        p
                    },
            ),
            ..s
        }
    } else {
        StoreModel {
            projects: s.projects.push(
                fresh_remote_project(id, user_id, name, description, cloud_id, server_version, now),
            ),
            ..s
        }
    }
}

/// A project row born from a user-driven creation.
pub open spec fn fresh_local_project(
    id: Seq<char>,
    user_id: Seq<char>,
    d: CreateProjectModel,
    now: i64,
) -> ProjectModel {
    ProjectModel {
        id: id,
        user_id: user_id,
        name: d.name,
        description: d.description,
        industry: d.industry,
        sub_industries: opt_encoded(d.sub_industries),
        brand_name: d.brand_name,
        brand_tone: d.brand_tone,
        brand_keywords: opt_encoded(d.brand_keywords),
        topics: opt_encoded(d.topics),
        keywords: opt_encoded(d.keywords),
        account_tags: None,
        preferred_platforms: None,
        content_style: None,
        settings: None,
        is_default: false,
        is_deleted: false,
        deleted_at: None,
        synced_at: None,
        server_version: 0,
        local_version: 1,
        sync_status: SyncStatus::Pending,
        created_at: now,
        updated_at: now,
        cloud_id: None,
    }
}

/// A user-driven update applied to one row: absent fields keep the stored
/// value, the row turns `Pending`, and its local version steps by one.
pub open spec fn apply_project_update(
    p: ProjectModel,
    d: UpdateProjectModel,
    now: i64,
) -> ProjectModel {
    ProjectModel {
        name: match d.name {
            Some(n) => n,
            None => p.name,
        },
        description: coalesce_seq(d.description, p.description),
        industry: coalesce_seq(d.industry, p.industry),
        sub_industries: coalesce_seq(opt_encoded(d.sub_industries), p.sub_industries),
        brand_name: coalesce_seq(d.brand_name, p.brand_name),
        brand_tone: coalesce_seq(d.brand_tone, p.brand_tone),
        brand_keywords: coalesce_seq(opt_encoded(d.brand_keywords), p.brand_keywords),
        topics: coalesce_seq(opt_encoded(d.topics), p.topics),
        keywords: coalesce_seq(opt_encoded(d.keywords), p.keywords),
        account_tags: coalesce_seq(opt_encoded(d.account_tags), p.account_tags),
        preferred_platforms: coalesce_seq(opt_encoded(d.preferred_platforms), p.preferred_platforms),
        content_style: coalesce_seq(d.content_style, p.content_style),
        sync_status: SyncStatus::Pending,
        local_version: (p.local_version + 1) as i64,
        updated_at: now,
        ..p
    }
}

pub open spec fn update_project_model(
    s: StoreModel,
    id: Seq<char>,
    d: UpdateProjectModel,
    now: i64,
) -> StoreModel {
    StoreModel {
        projects: s.projects.map_values(
            |p: ProjectModel|
                if p.id == id {
                    apply_project_update(p, d, now)
                } else {
                    p
                },
        ),
        ..s
    }
}

/// The soft delete of one row: a mutation like any other, so the deletion
/// itself can be pushed.
pub open spec fn delete_project_model(s: StoreModel, id: Seq<char>, now: i64) -> StoreModel {
    StoreModel {
        projects: s.projects.map_values(
            |p: ProjectModel|
                if p.id == id {
                    ProjectModel {
                        is_deleted: true,
                        deleted_at: Some(now),
                        sync_status: SyncStatus::Pending,
                        local_version: (p.local_version + 1) as i64,
                        updated_at: now,
                        ..p
                    }
                } else {
                    p
                },
        ),
        ..s
    }
}

/// Push confirmation: status and remote version bookkeeping change, content
/// fields do not.
pub open spec fn mark_project_synced_model(
    s: StoreModel,
    id: Seq<char>,
    server_version: i64,
    now: i64,
) -> StoreModel {
    StoreModel {
        projects: s.projects.map_values(
            |p: ProjectModel|
                if p.id == id {
                    ProjectModel {
                        sync_status: SyncStatus::Synced,
                        server_version: server_version,
                        synced_at: Some(now),
                        ..p
                    }
                } else {
                    p
                },
        ),
        ..s
    }
}

pub open spec fn set_default_project_model(
    s: StoreModel,
    user_id: Seq<char>,
    project_id: Seq<char>,
    now: i64,
) -> StoreModel {
    StoreModel {
        projects: s.projects.map_values(
            |p: ProjectModel|
                if p.user_id == user_id && !p.is_deleted {
                    ProjectModel {
                        is_default: p.id == project_id,
                        sync_status: SyncStatus::Pending,
                        local_version: (p.local_version + 1) as i64,
                        updated_at: now,
                        ..p
                    }
                } else {
                    p
                },
        ),
        ..s
    }
}

/// A live (not soft-deleted) project with this id exists.
pub open spec fn has_live_project(s: Seq<ProjectModel>, id: Seq<char>) -> bool {
    exists|i: int| 0 <= i < s.len() && s[i].id == id && !s[i].is_deleted
}

/// Rows listed for a user: live rows owned by the user.
pub open spec fn live_user_project(user_id: Seq<char>) -> spec_fn(ProjectModel) -> bool {
    |p: ProjectModel| p.user_id == user_id && !p.is_deleted
}

/// Rows a push must submit: the user's rows with unconfirmed local mutations.
pub open spec fn pending_project_pred(user_id: Seq<char>) -> spec_fn(ProjectModel) -> bool {
    |p: ProjectModel| p.user_id == user_id && p.sync_status == SyncStatus::Pending
}

/// Listing order: default project first, then most recently updated first.
pub open spec fn project_list_le(a: ProjectModel, b: ProjectModel) -> bool {
    (a.is_default && !b.is_default) || (a.is_default == b.is_default && a.updated_at
        >= b.updated_at)
}

pub open spec fn sorted_projects(s: Seq<ProjectModel>) -> bool {
    forall|i: int, j: int| 0 <= i < j < s.len() ==> project_list_le(s[i], s[j])
}

pub open spec fn project_models(v: Seq<Project>) -> Seq<ProjectModel> {
    v.map_values(|p: Project| p@)
}

fn project_le_exec(a: &Project, b: &Project) -> (r: bool)
    ensures
        r == project_list_le(a@, b@),
{
    (a.is_default && !b.is_default) || (a.is_default == b.is_default && a.updated_at
        >= b.updated_at)
}

impl Repository {
    pub(crate) fn find_project_index(&self, id: &str) -> (r: Option<usize>)
        ensures
            match r {
                Some(i) => i < self@.projects.len() && self@.projects[i as int].id == id@,
                None => !has_project_id(self@.projects, id@),
            },
    {
        let mut i: usize = 0;
        while i < self.projects.len()
            invariant
                i <= self.projects.len(),
                forall|k: int| 0 <= k < i ==> (#[trigger] self@.projects[k]).id != id@,
            decreases self.projects.len() - i,
        {
            if str_eq(self.projects[i].id.as_str(), id) {
                return Some(i);
            }
            i = i + 1;
        }
        None
    }

    /// Makes sure a project row with this id exists, provisioning a minimal
    /// `Pending` placeholder (and its owning user) when it does not.
    pub fn ensure_project_exists(&mut self, project_id: &str, user_id: &str, now: i64)
        requires
            old(self)@.wf(),
        ensures
            final(self)@.wf(),
            final(self)@ == ensure_project_model(old(self)@, project_id@, user_id@, now),
            has_project_id(final(self)@.projects, project_id@),
            has_user_id(final(self)@.users, user_id@),
    {
        self.ensure_user_exists(user_id, now);
        let ghost s1 = self@;
        let found = self.find_project_index(project_id);
        match found {
            Some(i) => {
                proof {
                    assert(has_project_id(self@.projects, project_id@));
                }
            },
            None => {
                let row = Project {
                    id: project_id.to_owned(),
                    user_id: user_id.to_owned(),
                    name: "Default Project".to_owned(),
                    description: None,
                    industry: None,
                    sub_industries: None,
                    brand_name: None,
                    brand_tone: None,
                    brand_keywords: None,
                    topics: None,
                    keywords: None,
                    account_tags: None,
                    preferred_platforms: None,
                    content_style: None,
                    settings: None,
                    is_default: false,
                    is_deleted: false,
                    deleted_at: None,
                    synced_at: None,
                    server_version: 0,
                    local_version: 1,
                    sync_status: SyncStatus::Pending,
                    created_at: now,
                    updated_at: now,
                    cloud_id: None,
                };
                proof {
                    assert(row@ == fresh_placeholder_project(project_id@, user_id@, now));
                }
                self.projects.push(row);
                proof {
                    let s2 = self@;
                    assert(s2.projects =~= s1.projects.push(
                        fresh_placeholder_project(project_id@, user_id@, now),
                    ));
                    assert(s2 =~= provision_project_model(s1, project_id@, user_id@, now));
                    lemma_project_push(s1.projects, s2.projects[s1.projects.len() as int]);
                    lemma_wf_after_projects_change(s1, s2);
                }
            },
        }
    }

    /// Applies one pulled project record: coalesce merge into the matching
    /// row (deferred if that row is `Pending`), or insert a fresh remote-born
    /// row. Fails only when a fresh row would lack its owning user.
    pub fn sync_project(
        &mut self,
        project_id: &str,
        user_id: &str,
        name: &str,
        description: Option<&str>,
        cloud_id: Option<i64>,
        server_version: i64,
        now: i64,
    ) -> (r: Result<(), StoreError>)
        requires
            old(self)@.wf(),
        ensures
            final(self)@.wf(),
            match r {
                Ok(()) => {
                    &&& has_project_id(old(self)@.projects, project_id@) || has_user_id(
                        old(self)@.users,
                        user_id@,
                    )
                    &&& final(self)@ == sync_project_model(
                        old(self)@,
                        project_id@,
                        user_id@,
                        name@,
                        opt_str_view(description),
                        cloud_id,
                        server_version,
                        now,
                    )
                    &&& has_project_id(final(self)@.projects, project_id@)
                },
                Err(e) => {
                    &&& e == StoreError::MissingUser
                    &&& !has_project_id(old(self)@.projects, project_id@)
                    &&& !has_user_id(old(self)@.users, user_id@)
                    &&& final(self)@ == old(self)@
                },
            },
    {
        let ghost s1 = self@;
        let found = self.find_project_index(project_id);
        match found {
            Some(i) => {
                let row = self.projects[i].clone();
                if matches!(row.sync_status, SyncStatus::Pending) {
                    // Unpushed local work: defer the incoming fields.
                    proof {
                        let m = sync_project_model(
                            s1,
                            project_id@,
                            user_id@,
                            name@,
                            opt_str_view(description),
                            cloud_id,
                            server_version,
                            now,
                        );
                        assert(has_project_id(s1.projects, project_id@));
                        assert forall|j: int| 0 <= j < self@.projects.len() implies self@
                            .projects[j] == m.projects[j] by {
                            if j != i {
                                assert(s1.projects[j].id != project_id@);
                            }
                        }
                        assert(self@.projects =~= m.projects);
                        assert(self@ =~= m);
                    }
                    return Ok(());
                }
                let new_description = coalesce_str_field(description, &row.description);
                let new_cloud_id = match cloud_id {
                    Some(c) => Some(c),
                    None => row.cloud_id,
                };
                let updated = Project {
                    name: name.to_owned(),
                    description: new_description,
                    sync_status: SyncStatus::Synced,
                    server_version: server_version,
                    synced_at: Some(now),
                    updated_at: now,
                    cloud_id: new_cloud_id,
                    ..row
                };
                self.projects.set(i, updated);
                proof {
                    let s2 = self@;
                    let m = sync_project_model(
                        s1,
                        project_id@,
                        user_id@,
                        name@,
                        opt_str_view(description),
                        cloud_id,
                        server_version,
                        now,
                    );
                    assert(has_project_id(s1.projects, project_id@));
                    assert forall|j: int| 0 <= j < s2.projects.len() implies s2.projects[j]
                        == m.projects[j] by {
                        if j != i {
                            assert(s1.projects[j].id != project_id@);
                        }
                    }
                    assert(s2.projects =~= m.projects);
                    assert(s2 =~= m);
                    lemma_project_rewrite_same_ids(s1.projects, s2.projects);
                    lemma_wf_after_projects_change(s1, s2);
                }
                Ok(())
            },
            None => {
                let user_found = self.find_user_index(user_id);
                if user_found.is_none() {
                    return Err(StoreError::MissingUser);
                }
                let row = Project {
                    id: project_id.to_owned(),
                    user_id: user_id.to_owned(),
                    name: name.to_owned(),
                    description: coalesce_str_field(description, &None),
                    industry: None,
                    sub_industries: None,
                    brand_name: None,
                    brand_tone: None,
                    brand_keywords: None,
                    topics: None,
                    keywords: None,
                    account_tags: None,
                    preferred_platforms: None,
                    content_style: None,
                    settings: None,
                    is_default: false,
                    is_deleted: false,
                    deleted_at: None,
                    synced_at: Some(now),
                    server_version: server_version,
                    local_version: 0,
                    sync_status: SyncStatus::Synced,
                    created_at: now,
                    updated_at: now,
                    cloud_id: cloud_id,
                };
                proof {
                    assert(row@ == fresh_remote_project(
                        project_id@,
                        user_id@,
                        name@,
                        opt_str_view(description),
                        cloud_id,
                        server_version,
                        now,
                    ));
                }
                self.projects.push(row);
                proof {
                    let s2 = self@;
                    assert(s2.projects =~= s1.projects.push(
                        fresh_remote_project(
                            project_id@,
                            user_id@,
                            name@,
                            opt_str_view(description),
                            cloud_id,
                            server_version,
                            now,
                        ),
                    ));
                    assert(s2 =~= sync_project_model(
                        s1,
                        project_id@,
                        user_id@,
                        name@,
                        opt_str_view(description),
                        cloud_id,
                        server_version,
                        now,
                    ));
                    lemma_project_push(s1.projects, s2.projects[s1.projects.len() as int]);
                    lemma_wf_after_projects_change(s1, s2);
                }
                Ok(())
            },
        }
    }

    /// Creates a project under a fresh id. The new row starts its life
    /// `Pending` with local version 1.
    pub fn create_project_with_id(
        &mut self,
        id: &str,
        user_id: &str,
        data: &CreateProject,
        now: i64,
    ) -> (r: Result<Project, StoreError>)
        requires
            old(self)@.wf(),
        ensures
            final(self)@.wf(),
            r is Ok <==> has_user_id(old(self)@.users, user_id@) && !has_project_id(
                old(self)@.projects,
                id@,
            ),
            match r {
                Ok(p) => {
                    &&& has_user_id(old(self)@.users, user_id@)
                    &&& !has_project_id(old(self)@.projects, id@)
                    &&& p@ == fresh_local_project(id@, user_id@, data@, now)
                    &&& p@.local_version == 1
                    &&& p@.sync_status == SyncStatus::Pending
                    &&& final(self)@ == (StoreModel {
                        projects: old(self)@.projects.push(p@),
                        ..old(self)@
                    })
                },
                Err(e) => {
                    &&& final(self)@ == old(self)@
                    &&& (e == StoreError::MissingUser <==> !has_user_id(
                        old(self)@.users,
                        user_id@,
                    ))
                    &&& (e == StoreError::DuplicateId <==> has_user_id(old(self)@.users, user_id@)
                        && has_project_id(old(self)@.projects, id@))
                },
            },
    {
        let user_found = self.find_user_index(user_id);
        if user_found.is_none() {
            return Err(StoreError::MissingUser);
        }
        let found = self.find_project_index(id);
        if found.is_some() {
            return Err(StoreError::DuplicateId);
        }
        let ghost s1 = self@;
        let row = Project {
            id: id.to_owned(),
            user_id: user_id.to_owned(),
            name: data.name.clone(),
            description: coalesce_opt_field(&data.description, &None),
            industry: coalesce_opt_field(&data.industry, &None),
            sub_industries: encode_opt_list(&data.sub_industries),
            brand_name: coalesce_opt_field(&data.brand_name, &None),
            brand_tone: coalesce_opt_field(&data.brand_tone, &None),
            brand_keywords: encode_opt_list(&data.brand_keywords),
            topics: encode_opt_list(&data.topics),
            keywords: encode_opt_list(&data.keywords),
            account_tags: None,
            preferred_platforms: None,
            content_style: None,
            settings: None,
            is_default: false,
            is_deleted: false,
            deleted_at: None,
            synced_at: None,
            server_version: 0,
            local_version: 1,
            sync_status: SyncStatus::Pending,
            created_at: now,
            updated_at: now,
            cloud_id: None,
        };
        proof {
            assert(row@ == fresh_local_project(id@, user_id@, data@, now));
        }
        let result = row.clone();
        self.projects.push(row);
        proof {
            let s2 = self@;
            assert(s2.projects =~= s1.projects.push(fresh_local_project(id@, user_id@, data@, now)));
            assert(s2 =~= (StoreModel { projects: s1.projects.push(result@), ..s1 }));
            lemma_project_push(s1.projects, s2.projects[s1.projects.len() as int]);
            lemma_wf_after_projects_change(s1, s2);
        }
        Ok(result)
    }

    /// Creates a project under a freshly generated id.
    pub fn create_project(&mut self, user_id: &str, data: &CreateProject, now: i64) -> (r: Result<
        Project,
        StoreError,
    >)
        requires
            old(self)@.wf(),
        ensures
            final(self)@.wf(),
            r is Err ==> r->Err_0 == StoreError::MissingUser || r->Err_0
                == StoreError::DuplicateId,
            match r {
                Ok(p) => {
                    &&& has_user_id(old(self)@.users, user_id@)
                    &&& !has_project_id(old(self)@.projects, p@.id)
                    &&& p@ == fresh_local_project(p@.id, user_id@, data@, now)
                    &&& p@.local_version == 1
                    &&& p@.sync_status == SyncStatus::Pending
                    &&& final(self)@ == (StoreModel {
                        projects: old(self)@.projects.push(p@),
                        ..old(self)@
                    })
                },
                Err(e) => {
                    &&& final(self)@ == old(self)@
                    &&& (e == StoreError::MissingUser <==> !has_user_id(
                        old(self)@.users,
                        user_id@,
                    ))
                },
            },
    {
        let id = crate::trusted::gen_uuid();
        self.create_project_with_id(id.as_str(), user_id, data, now)
    }

    /// Applies a user-driven update to the row with this id, if present:
    /// absent fields keep stored values, the row turns `Pending`, and its
    /// local version steps by exactly one.
    pub fn update_project(&mut self, id: &str, data: &UpdateProject, now: i64)
        requires
            old(self)@.wf(),
            forall|i: int|
                0 <= i < old(self)@.projects.len() && (#[trigger] old(self)@.projects[i]).id == id@
                    ==> old(self)@.projects[i].local_version < i64::MAX,
        ensures
            final(self)@.wf(),
            final(self)@ == update_project_model(old(self)@, id@, data@, now),
    {
        let ghost s1 = self@;
        let found = self.find_project_index(id);
        match found {
            Some(i) => {
                let row = self.projects[i].clone();
                let new_name = match &data.name {
                    Some(n) => n.clone(),
                    None => row.name.clone(),
                };
                let enc_sub_industries = encode_opt_list(&data.sub_industries);
                let enc_brand_keywords = encode_opt_list(&data.brand_keywords);
                let enc_topics = encode_opt_list(&data.topics);
                let enc_keywords = encode_opt_list(&data.keywords);
                let enc_account_tags = encode_opt_list(&data.account_tags);
                let enc_preferred_platforms = encode_opt_list(&data.preferred_platforms);
                let updated = Project {
                    name: new_name,
                    description: coalesce_opt_field(&data.description, &row.description),
                    industry: coalesce_opt_field(&data.industry, &row.industry),
                    sub_industries: coalesce_opt_field(&enc_sub_industries, &row.sub_industries),
                    brand_name: coalesce_opt_field(&data.brand_name, &row.brand_name),
                    brand_tone: coalesce_opt_field(&data.brand_tone, &row.brand_tone),
                    brand_keywords: coalesce_opt_field(&enc_brand_keywords, &row.brand_keywords),
                    topics: coalesce_opt_field(&enc_topics, &row.topics),
                    keywords: coalesce_opt_field(&enc_keywords, &row.keywords),
                    account_tags: coalesce_opt_field(&enc_account_tags, &row.account_tags),
                    preferred_platforms: coalesce_opt_field(
                        &enc_preferred_platforms,
                        &row.preferred_platforms,
                    ),
                    content_style: coalesce_opt_field(&data.content_style, &row.content_style),
                    sync_status: SyncStatus::Pending,
                    local_version: row.local_version + 1,
                    updated_at: now,
                    ..row
                };
                self.projects.set(i, updated);
                proof {
                    let s2 = self@;
                    let m = update_project_model(s1, id@, data@, now);
                    assert forall|j: int| 0 <= j < s2.projects.len() implies s2.projects[j]
                        == m.projects[j] by {
                        if j != i {
                            assert(s1.projects[j].id != id@);
                        }
                    }
                    assert(s2.projects =~= m.projects);
                    assert(s2 =~= m);
                    lemma_project_rewrite_same_ids(s1.projects, s2.projects);
                    lemma_wf_after_projects_change(s1, s2);
                }
            },
            None => {
                proof {
                    let m = update_project_model(s1, id@, data@, now);
                    assert forall|j: int| 0 <= j < self@.projects.len() implies self@.projects[j]
                        == m.projects[j] by {
                        assert(s1.projects[j].id != id@);
                    }
                    assert(self@.projects =~= m.projects);
                    assert(self@ =~= m);
                }
            },
        }
    }

    /// Soft-deletes the row with this id, if present.
    pub fn delete_project(&mut self, id: &str, now: i64)
        requires
            old(self)@.wf(),
            forall|i: int|
                0 <= i < old(self)@.projects.len() && (#[trigger] old(self)@.projects[i]).id == id@
                    ==> old(self)@.projects[i].local_version < i64::MAX,
        ensures
            final(self)@.wf(),
            final(self)@ == delete_project_model(old(self)@, id@, now),
    {
        let ghost s1 = self@;
        let found = self.find_project_index(id);
        match found {
            Some(i) => {
                let row = self.projects[i].clone();
                let updated = Project {
                    is_deleted: true,
                    deleted_at: Some(now),
                    sync_status: SyncStatus::Pending,
                    local_version: row.local_version + 1,
                    updated_at: now,
                    ..row
                };
                self.projects.set(i, updated);
                proof {
                    let s2 = self@;
                    let m = delete_project_model(s1, id@, now);
                    assert forall|j: int| 0 <= j < s2.projects.len() implies s2.projects[j]
                        == m.projects[j] by {
                        if j != i {
                            assert(s1.projects[j].id != id@);
                        }
                    }
                    assert(s2.projects =~= m.projects);
                    assert(s2 =~= m);
                    lemma_project_rewrite_same_ids(s1.projects, s2.projects);
                    lemma_wf_after_projects_change(s1, s2);
                }
            },
            None => {
                proof {
                    let m = delete_project_model(s1, id@, now);
                    assert forall|j: int| 0 <= j < self@.projects.len() implies self@.projects[j]
                        == m.projects[j] by {
                        assert(s1.projects[j].id != id@);
                    }
                    assert(self@.projects =~= m.projects);
                    assert(self@ =~= m);
                }
            },
        }
    }

    /// Records a push confirmation: the row turns `Synced` and adopts the
    /// remote-confirmed version, with content fields untouched.
    pub fn mark_project_synced(&mut self, id: &str, server_version: i64, now: i64)
        requires
            old(self)@.wf(),
        ensures
            final(self)@.wf(),
            final(self)@ == mark_project_synced_model(old(self)@, id@, server_version, now),
    {
        let ghost s1 = self@;
        let found = self.find_project_index(id);
        match found {
            Some(i) => {
                let row = self.projects[i].clone();
                let updated = Project {
                    sync_status: SyncStatus::Synced,
                    server_version: server_version,
                    synced_at: Some(now),
                    ..row
                };
                self.projects.set(i, updated);
                proof {
                    let s2 = self@;
                    let m = mark_project_synced_model(s1, id@, server_version, now);
                    assert forall|j: int| 0 <= j < s2.projects.len() implies s2.projects[j]
                        == m.projects[j] by {
                        if j != i {
                            assert(s1.projects[j].id != id@);
                        }
                    }
                    assert(s2.projects =~= m.projects);
                    assert(s2 =~= m);
                    lemma_project_rewrite_same_ids(s1.projects, s2.projects);
                    lemma_wf_after_projects_change(s1, s2);
                }
            },
            None => {
                proof {
                    let m = mark_project_synced_model(s1, id@, server_version, now);
                    assert forall|j: int| 0 <= j < self@.projects.len() implies self@.projects[j]
                        == m.projects[j] by {
                        assert(s1.projects[j].id != id@);
                    }
                    assert(self@.projects =~= m.projects);
                    assert(self@ =~= m);
                }
            },
        }
    }

    /// Marks exactly one of the user's live projects default, the others not.
    pub fn set_default_project(&mut self, user_id: &str, project_id: &str, now: i64)
        requires
            old(self)@.wf(),
            forall|i: int|
                0 <= i < old(self)@.projects.len() && (#[trigger] old(self)@.projects[i]).user_id
                    == user_id@ && !old(self)@.projects[i].is_deleted ==> old(
                    self,
                )@.projects[i].local_version < i64::MAX,
        ensures
            final(self)@.wf(),
            final(self)@ == set_default_project_model(old(self)@, user_id@, project_id@, now),
    {
        let ghost s1 = self@;
        let n = self.projects.len();
        let mut j: usize = 0;
        while j < n
            invariant
                n == self.projects.len(),
                j <= n,
                self@.users == s1.users,
                self@.accounts == s1.accounts,
                self@.topics == s1.topics,
                self@.contents == s1.contents,
                self@.publications == s1.publications,
                self@.projects.len() == s1.projects.len(),
                forall|k: int|
                    0 <= k < j ==> #[trigger] self@.projects[k] == (if s1.projects[k].user_id
                        == user_id@ && !s1.projects[k].is_deleted {
                        ProjectModel {
                            is_default: s1.projects[k].id == project_id@,
                            sync_status: SyncStatus::Pending,
                            local_version: (s1.projects[k].local_version + 1) as i64,
                            updated_at: now,
                            ..s1.projects[k]
                        }
                    } else {
                        s1.projects[k]
                    }),
                forall|k: int| j <= k < n ==> #[trigger] self@.projects[k] == s1.projects[k],
                forall|i: int|
                    0 <= i < s1.projects.len() && (#[trigger] s1.projects[i]).user_id == user_id@
                        && !s1.projects[i].is_deleted ==> s1.projects[i].local_version < i64::MAX,
            decreases n - j,
        {
            let ghost pre = self@;
            let ghost j0 = j as int;
            let is_match = str_eq(self.projects[j].user_id.as_str(), user_id)
                && !self.projects[j].is_deleted;
            if is_match {
                proof {
                    assert(pre.projects[j0] == s1.projects[j0]);
                    assert(s1.projects[j0].user_id == user_id@);
                    assert(!s1.projects[j0].is_deleted);
                    assert(s1.projects[j0].local_version < i64::MAX);
                }
                let row = self.projects[j].clone();
                let make_default = str_eq(row.id.as_str(), project_id);
                let updated = Project {
                    is_default: make_default,
                    sync_status: SyncStatus::Pending,
                    local_version: row.local_version + 1,
                    updated_at: now,
                    ..row
                };
                self.projects.set(j, updated);
            }
            j = j + 1;
            proof {
                assert forall|k: int| j <= k < n implies #[trigger] self@.projects[k]
                    == s1.projects[k] by {
                    assert(self@.projects[k] == pre.projects[k]);
                    assert(pre.projects[k] == s1.projects[k]);
                }
                assert(pre.projects[j0] == s1.projects[j0]);
                assert forall|k: int| 0 <= k < j implies #[trigger] self@.projects[k] == (
                if s1.projects[k].user_id == user_id@ && !s1.projects[k].is_deleted {
                    ProjectModel {
                        is_default: s1.projects[k].id == project_id@,
                        sync_status: SyncStatus::Pending,
                        local_version: (s1.projects[k].local_version + 1) as i64,
                        updated_at: now,
                        ..s1.projects[k]
                    }
                } else {
                    s1.projects[k]
                }) by {
                    if k < j0 {
                        assert(self@.projects[k] == pre.projects[k]);
                    }
                }
            }
        }
        proof {
            let s2 = self@;
            let m = set_default_project_model(s1, user_id@, project_id@, now);
            assert forall|k: int| 0 <= k < s2.projects.len() implies s2.projects[k]
                == m.projects[k] by {}
            assert(s2.projects =~= m.projects);
            assert(s2 =~= m);
            lemma_project_rewrite_same_ids(s1.projects, s2.projects);
            lemma_wf_after_projects_change(s1, s2);
        }
    }

    /// Point lookup, excluding soft-deleted rows.
    pub fn get_project(&self, id: &str) -> (r: Option<Project>)
        requires
            self@.wf(),
        ensures
            match r {
                Some(p) => exists|i: int|
                    0 <= i < self@.projects.len() && (#[trigger] self@.projects[i]).id == id@
                        && !self@.projects[i].is_deleted && p@ == self@.projects[i],
                None => !has_live_project(self@.projects, id@),
            },
    {
        let found = self.find_project_index(id);
        match found {
            Some(i) => {
                if self.projects[i].is_deleted {
                    proof {
                        assert forall|k: int|
                            0 <= k < self@.projects.len() && (#[trigger] self@.projects[k]).id
                                == id@ implies self@.projects[k].is_deleted by {
                            if k != i {
                                assert(self@.projects[k].id != self@.projects[i as int].id);
                            }
                        }
                    }
                    None
                } else {
                    Some(self.projects[i].clone())
                }
            },
            None => None,
        }
    }

    /// The id of the first row carrying this remote-side numeric id, if any.
    pub fn get_project_uuid_by_cloud_id(&self, cloud_id: i64) -> (r: Option<String>)
        ensures
            match r {
                Some(s) => exists|i: int|
                    0 <= i < self@.projects.len() && (#[trigger] self@.projects[i]).cloud_id
                        == Some(cloud_id) && s@ == self@.projects[i].id,
                None => forall|i: int|
                    0 <= i < self@.projects.len() ==> (#[trigger] self@.projects[i]).cloud_id
                        != Some(cloud_id),
            },
    {
        let mut i: usize = 0;
        while i < self.projects.len()
            invariant
                i <= self.projects.len(),
                forall|k: int|
                    0 <= k < i ==> (#[trigger] self@.projects[k]).cloud_id != Some(cloud_id),
            decreases self.projects.len() - i,
        {
            let hit = match self.projects[i].cloud_id {
                Some(c) => c == cloud_id,
                None => false,
            };
            if hit {
                let found_id = self.projects[i].id.clone();
                proof {
                    assert(0 <= i < self@.projects.len() && self@.projects[i as int].cloud_id
                        == Some(cloud_id) && found_id@ == self@.projects[i as int].id);
                }
                return Some(found_id);
            }
            i = i + 1;
        }
        None
    }

    /// The user's live projects, default project first, then most recently
    /// updated first.
    pub fn list_projects(&self, user_id: &str) -> (r: Vec<Project>)
        ensures
            project_models(r@).to_multiset() == self@.projects.filter(
                live_user_project(user_id@),
            ).to_multiset(),
            sorted_projects(project_models(r@)),
    {
        let ghost pred = live_user_project(user_id@);
        let mut out: Vec<Project> = Vec::new();
        proof {
            reveal(Seq::filter);
            assert(project_models(out@) =~= Seq::<ProjectModel>::empty());
            assert(self@.projects.take(0) =~= Seq::<ProjectModel>::empty());
            assert(Seq::<ProjectModel>::empty().filter(pred) == Seq::<ProjectModel>::empty());
        }
        let n = self.projects.len();
        let mut i: usize = 0;
        while i < n
            invariant
                n == self.projects.len(),
                i <= n,
                project_models(out@).to_multiset() == self@.projects.take(i as int).filter(
                    pred,
                ).to_multiset(),
                sorted_projects(project_models(out@)),
                pred == live_user_project(user_id@),
            decreases n - i,
        {
            let ghost t_prev = self@.projects.take(i as int);
            let ghost t_next = self@.projects.take(i as int + 1);
            proof {
                assert(t_next.drop_last() =~= t_prev);
                assert(t_next.last() == self@.projects[i as int]);
                reveal(Seq::filter);
            }
            let keep = str_eq(self.projects[i].user_id.as_str(), user_id)
                && !self.projects[i].is_deleted;
            if keep {
                let row = self.projects[i].clone();
                let ghost m1 = project_models(out@);
                let mut pos: usize = 0;
                while pos < out.len() && project_le_exec(&out[pos], &row)
                    invariant
                        pos <= out.len(),
                        forall|k: int|
                            0 <= k < pos ==> project_list_le(
                                (#[trigger] project_models(out@)[k]),
                                row@,
                            ),
                        project_models(out@) == m1,
                    decreases out.len() - pos,
                {
                    pos = pos + 1;
                }
                out.insert(pos, row);
                proof {
                    let m2 = project_models(out@);
                    assert(m2 =~= m1.insert(pos as int, self@.projects[i as int]));
                    m1.insert_ensures(pos as int, self@.projects[i as int]);
                    vstd::seq_lib::to_multiset_insert(
                        m1,
                        pos as int,
                        self@.projects[i as int],
                    );
                    vstd::seq_lib::to_multiset_build(
                        t_prev.filter(pred),
                        self@.projects[i as int],
                    );
                    assert(t_next.filter(pred) == t_prev.filter(pred).push(
                        self@.projects[i as int],
                    ));
                    let e = self@.projects[i as int];
                    assert forall|a: int, b: int| 0 <= a < b < m2.len() implies project_list_le(
                        m2[a],
                        m2[b],
                    ) by {
                        if b < pos {
                            assert(m2[a] == m1[a] && m2[b] == m1[b]);
                        } else if a < pos && b == pos {
                            assert(m2[a] == m1[a] && m2[b] == e);
                        } else if a < pos && b > pos {
                            assert(m2[a] == m1[a] && m2[b] == m1[b - 1]);
                        } else if a == pos && b > pos {
                            assert(m2[a] == e && m2[b] == m1[b - 1]);
                            if (pos as int) < m1.len() {
                                assert(!project_list_le(m1[pos as int], e));
                                assert(project_list_le(e, m1[pos as int]));
                                if b - 1 > pos {
                                    assert(project_list_le(m1[pos as int], m1[b - 1]));
                                }
                            }
                        } else {
                            assert(m2[a] == m1[a - 1] && m2[b] == m1[b - 1]);
                        }
                    }
                }
            } else {
                proof {
                    assert(t_next.filter(pred) == t_prev.filter(pred));
                }
            }
            i = i + 1;
        }
        proof {
            assert(self@.projects.take(n as int) =~= self@.projects);
        }
        out
    }

    /// The user's rows awaiting a push: every row whose status is `Pending`,
    /// soft-deleted rows included (the deletion itself must be pushed).
    pub fn list_pending_projects(&self, user_id: &str) -> (r: Vec<Project>)
        ensures
            project_models(r@) == self@.projects.filter(pending_project_pred(user_id@)),
    {
        let ghost pred = pending_project_pred(user_id@);
        let mut out: Vec<Project> = Vec::new();
        proof {
            reveal(Seq::filter);
            assert(project_models(out@) =~= Seq::<ProjectModel>::empty());
            assert(self@.projects.take(0) =~= Seq::<ProjectModel>::empty());
            assert(Seq::<ProjectModel>::empty().filter(pred) == Seq::<ProjectModel>::empty());
        }
        let n = self.projects.len();
        let mut i: usize = 0;
        while i < n
            invariant
                n == self.projects.len(),
                i <= n,
                project_models(out@) == self@.projects.take(i as int).filter(pred),
                pred == pending_project_pred(user_id@),
            decreases n - i,
        {
            let ghost t_prev = self@.projects.take(i as int);
            let ghost t_next = self@.projects.take(i as int + 1);
            proof {
                assert(t_next.drop_last() =~= t_prev);
                assert(t_next.last() == self@.projects[i as int]);
                reveal(Seq::filter);
            }
            let keep = str_eq(self.projects[i].user_id.as_str(), user_id)
                && matches!(self.projects[i].sync_status, SyncStatus::Pending);
            if keep {
                let ghost m1 = project_models(out@);
                out.push(self.projects[i].clone());
                proof {
                    assert(project_models(out@) =~= m1.push(self@.projects[i as int]));
                }
            }
            i = i + 1;
        }
        proof {
            assert(self@.projects.take(n as int) =~= self@.projects);
        }
        out
    }
}

} // verus!
