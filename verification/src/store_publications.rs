//! Publication table operations: creating publishing tasks and tracking
//! their status. Publications carry full history and are never removed.

use vstd::prelude::*;
use vstd::pervasive::VecAdditionalExecFns;

use crate::errors::StoreError;
use crate::model::{CreatePublication, CreatePublicationModel, Publication, PublicationModel};
use crate::status::{str_eq, SyncStatus};
use crate::store::{
    coalesce_opt_field, has_content_id, has_publication_id, has_user_id,
    lemma_wf_after_publications_change, opt_str_view, Repository, StoreModel,
};

verus! {

/// A publication row born from a user-driven creation.
pub open spec fn fresh_local_publication(
    id: Seq<char>,
    user_id: Seq<char>,
    d: CreatePublicationModel,
    now: i64,
) -> PublicationModel {
    PublicationModel {
        id: id,
        user_id: user_id,
        content_id: d.content_id,
        account_id: d.account_id,
        platform: d.platform,
        status: "pending"@,
        adapted_content: None,
        scheduled_at: d.scheduled_at,
        published_at: None,
        platform_post_id: None,
        platform_post_url: None,
        error_message: None,
        retry_count: 0,
        last_retry_at: None,
        synced_at: None,
        server_version: 0,
        local_version: 1,
        sync_status: SyncStatus::Pending,
        created_at: now,
        updated_at: now,
    }
}

/// A status change applied to one row: the new status and error text are
/// stored as given (an absent error clears the field), the row turns
/// `Pending`, and its local version steps by one.
pub open spec fn update_publication_status_model(
    s: StoreModel,
    id: Seq<char>,
    status: Seq<char>,
    error_message: Option<Seq<char>>,
    now: i64,
) -> StoreModel {
    StoreModel {
        publications: s.publications.map_values(
            |p: PublicationModel|
                if p.id == id {
                    PublicationModel {
                        status: status,
                        error_message: error_message,
                        sync_status: SyncStatus::Pending,
                        local_version: (p.local_version + 1) as i64,
                        updated_at: now,
                        ..p
                    }
                } else {
                    p
                },
        ),
        ..s
    }
}

pub open spec fn content_publication_pred(content_id: Seq<char>) -> spec_fn(
    PublicationModel,
) -> bool {
    |p: PublicationModel| p.content_id == content_id
}

/// Listing order: most recently created first.
pub open spec fn publication_list_le(a: PublicationModel, b: PublicationModel) -> bool {
    a.created_at >= b.created_at
}

pub open spec fn sorted_publications(s: Seq<PublicationModel>) -> bool {
    forall|i: int, j: int| 0 <= i < j < s.len() ==> publication_list_le(s[i], s[j])
}

pub open spec fn publication_models(v: Seq<Publication>) -> Seq<PublicationModel> {
    v.map_values(|p: Publication| p@)
}

pub proof fn lemma_publication_rewrite_same_ids(
    s1: Seq<PublicationModel>,
    s2: Seq<PublicationModel>,
)
    requires
        s1.len() == s2.len(),
        forall|i: int| 0 <= i < s1.len() ==> s1[i].id == (#[trigger] s2[i]).id,
    ensures
        crate::store::unique_publication_ids(s1) ==> crate::store::unique_publication_ids(s2),
{
}

pub proof fn lemma_publication_push(s: Seq<PublicationModel>, p: PublicationModel)
    ensures
        crate::store::unique_publication_ids(s) && !has_publication_id(s, p.id)
            ==> crate::store::unique_publication_ids(s.push(p)),
{
    if crate::store::unique_publication_ids(s) && !has_publication_id(s, p.id) {
        assert forall|i: int, j: int| 0 <= i < j < s.push(p).len() implies s.push(p)[i].id
            != s.push(p)[j].id by {
            if j < s.len() {
                assert(s.push(p)[i] == s[i] && s.push(p)[j] == s[j]);
            } else {
                assert(s.push(p)[i] == s[i]);
                assert(!(s[i].id == p.id));
            }
        }
    }
}

impl Repository {
    pub(crate) fn find_publication_index(&self, id: &str) -> (r: Option<usize>)
        ensures
            match r {
                Some(i) => i < self@.publications.len() && self@.publications[i as int].id == id@,
                None => !has_publication_id(self@.publications, id@),
            },
    {
        let mut i: usize = 0;
        while i < self.publications.len()
            invariant
                i <= self.publications.len(),
                forall|k: int| 0 <= k < i ==> (#[trigger] self@.publications[k]).id != id@,
            decreases self.publications.len() - i,
        {
            if str_eq(self.publications[i].id.as_str(), id) {
                return Some(i);
            }
            i = i + 1;
        }
        None
    }

    /// Creates a publication under the given fresh id. The row starts
    /// `Pending` with local version 1.
    pub fn create_publication_with_id(
        &mut self,
        id: &str,
        user_id: &str,
        data: &CreatePublication,
        now: i64,
    ) -> (r: Result<Publication, StoreError>)
        requires
            old(self)@.wf(),
        ensures
            final(self)@.wf(),
            r is Ok <==> has_user_id(old(self)@.users, user_id@) && has_content_id(
                old(self)@.contents,
                data@.content_id,
            ) && !has_publication_id(old(self)@.publications, id@),
            match r {
                Ok(p) => {
                    &&& has_user_id(old(self)@.users, user_id@)
                    &&& has_content_id(old(self)@.contents, data@.content_id)
                    &&& !has_publication_id(old(self)@.publications, id@)
                    &&& p@ == fresh_local_publication(id@, user_id@, data@, now)
                    &&& p@.local_version == 1
                    &&& p@.sync_status == SyncStatus::Pending
                    &&& final(self)@ == (StoreModel {
                        publications: old(self)@.publications.push(p@),
                        ..old(self)@
                    })
                },
                Err(e) => {
                    &&& final(self)@ == old(self)@
                    &&& (e == StoreError::MissingUser <==> !has_user_id(
                        old(self)@.users,
                        user_id@,
                    ))
                    &&& (e == StoreError::MissingContent <==> has_user_id(
                        old(self)@.users,
                        user_id@,
                    ) && !has_content_id(old(self)@.contents, data@.content_id))
                    &&& (e == StoreError::DuplicateId <==> has_user_id(old(self)@.users, user_id@)
                        && has_content_id(old(self)@.contents, data@.content_id)
                        && has_publication_id(old(self)@.publications, id@))
                },
            },
    {
        if self.find_user_index(user_id).is_none() {
            return Err(StoreError::MissingUser);
        }
        if self.find_content_index(data.content_id.as_str()).is_none() {
            return Err(StoreError::MissingContent);
        }
        if self.find_publication_index(id).is_some() {
            return Err(StoreError::DuplicateId);
        }
        let ghost s1 = self@;
        let row = Publication {
            id: id.to_owned(),
            user_id: user_id.to_owned(),
            content_id: data.content_id.clone(),
            account_id: data.account_id.clone(),
            platform: data.platform.clone(),
            status: "pending".to_owned(),
            adapted_content: None,
            scheduled_at: data.scheduled_at,
            published_at: None,
            platform_post_id: None,
            platform_post_url: None,
            error_message: None,
            retry_count: 0,
            last_retry_at: None,
            synced_at: None,
            server_version: 0,
            local_version: 1,
            sync_status: SyncStatus::Pending,
            created_at: now,
            updated_at: now,
        };
        proof {
            assert(row@ == fresh_local_publication(id@, user_id@, data@, now));
        }
        let result = row.clone();
        self.publications.push(row);
        proof {
            let s2 = self@;
            assert(s2.publications =~= s1.publications.push(result@));
            assert(s2 =~= (StoreModel { publications: s1.publications.push(result@), ..s1 }));
            lemma_publication_push(s1.publications, result@);
            assert forall|k: int| 0 <= k < s2.publications.len() implies has_user_id(
                s1.users,
                (#[trigger] s2.publications[k]).user_id,
            ) && has_content_id(s1.contents, s2.publications[k].content_id) by {
                if k < s1.publications.len() {
                    assert(s2.publications[k] == s1.publications[k]);
                }
            }
            lemma_wf_after_publications_change(s1, s2);
        }
        Ok(result)
    }

    /// Creates a publication under a freshly generated id.
    pub fn create_publication(
        &mut self,
        user_id: &str,
        data: &CreatePublication,
        now: i64,
    ) -> (r: Result<Publication, StoreError>)
        requires
            old(self)@.wf(),
        ensures
            final(self)@.wf(),
            r is Err ==> r->Err_0 == StoreError::MissingUser || r->Err_0
                == StoreError::MissingContent || r->Err_0 == StoreError::DuplicateId,
            match r {
                Ok(p) => {
                    &&& has_user_id(old(self)@.users, user_id@)
                    &&& has_content_id(old(self)@.contents, data@.content_id)
                    &&& !has_publication_id(old(self)@.publications, p@.id)
                    &&& p@ == fresh_local_publication(p@.id, user_id@, data@, now)
                    &&& p@.local_version == 1
                    &&& p@.sync_status == SyncStatus::Pending
                    &&& final(self)@ == (StoreModel {
                        publications: old(self)@.publications.push(p@),
                        ..old(self)@
                    })
                },
                Err(e) => {
                    &&& final(self)@ == old(self)@
                    &&& (e == StoreError::MissingUser <==> !has_user_id(
                        old(self)@.users,
                        user_id@,
                    ))
                    &&& (e == StoreError::MissingContent <==> has_user_id(
                        old(self)@.users,
                        user_id@,
                    ) && !has_content_id(old(self)@.contents, data@.content_id))
                },
            },
    {
        let id = crate::trusted::gen_uuid();
        self.create_publication_with_id(id.as_str(), user_id, data, now)
    }

    /// Point lookup over all rows (publications are never soft-deleted).
    pub fn get_publication(&self, id: &str) -> (r: Option<Publication>)
        ensures
            match r {
                Some(p) => exists|i: int|
                    0 <= i < self@.publications.len() && (#[trigger] self@.publications[i]).id
                        == id@ && p@ == self@.publications[i],
                None => !has_publication_id(self@.publications, id@),
            },
    {
        let found = self.find_publication_index(id);
        match found {
            Some(i) => Some(self.publications[i].clone()),
            None => None,
        }
    }

    /// The content row's publications, most recently created first.
    pub fn list_publications(&self, content_id: &str) -> (r: Vec<Publication>)
        ensures
            publication_models(r@).to_multiset() == self@.publications.filter(
                content_publication_pred(content_id@),
            ).to_multiset(),
            sorted_publications(publication_models(r@)),
    {
        let ghost pred = content_publication_pred(content_id@);
        let mut out: Vec<Publication> = Vec::new();
        proof {
            reveal(Seq::filter);
            assert(publication_models(out@) =~= Seq::<PublicationModel>::empty());
            assert(self@.publications.take(0) =~= Seq::<PublicationModel>::empty());
            assert(Seq::<PublicationModel>::empty().filter(pred) == Seq::<
                PublicationModel,
            >::empty());
        }
        let n = self.publications.len();
        let mut i: usize = 0;
        while i < n
            invariant
                n == self.publications.len(),
                i <= n,
                publication_models(out@).to_multiset() == self@.publications.take(i as int).filter(
                    pred,
                ).to_multiset(),
                sorted_publications(publication_models(out@)),
                pred == content_publication_pred(content_id@),
            decreases n - i,
        {
            let ghost t_prev = self@.publications.take(i as int);
            let ghost t_next = self@.publications.take(i as int + 1);
            proof {
                assert(t_next.drop_last() =~= t_prev);
                assert(t_next.last() == self@.publications[i as int]);
                reveal(Seq::filter);
            }
            let keep = str_eq(self.publications[i].content_id.as_str(), content_id);
            if keep {
                let row = self.publications[i].clone();
                let ghost m1 = publication_models(out@);
                let mut pos: usize = 0;
                while pos < out.len() && out[pos].created_at >= row.created_at
                    invariant
                        pos <= out.len(),
                        forall|k: int|
                            0 <= k < pos ==> publication_list_le(
                                (#[trigger] publication_models(out@)[k]),
                                row@,
                            ),
                        publication_models(out@) == m1,
                    decreases out.len() - pos,
                {
                    pos = pos + 1;
                }
                out.insert(pos, row);
                proof {
                    let m2 = publication_models(out@);
                    assert(m2 =~= m1.insert(pos as int, self@.publications[i as int]));
                    m1.insert_ensures(pos as int, self@.publications[i as int]);
                    vstd::seq_lib::to_multiset_insert(m1, pos as int, self@.publications[i as int]);
                    vstd::seq_lib::to_multiset_build(
                        t_prev.filter(pred),
                        self@.publications[i as int],
                    );
                    assert(t_next.filter(pred) == t_prev.filter(pred).push(
                        self@.publications[i as int],
                    ));
                    let e = self@.publications[i as int];
                    assert forall|a: int, b: int| 0 <= a < b < m2.len() implies publication_list_le(
                        m2[a],
                        m2[b],
                    ) by {
                        if b < pos {
                            assert(m2[a] == m1[a] && m2[b] == m1[b]);
                        } else if a < pos && b == pos {
                            assert(m2[a] == m1[a] && m2[b] == e);
                        } else if a < pos && b > pos {
                            assert(m2[a] == m1[a] && m2[b] == m1[b - 1]);
                        } else if a == pos && b > pos {
                            assert(m2[a] == e && m2[b] == m1[b - 1]);
                            if (pos as int) < m1.len() {
                                assert(!publication_list_le(m1[pos as int], e));
                                assert(publication_list_le(e, m1[pos as int]));
                                if b - 1 > pos {
                                    assert(publication_list_le(m1[pos as int], m1[b - 1]));
                                }
                            }
                        } else {
                            assert(m2[a] == m1[a - 1] && m2[b] == m1[b - 1]);
                        }
                    }
                }
            } else {
                proof {
                    assert(t_next.filter(pred) == t_prev.filter(pred));
                }
            }
            i = i + 1;
        }
        proof {
            assert(self@.publications.take(n as int) =~= self@.publications);
        }
        out
    }

    /// Applies a status change to the row with this id, if present; the row
    /// turns `Pending` and its local version steps by one.
    pub fn update_publication_status(
        &mut self,
        id: &str,
        status: &str,
        error_message: Option<&str>,
        now: i64,
    )
        requires
            old(self)@.wf(),
            forall|i: int|
                0 <= i < old(self)@.publications.len() && (#[trigger] old(
                    self,
                )@.publications[i]).id == id@ ==> old(self)@.publications[i].local_version
                    < i64::MAX,
        ensures
            final(self)@.wf(),
            final(self)@ == update_publication_status_model(
                old(self)@,
                id@,
                status@,
                opt_str_view(error_message),
                now,
            ),
    {
        let ghost s1 = self@;
        let ghost m = update_publication_status_model(
            s1,
            id@,
            status@,
            opt_str_view(error_message),
            now,
        );
        let found = self.find_publication_index(id);
        match found {
            Some(i) => {
                let row = self.publications[i].clone();
                let new_error = match error_message {
                    Some(e) => Some(e.to_owned()),
                    None => None,
                };
                let updated = Publication {
                    status: status.to_owned(),
                    error_message: new_error,
                    sync_status: SyncStatus::Pending,
                    local_version: row.local_version + 1,
                    updated_at: now,
                    ..row
                };
                self.publications.set(i, updated);
                proof {
                    let s2 = self@;
                    assert forall|j: int| 0 <= j < s2.publications.len() implies s2.publications[j]
                        == m.publications[j] by {
                        if j != i {
                            assert(s1.publications[j].id != id@);
                        }
                    }
                    assert(s2.publications =~= m.publications);
                    assert(s2 =~= m);
                    lemma_publication_rewrite_same_ids(s1.publications, s2.publications);
                    assert forall|k: int| 0 <= k < s2.publications.len() implies has_user_id(
                        s1.users,
                        (#[trigger] s2.publications[k]).user_id,
                    ) && has_content_id(s1.contents, s2.publications[k].content_id) by {
                        if k != i {
                            assert(s2.publications[k] == s1.publications[k]);
                        } else {
                            assert(s2.publications[k].user_id == s1.publications[k].user_id);
                            assert(s2.publications[k].content_id == s1.publications[k].content_id);
                        }
                    }
                    lemma_wf_after_publications_change(s1, s2);
                }
            },
            None => {
                proof {
                    assert forall|j: int| 0 <= j < self@.publications.len() implies self@
                        .publications[j] == m.publications[j] by {
                        assert(s1.publications[j].id != id@);
                    }
                    assert(self@.publications =~= m.publications);
                    assert(self@ =~= m);
                }
            },
        }
    }
}

} // verus!
