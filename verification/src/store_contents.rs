//! Content table operations: user-driven creation and edits, lookups and
//! listings. Word counts are kept in characters of the text body.

use vstd::prelude::*;
use vstd::pervasive::VecAdditionalExecFns;
use vstd::string::StrSliceExecFns;

use crate::errors::StoreError;
use crate::model::{Content, ContentModel, CreateContent, CreateContentModel};
use crate::status::{str_eq, SyncStatus};
use crate::store::{
    coalesce_opt_field, coalesce_seq, coalesce_str_field, encode_opt_list, has_content_id,
    has_project_id, has_user_id, lemma_content_push, lemma_content_rewrite_same_ids,
    lemma_wf_after_contents_change, opt_encoded, opt_str_view, Repository, StoreModel,
};

verus! {

/// The stored word count of an optional text body: its character count.
pub open spec fn text_word_count(text: Option<Seq<char>>) -> i64 {
    match text {
        Some(t) => t.len() as i64,
        None => 0,
    }
}

/// A content row born from a user-driven creation.
pub open spec fn fresh_local_content(
    id: Seq<char>,
    user_id: Seq<char>,
    d: CreateContentModel,
    now: i64,
) -> ContentModel {
    ContentModel {
        id: id,
        user_id: user_id,
        project_id: d.project_id,
        title: d.title,
        content_type: d.content_type,
        status: "draft"@,
        text_content: d.text_content,
        summary: None,
        media_urls: None,
        cover_url: None,
        tags: opt_encoded(d.tags),
        keywords: None,
        word_count: text_word_count(d.text_content),
        read_time_minutes: 0,
        ai_generated: false,
        generation_params: None,
        version: 1,
        parent_id: None,
        is_deleted: false,
        deleted_at: None,
        synced_at: None,
        server_version: 0,
        local_version: 1,
        sync_status: SyncStatus::Pending,
        created_at: now,
        updated_at: now,
    }
}

/// A user-driven edit of title and text, applied to one row.
pub open spec fn apply_content_update(
    c: ContentModel,
    title: Option<Seq<char>>,
    text: Option<Seq<char>>,
    now: i64,
) -> ContentModel {
    ContentModel {
        title: coalesce_seq(title, c.title),
        text_content: coalesce_seq(text, c.text_content),
        word_count: match text {
            Some(t) => t.len() as i64,
            None => c.word_count,
        },
        sync_status: SyncStatus::Pending,
        local_version: (c.local_version + 1) as i64,
        updated_at: now,
        ..c
    }
}

pub open spec fn update_content_model(
    s: StoreModel,
    id: Seq<char>,
    title: Option<Seq<char>>,
    text: Option<Seq<char>>,
    now: i64,
) -> StoreModel {
    StoreModel {
        contents: s.contents.map_values(
            |c: ContentModel|
                if c.id == id {
                    apply_content_update(c, title, text, now)
                } else {
                    c
                },
        ),
        ..s
    }
}

pub open spec fn delete_content_model(s: StoreModel, id: Seq<char>, now: i64) -> StoreModel {
    StoreModel {
        contents: s.contents.map_values(
            |c: ContentModel|
                if c.id == id {
                    ContentModel {
                        is_deleted: true,
                        deleted_at: Some(now),
                        sync_status: SyncStatus::Pending,
                        local_version: (c.local_version + 1) as i64,
                        updated_at: now,
                        ..c
                    }
                } else {
                    c
                },
        ),
        ..s
    }
}

pub open spec fn has_live_content(s: Seq<ContentModel>, id: Seq<char>) -> bool {
    exists|i: int| 0 <= i < s.len() && s[i].id == id && !s[i].is_deleted
}

pub open spec fn live_project_content(project_id: Seq<char>) -> spec_fn(ContentModel) -> bool {
    |c: ContentModel| c.project_id == project_id && !c.is_deleted
}

/// Listing order: most recently updated first.
pub open spec fn content_list_le(a: ContentModel, b: ContentModel) -> bool {
    a.updated_at >= b.updated_at
}

pub open spec fn sorted_contents(s: Seq<ContentModel>) -> bool {
    forall|i: int, j: int| 0 <= i < j < s.len() ==> content_list_le(s[i], s[j])
}

pub open spec fn content_models(v: Seq<Content>) -> Seq<ContentModel> {
    v.map_values(|c: Content| c@)
}

/// Character count of a string slice.
pub fn str_char_count(s: &str) -> (r: usize)
    ensures
        r as nat == s@.len(),
{
    s.unicode_len()
}

impl Repository {
    pub(crate) fn find_content_index(&self, id: &str) -> (r: Option<usize>)
        ensures
            match r {
                Some(i) => i < self@.contents.len() && self@.contents[i as int].id == id@,
                None => !has_content_id(self@.contents, id@),
            },
    {
        let mut i: usize = 0;
        while i < self.contents.len()
            invariant
                i <= self.contents.len(),
                forall|k: int| 0 <= k < i ==> (#[trigger] self@.contents[k]).id != id@,
            decreases self.contents.len() - i,
        {
            if str_eq(self.contents[i].id.as_str(), id) {
                return Some(i);
            }
            i = i + 1;
        }
        None
    }

    /// Creates a content row under the given id. The new row starts `Pending`
    /// with local version 1 and a word count taken from its text.
    pub fn create_content_with_id(
        &mut self,
        id: &str,
        user_id: &str,
        data: &CreateContent,
        now: i64,
    ) -> (r: Result<Content, StoreError>)
        requires
            old(self)@.wf(),
            data@.text_content is Some ==> data@.text_content->0.len() <= i64::MAX,
        ensures
            final(self)@.wf(),
            r is Ok <==> has_user_id(old(self)@.users, user_id@) && has_project_id(
                old(self)@.projects,
                data@.project_id,
            ) && !has_content_id(old(self)@.contents, id@),
            match r {
                Ok(c) => {
                    &&& has_user_id(old(self)@.users, user_id@)
                    &&& has_project_id(old(self)@.projects, data@.project_id)
                    &&& !has_content_id(old(self)@.contents, id@)
                    &&& c@ == fresh_local_content(id@, user_id@, data@, now)
                    &&& c@.local_version == 1
                    &&& c@.sync_status == SyncStatus::Pending
                    &&& final(self)@ == (StoreModel {
                        contents: old(self)@.contents.push(c@),
                        ..old(self)@
                    })
                },
                Err(e) => {
                    &&& final(self)@ == old(self)@
                    &&& (e == StoreError::MissingUser <==> !has_user_id(
                        old(self)@.users,
                        user_id@,
                    ))
                    &&& (e == StoreError::MissingProject <==> has_user_id(
                        old(self)@.users,
                        user_id@,
                    ) && !has_project_id(old(self)@.projects, data@.project_id))
                    &&& (e == StoreError::DuplicateId <==> has_user_id(old(self)@.users, user_id@)
                        && has_project_id(old(self)@.projects, data@.project_id)
                        && has_content_id(old(self)@.contents, id@))
                },
            },
    {
        if self.find_user_index(user_id).is_none() {
            return Err(StoreError::MissingUser);
        }
        if self.find_project_index(data.project_id.as_str()).is_none() {
            return Err(StoreError::MissingProject);
        }
        if self.find_content_index(id).is_some() {
            return Err(StoreError::DuplicateId);
        }
        let ghost s1 = self@;
        let word_count: i64 = match &data.text_content {
            Some(t) => str_char_count(t.as_str()) as i64,
            None => 0,
        };
        let row = Content {
            id: id.to_owned(),
            user_id: user_id.to_owned(),
            project_id: data.project_id.clone(),
            title: coalesce_opt_field(&data.title, &None),
            content_type: data.content_type.clone(),
            status: "draft".to_owned(),
            text_content: coalesce_opt_field(&data.text_content, &None),
            summary: None,
            media_urls: None,
            cover_url: None,
            tags: encode_opt_list(&data.tags),
            keywords: None,
            word_count: word_count,
            read_time_minutes: 0,
            ai_generated: false,
            generation_params: None,
            version: 1,
            parent_id: None,
            is_deleted: false,
            deleted_at: None,
            synced_at: None,
            server_version: 0,
            local_version: 1,
            sync_status: SyncStatus::Pending,
            created_at: now,
            updated_at: now,
        };
        proof {
            assert(row@ == fresh_local_content(id@, user_id@, data@, now));
        }
        let result = row.clone();
        self.contents.push(row);
        proof {
            let s2 = self@;
            assert(s2.contents =~= s1.contents.push(fresh_local_content(id@, user_id@, data@, now)));
            assert(s2 =~= (StoreModel { contents: s1.contents.push(result@), ..s1 }));
            lemma_content_push(s1.contents, s2.contents[s1.contents.len() as int]);
            lemma_wf_after_contents_change(s1, s2);
        }
        Ok(result)
    }

    /// Creates a content row under a freshly generated id.
    pub fn create_content(&mut self, user_id: &str, data: &CreateContent, now: i64) -> (r: Result<
        Content,
        StoreError,
    >)
        requires
            old(self)@.wf(),
            data@.text_content is Some ==> data@.text_content->0.len() <= i64::MAX,
        ensures
            final(self)@.wf(),
            r is Err ==> r->Err_0 == StoreError::MissingUser || r->Err_0
                == StoreError::MissingProject || r->Err_0 == StoreError::DuplicateId,
            match r {
                Ok(c) => {
                    &&& has_user_id(old(self)@.users, user_id@)
                    &&& has_project_id(old(self)@.projects, data@.project_id)
                    &&& !has_content_id(old(self)@.contents, c@.id)
                    &&& c@ == fresh_local_content(c@.id, user_id@, data@, now)
                    &&& c@.local_version == 1
                    &&& c@.sync_status == SyncStatus::Pending
                    &&& final(self)@ == (StoreModel {
                        contents: old(self)@.contents.push(c@),
                        ..old(self)@
                    })
                },
                Err(e) => {
                    &&& final(self)@ == old(self)@
                    &&& (e == StoreError::MissingUser <==> !has_user_id(
                        old(self)@.users,
                        user_id@,
                    ))
                    &&& (e == StoreError::MissingProject <==> has_user_id(
                        old(self)@.users,
                        user_id@,
                    ) && !has_project_id(old(self)@.projects, data@.project_id))
                },
            },
    {
        let id = crate::trusted::gen_uuid();
        self.create_content_with_id(id.as_str(), user_id, data, now)
    }

    /// Applies a user-driven edit of title and text to the row with this id,
    /// if present; the row turns `Pending` and its local version steps by one.
    pub fn update_content(&mut self, id: &str, title: Option<&str>, text_content: Option<&str>, now: i64)
        requires
            old(self)@.wf(),
            forall|i: int|
                0 <= i < old(self)@.contents.len() && (#[trigger] old(self)@.contents[i]).id == id@
                    ==> old(self)@.contents[i].local_version < i64::MAX,
            text_content is Some ==> text_content->0@.len() <= i64::MAX,
        ensures
            final(self)@.wf(),
            final(self)@ == update_content_model(
                old(self)@,
                id@,
                opt_str_view(title),
                opt_str_view(text_content),
                now,
            ),
    {
        let ghost s1 = self@;
        let found = self.find_content_index(id);
        match found {
            Some(i) => {
                let row = self.contents[i].clone();
                let new_word_count: i64 = match text_content {
                    Some(t) => str_char_count(t) as i64,
                    None => row.word_count,
                };
                let updated = Content {
                    title: coalesce_str_field(title, &row.title),
                    text_content: coalesce_str_field(text_content, &row.text_content),
                    word_count: new_word_count,
                    sync_status: SyncStatus::Pending,
                    local_version: row.local_version + 1,
                    updated_at: now,
                    ..row
                };
                self.contents.set(i, updated);
                proof {
                    let s2 = self@;
                    let m = update_content_model(
                        s1,
                        id@,
                        opt_str_view(title),
                        opt_str_view(text_content),
                        now,
                    );
                    assert forall|j: int| 0 <= j < s2.contents.len() implies s2.contents[j]
                        == m.contents[j] by {
                        if j != i {
                            assert(s1.contents[j].id != id@);
                        }
                    }
                    assert(s2.contents =~= m.contents);
                    assert(s2 =~= m);
                    lemma_content_rewrite_same_ids(s1.contents, s2.contents);
                    lemma_wf_after_contents_change(s1, s2);
                }
            },
            None => {
                proof {
                    let m = update_content_model(
                        s1,
                        id@,
                        opt_str_view(title),
                        opt_str_view(text_content),
                        now,
                    );
                    assert forall|j: int| 0 <= j < self@.contents.len() implies self@.contents[j]
                        == m.contents[j] by {
                        assert(s1.contents[j].id != id@);
                    }
                    assert(self@.contents =~= m.contents);
                    assert(self@ =~= m);
                }
            },
        }
    }

    /// Soft-deletes the row with this id, if present.
    pub fn delete_content(&mut self, id: &str, now: i64)
        requires
            old(self)@.wf(),
            forall|i: int|
                0 <= i < old(self)@.contents.len() && (#[trigger] old(self)@.contents[i]).id == id@
                    ==> old(self)@.contents[i].local_version < i64::MAX,
        ensures
            final(self)@.wf(),
            final(self)@ == delete_content_model(old(self)@, id@, now),
    {
        let ghost s1 = self@;
        let found = self.find_content_index(id);
        match found {
            Some(i) => {
                let row = self.contents[i].clone();
                let updated = Content {
                    is_deleted: true,
                    deleted_at: Some(now),
                    sync_status: SyncStatus::Pending,
                    local_version: row.local_version + 1,
                    updated_at: now,
                    ..row
                };
                self.contents.set(i, updated);
                proof {
                    let s2 = self@;
                    let m = delete_content_model(s1, id@, now);
                    assert forall|j: int| 0 <= j < s2.contents.len() implies s2.contents[j]
                        == m.contents[j] by {
                        if j != i {
                            assert(s1.contents[j].id != id@);
                        }
                    }
                    assert(s2.contents =~= m.contents);
                    assert(s2 =~= m);
                    lemma_content_rewrite_same_ids(s1.contents, s2.contents);
                    lemma_wf_after_contents_change(s1, s2);
                }
            },
            None => {
                proof {
                    let m = delete_content_model(s1, id@, now);
                    assert forall|j: int| 0 <= j < self@.contents.len() implies self@.contents[j]
                        == m.contents[j] by {
                        assert(s1.contents[j].id != id@);
                    }
                    assert(self@.contents =~= m.contents);
                    assert(self@ =~= m);
                }
            },
        }
    }

    /// Point lookup, excluding soft-deleted rows.
    pub fn get_content(&self, id: &str) -> (r: Option<Content>)
        requires
            self@.wf(),
        ensures
            match r {
                Some(c) => exists|i: int|
                    0 <= i < self@.contents.len() && (#[trigger] self@.contents[i]).id == id@
                        && !self@.contents[i].is_deleted && c@ == self@.contents[i],
                None => !has_live_content(self@.contents, id@),
            },
    {
        let found = self.find_content_index(id);
        match found {
            Some(i) => {
                if self.contents[i].is_deleted {
                    proof {
                        assert forall|k: int|
                            0 <= k < self@.contents.len() && (#[trigger] self@.contents[k]).id
                                == id@ implies self@.contents[k].is_deleted by {
                            if k != i {
                                assert(self@.contents[k].id != self@.contents[i as int].id);
                            }
                        }
                    }
                    None
                } else {
                    Some(self.contents[i].clone())
                }
            },
            None => None,
        }
    }

    /// The project's live content rows, most recently updated first.
    pub fn list_contents(&self, project_id: &str) -> (r: Vec<Content>)
        ensures
            content_models(r@).to_multiset() == self@.contents.filter(
                live_project_content(project_id@),
            ).to_multiset(),
            sorted_contents(content_models(r@)),
    {
        let ghost pred = live_project_content(project_id@);
        let mut out: Vec<Content> = Vec::new();
        proof {
            reveal(Seq::filter);
            assert(content_models(out@) =~= Seq::<ContentModel>::empty());
            assert(self@.contents.take(0) =~= Seq::<ContentModel>::empty());
            assert(Seq::<ContentModel>::empty().filter(pred) == Seq::<ContentModel>::empty());
        }
        let n = self.contents.len();
        let mut i: usize = 0;
        while i < n
            invariant
                n == self.contents.len(),
                i <= n,
                content_models(out@).to_multiset() == self@.contents.take(i as int).filter(
                    pred,
                ).to_multiset(),
                sorted_contents(content_models(out@)),
                pred == live_project_content(project_id@),
            decreases n - i,
        {
            let ghost t_prev = self@.contents.take(i as int);
            let ghost t_next = self@.contents.take(i as int + 1);
            proof {
                assert(t_next.drop_last() =~= t_prev);
                assert(t_next.last() == self@.contents[i as int]);
                reveal(Seq::filter);
            }
            let keep = str_eq(self.contents[i].project_id.as_str(), project_id)
                && !self.contents[i].is_deleted;
            if keep {
                let row = self.contents[i].clone();
                let ghost m1 = content_models(out@);
                let mut pos: usize = 0;
                while pos < out.len() && out[pos].updated_at >= row.updated_at
                    invariant
                        pos <= out.len(),
                        forall|k: int|
                            0 <= k < pos ==> content_list_le(
                                (#[trigger] content_models(out@)[k]),
                                row@,
                            ),
                        content_models(out@) == m1,
                    decreases out.len() - pos,
                {
                    pos = pos + 1;
                }
                out.insert(pos, row);
                proof {
                    let m2 = content_models(out@);
                    assert(m2 =~= m1.insert(pos as int, self@.contents[i as int]));
                    m1.insert_ensures(pos as int, self@.contents[i as int]);
                    vstd::seq_lib::to_multiset_insert(m1, pos as int, self@.contents[i as int]);
                    vstd::seq_lib::to_multiset_build(t_prev.filter(pred), self@.contents[i as int]);
                    assert(t_next.filter(pred) == t_prev.filter(pred).push(
                        self@.contents[i as int],
                    ));
                    let e = self@.contents[i as int];
                    assert forall|a: int, b: int| 0 <= a < b < m2.len() implies content_list_le(
                        m2[a],
                        m2[b],
                    ) by {
                        if b < pos {
                            assert(m2[a] == m1[a] && m2[b] == m1[b]);
                        } else if a < pos && b == pos {
                            assert(m2[a] == m1[a] && m2[b] == e);
                        } else if a < pos && b > pos {
                            assert(m2[a] == m1[a] && m2[b] == m1[b - 1]);
                        } else if a == pos && b > pos {
                            assert(m2[a] == e && m2[b] == m1[b - 1]);
                            if (pos as int) < m1.len() {
                                assert(!content_list_le(m1[pos as int], e));
                                assert(content_list_le(e, m1[pos as int]));
                                if b - 1 > pos {
                                    assert(content_list_le(m1[pos as int], m1[b - 1]));
                                }
                            }
                        } else {
                            assert(m2[a] == m1[a - 1] && m2[b] == m1[b - 1]);
                        }
                    }
                }
            } else {
                proof {
                    assert(t_next.filter(pred) == t_prev.filter(pred));
                }
            }
            i = i + 1;
        }
        proof {
            assert(self@.contents.take(n as int) =~= self@.contents);
        }
        out
    }
}

} // verus!
