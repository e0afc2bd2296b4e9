//! The versioned local entity store: one keyed table per entity type, with
//! the version/status bookkeeping invariants of the data model.
//!
//! The store's well-formedness (`StoreModel::wf`) holds three families of
//! invariants: ids are unique per table, a platform account's
//! `(project_id, platform, account_id)` key is unique, and every row's
//! parent references resolve (a child is never inserted before its parent).

use vstd::prelude::*;
use vstd::pervasive::VecAdditionalExecFns;
use vstd::string::StringExecFns;

use crate::errors::StoreError;
use crate::model::{
    clone_opt_string, Content, ContentModel, PlatformAccount, PlatformAccountModel, Project,
    ProjectModel, ProjectTopic, ProjectTopicModel, Publication, PublicationModel, User, UserModel,
};
use crate::status::SyncStatus;

verus! {

/// Mathematical model of the whole store: the rows of each table, in order.
#[verifier::ext_equal]
pub ghost struct StoreModel {
    pub users: Seq<UserModel>,
    pub projects: Seq<ProjectModel>,
    pub accounts: Seq<PlatformAccountModel>,
    pub topics: Seq<ProjectTopicModel>,
    pub contents: Seq<ContentModel>,
    pub publications: Seq<PublicationModel>,
}

pub open spec fn has_user_id(s: Seq<UserModel>, id: Seq<char>) -> bool {
    exists|i: int| 0 <= i < s.len() && s[i].id == id
}

pub open spec fn has_project_id(s: Seq<ProjectModel>, id: Seq<char>) -> bool {
    exists|i: int| 0 <= i < s.len() && s[i].id == id
}

pub open spec fn has_account_id(s: Seq<PlatformAccountModel>, id: Seq<char>) -> bool {
    exists|i: int| 0 <= i < s.len() && s[i].id == id
}

pub open spec fn has_topic_id(s: Seq<ProjectTopicModel>, id: Seq<char>) -> bool {
    exists|i: int| 0 <= i < s.len() && s[i].id == id
}

pub open spec fn has_content_id(s: Seq<ContentModel>, id: Seq<char>) -> bool {
    exists|i: int| 0 <= i < s.len() && s[i].id == id
}

pub open spec fn has_publication_id(s: Seq<PublicationModel>, id: Seq<char>) -> bool {
    exists|i: int| 0 <= i < s.len() && s[i].id == id
}

/// The secondary key that makes repeated pulls of one remote account record
/// land in one local row.
pub open spec fn account_key(a: PlatformAccountModel) -> (Seq<char>, Seq<char>, Seq<char>) {
    (a.project_id, a.platform, a.account_id)
}

pub open spec fn has_account_key(
    s: Seq<PlatformAccountModel>,
    key: (Seq<char>, Seq<char>, Seq<char>),
) -> bool {
    exists|i: int| 0 <= i < s.len() && account_key(s[i]) == key
}

pub open spec fn unique_user_ids(s: Seq<UserModel>) -> bool {
    forall|i: int, j: int| 0 <= i < j < s.len() ==> s[i].id != s[j].id
}

pub open spec fn unique_project_ids(s: Seq<ProjectModel>) -> bool {
    forall|i: int, j: int| 0 <= i < j < s.len() ==> s[i].id != s[j].id
}

pub open spec fn unique_account_ids(s: Seq<PlatformAccountModel>) -> bool {
    forall|i: int, j: int| 0 <= i < j < s.len() ==> s[i].id != s[j].id
}

pub open spec fn unique_account_keys(s: Seq<PlatformAccountModel>) -> bool {
    forall|i: int, j: int| 0 <= i < j < s.len() ==> account_key(s[i]) != account_key(s[j])
}

pub open spec fn unique_topic_ids(s: Seq<ProjectTopicModel>) -> bool {
    forall|i: int, j: int| 0 <= i < j < s.len() ==> s[i].id != s[j].id
}

pub open spec fn unique_content_ids(s: Seq<ContentModel>) -> bool {
    forall|i: int, j: int| 0 <= i < j < s.len() ==> s[i].id != s[j].id
}

pub open spec fn unique_publication_ids(s: Seq<PublicationModel>) -> bool {
    forall|i: int, j: int| 0 <= i < j < s.len() ==> s[i].id != s[j].id
}

impl StoreModel {
    /// Referential integrity: every parent reference resolves to a row that
    /// exists (soft-deleted parents still exist, so references stay valid).
    pub open spec fn parents_ok(self) -> bool {
        &&& forall|i: int|
            0 <= i < self.projects.len() ==> has_user_id(
                self.users,
                (#[trigger] self.projects[i]).user_id,
            )
        &&& forall|i: int|
            0 <= i < self.accounts.len() ==> has_user_id(
                self.users,
                (#[trigger] self.accounts[i]).user_id,
            ) && has_project_id(self.projects, self.accounts[i].project_id)
        &&& forall|i: int|
            0 <= i < self.topics.len() ==> has_user_id(
                self.users,
                (#[trigger] self.topics[i]).user_id,
            ) && has_project_id(self.projects, self.topics[i].project_id)
        &&& forall|i: int|
            0 <= i < self.contents.len() ==> has_user_id(
                self.users,
                (#[trigger] self.contents[i]).user_id,
            ) && has_project_id(self.projects, self.contents[i].project_id)
        &&& forall|i: int|
            0 <= i < self.publications.len() ==> has_user_id(
                self.users,
                (#[trigger] self.publications[i]).user_id,
            ) && has_content_id(self.contents, self.publications[i].content_id)
    }

    /// Well-formedness of the whole store.
    pub open spec fn wf(self) -> bool {
        &&& unique_user_ids(self.users)
        &&& unique_project_ids(self.projects)
        &&& unique_account_ids(self.accounts)
        &&& unique_account_keys(self.accounts)
        &&& unique_topic_ids(self.topics)
        &&& unique_content_ids(self.contents)
        &&& unique_publication_ids(self.publications)
        &&& self.parents_ok()
    }
}

/// The empty store.
pub open spec fn empty_store() -> StoreModel {
    StoreModel {
        users: Seq::empty(),
        projects: Seq::empty(),
        accounts: Seq::empty(),
        topics: Seq::empty(),
        contents: Seq::empty(),
        publications: Seq::empty(),
    }
}

/// Field-level coalesce: an absent incoming value never overwrites, a present
/// incoming value always overwrites.
pub open spec fn coalesce_seq(
    incoming: Option<Seq<char>>,
    current: Option<Seq<char>>,
) -> Option<Seq<char>> {
    match incoming {
        Some(v) => Some(v),
        None => current,
    }
}

pub open spec fn coalesce_i64(incoming: Option<i64>, current: Option<i64>) -> Option<i64> {
    match incoming {
        Some(v) => Some(v),
        None => current,
    }
}

pub open spec fn opt_str_view(o: Option<&str>) -> Option<Seq<char>> {
    match o {
        Some(s) => Some(s@),
        None => None,
    }
}

/// Coalesces an incoming optional field over the stored one.
pub fn coalesce_str_field(incoming: Option<&str>, current: &Option<String>) -> (r: Option<String>)
    ensures
        r.deep_view() == coalesce_seq(opt_str_view(incoming), current.deep_view()),
{
    match incoming {
        Some(s) => Some(s.to_owned()),
        None => clone_opt_string(current),
    }
}

/// Coalesces an incoming owned optional field over the stored one.
pub fn coalesce_opt_field(incoming: &Option<String>, current: &Option<String>) -> (r: Option<
    String,
>)
    ensures
        r.deep_view() == coalesce_seq(incoming.deep_view(), current.deep_view()),
{
    match incoming {
        Some(s) => Some(s.clone()),
        None => clone_opt_string(current),
    }
}

/// The stored JSON encoding of an optional string list.
pub open spec fn opt_encoded(o: Option<Seq<Seq<char>>>) -> Option<Seq<char>> {
    match o {
        Some(l) => Some(crate::trusted::encoded_string_list(l)),
        None => None,
    }
}

/// Encodes an optional string list to its stored JSON form.
pub fn encode_opt_list(v: &Option<Vec<String>>) -> (r: Option<String>)
    ensures
        r.deep_view() == opt_encoded(v.deep_view()),
{
    match v {
        Some(list) => Some(crate::trusted::encode_string_list(list)),
        None => None,
    }
}

// Lemmas about id sets under the two shapes of table change: an in-place
// rewrite that keeps every id, and an append.
pub proof fn lemma_user_rewrite_same_ids(s1: Seq<UserModel>, s2: Seq<UserModel>)
    requires
        s1.len() == s2.len(),
        forall|i: int| 0 <= i < s1.len() ==> s1[i].id == (#[trigger] s2[i]).id,
    ensures
        forall|x: Seq<char>| #[trigger] has_user_id(s2, x) == has_user_id(s1, x),
        unique_user_ids(s1) ==> unique_user_ids(s2),
{
    assert forall|x: Seq<char>| #[trigger] has_user_id(s2, x) == has_user_id(s1, x) by {
        if has_user_id(s1, x) {
            let i = choose|i: int| 0 <= i < s1.len() && s1[i].id == x;
            assert(s2[i].id == x);
        }
        if has_user_id(s2, x) {
            let i = choose|i: int| 0 <= i < s2.len() && s2[i].id == x;
            assert(s1[i].id == x);
        }
    }
}

pub proof fn lemma_user_push(s: Seq<UserModel>, u: UserModel)
    ensures
        forall|x: Seq<char>| #[trigger] has_user_id(s.push(u), x) == (has_user_id(s, x) || u.id
            == x),
        unique_user_ids(s) && !has_user_id(s, u.id) ==> unique_user_ids(s.push(u)),
{
    assert forall|x: Seq<char>| #[trigger] has_user_id(s.push(u), x) == (has_user_id(s, x) || u.id
        == x) by {
        if has_user_id(s, x) {
            let i = choose|i: int| 0 <= i < s.len() && s[i].id == x;
            assert(s.push(u)[i].id == x);
        }
        if u.id == x {
            assert(s.push(u)[s.len() as int].id == x);
        }
        if has_user_id(s.push(u), x) {
            let i = choose|i: int| 0 <= i < s.push(u).len() && s.push(u)[i].id == x;
            if i < s.len() {
                assert(s[i].id == x);
            }
        }
    }
    if unique_user_ids(s) && !has_user_id(s, u.id) {
        assert forall|i: int, j: int| 0 <= i < j < s.push(u).len() implies s.push(u)[i].id
            != s.push(u)[j].id by {
            if j < s.len() {
                assert(s.push(u)[i] == s[i] && s.push(u)[j] == s[j]);
            } else {
                assert(s.push(u)[i] == s[i]);
                assert(!(s[i].id == u.id));
            }
        }
    }
}

pub proof fn lemma_project_rewrite_same_ids(s1: Seq<ProjectModel>, s2: Seq<ProjectModel>)
    requires
        s1.len() == s2.len(),
        forall|i: int| 0 <= i < s1.len() ==> s1[i].id == (#[trigger] s2[i]).id,
    ensures
        forall|x: Seq<char>| #[trigger] has_project_id(s2, x) == has_project_id(s1, x),
        unique_project_ids(s1) ==> unique_project_ids(s2),
{
    assert forall|x: Seq<char>| #[trigger] has_project_id(s2, x) == has_project_id(s1, x) by {
        if has_project_id(s1, x) {
            let i = choose|i: int| 0 <= i < s1.len() && s1[i].id == x;
            assert(s2[i].id == x);
        }
        if has_project_id(s2, x) {
            let i = choose|i: int| 0 <= i < s2.len() && s2[i].id == x;
            assert(s1[i].id == x);
        }
    }
}

pub proof fn lemma_project_push(s: Seq<ProjectModel>, p: ProjectModel)
    ensures
        forall|x: Seq<char>| #[trigger] has_project_id(s.push(p), x) == (has_project_id(s, x)
            || p.id == x),
        unique_project_ids(s) && !has_project_id(s, p.id) ==> unique_project_ids(s.push(p)),
{
    assert forall|x: Seq<char>| #[trigger] has_project_id(s.push(p), x) == (has_project_id(s, x)
        || p.id == x) by {
        if has_project_id(s, x) {
            let i = choose|i: int| 0 <= i < s.len() && s[i].id == x;
            assert(s.push(p)[i].id == x);
        }
        if p.id == x {
            assert(s.push(p)[s.len() as int].id == x);
        }
        if has_project_id(s.push(p), x) {
            let i = choose|i: int| 0 <= i < s.push(p).len() && s.push(p)[i].id == x;
            if i < s.len() {
                assert(s[i].id == x);
            }
        }
    }
    if unique_project_ids(s) && !has_project_id(s, p.id) {
        assert forall|i: int, j: int| 0 <= i < j < s.push(p).len() implies s.push(p)[i].id
            != s.push(p)[j].id by {
            if j < s.len() {
                assert(s.push(p)[i] == s[i] && s.push(p)[j] == s[j]);
            } else {
                assert(s.push(p)[i] == s[i]);
                assert(!(s[i].id == p.id));
            }
        }
    }
}

pub proof fn lemma_content_rewrite_same_ids(s1: Seq<ContentModel>, s2: Seq<ContentModel>)
    requires
        s1.len() == s2.len(),
        forall|i: int| 0 <= i < s1.len() ==> s1[i].id == (#[trigger] s2[i]).id,
    ensures
        forall|x: Seq<char>| #[trigger] has_content_id(s2, x) == has_content_id(s1, x),
        unique_content_ids(s1) ==> unique_content_ids(s2),
{
    assert forall|x: Seq<char>| #[trigger] has_content_id(s2, x) == has_content_id(s1, x) by {
        if has_content_id(s1, x) {
            let i = choose|i: int| 0 <= i < s1.len() && s1[i].id == x;
            assert(s2[i].id == x);
        }
        if has_content_id(s2, x) {
            let i = choose|i: int| 0 <= i < s2.len() && s2[i].id == x;
            assert(s1[i].id == x);
        }
    }
}

pub proof fn lemma_content_push(s: Seq<ContentModel>, c: ContentModel)
    ensures
        forall|x: Seq<char>| #[trigger] has_content_id(s.push(c), x) == (has_content_id(s, x)
            || c.id == x),
        unique_content_ids(s) && !has_content_id(s, c.id) ==> unique_content_ids(s.push(c)),
{
    assert forall|x: Seq<char>| #[trigger] has_content_id(s.push(c), x) == (has_content_id(s, x)
        || c.id == x) by {
        if has_content_id(s, x) {
            let i = choose|i: int| 0 <= i < s.len() && s[i].id == x;
            assert(s.push(c)[i].id == x);
        }
        if c.id == x {
            assert(s.push(c)[s.len() as int].id == x);
        }
        if has_content_id(s.push(c), x) {
            let i = choose|i: int| 0 <= i < s.push(c).len() && s.push(c)[i].id == x;
            if i < s.len() {
                assert(s[i].id == x);
            }
        }
    }
    if unique_content_ids(s) && !has_content_id(s, c.id) {
        assert forall|i: int, j: int| 0 <= i < j < s.push(c).len() implies s.push(c)[i].id
            != s.push(c)[j].id by {
            if j < s.len() {
                assert(s.push(c)[i] == s[i] && s.push(c)[j] == s[j]);
            } else {
                assert(s.push(c)[i] == s[i]);
                assert(!(s[i].id == c.id));
            }
        }
    }
}

// Well-formedness is restored from one changed table plus monotone id sets.
pub proof fn lemma_wf_after_users_change(s1: StoreModel, s2: StoreModel)
    requires
        s1.wf(),
        s2.projects == s1.projects,
        s2.accounts == s1.accounts,
        s2.topics == s1.topics,
        s2.contents == s1.contents,
        s2.publications == s1.publications,
        unique_user_ids(s2.users),
        forall|x: Seq<char>| has_user_id(s1.users, x) ==> #[trigger] has_user_id(s2.users, x),
    ensures
        s2.wf(),
{
    assert forall|i: int| 0 <= i < s2.projects.len() implies has_user_id(
        s2.users,
        (#[trigger] s2.projects[i]).user_id,
    ) by {
        assert(has_user_id(s1.users, s1.projects[i].user_id));
    }
    assert forall|i: int| 0 <= i < s2.accounts.len() implies has_user_id(
        s2.users,
        (#[trigger] s2.accounts[i]).user_id,
    ) && has_project_id(s2.projects, s2.accounts[i].project_id) by {
        assert(has_user_id(s1.users, s1.accounts[i].user_id));
    }
    assert forall|i: int| 0 <= i < s2.topics.len() implies has_user_id(
        s2.users,
        (#[trigger] s2.topics[i]).user_id,
    ) && has_project_id(s2.projects, s2.topics[i].project_id) by {
        assert(has_user_id(s1.users, s1.topics[i].user_id));
    }
    assert forall|i: int| 0 <= i < s2.contents.len() implies has_user_id(
        s2.users,
        (#[trigger] s2.contents[i]).user_id,
    ) && has_project_id(s2.projects, s2.contents[i].project_id) by {
        assert(has_user_id(s1.users, s1.contents[i].user_id));
    }
    assert forall|i: int| 0 <= i < s2.publications.len() implies has_user_id(
        s2.users,
        (#[trigger] s2.publications[i]).user_id,
    ) && has_content_id(s2.contents, s2.publications[i].content_id) by {
        assert(has_user_id(s1.users, s1.publications[i].user_id));
    }
}

pub proof fn lemma_wf_after_projects_change(s1: StoreModel, s2: StoreModel)
    requires
        s1.wf(),
        s2.users == s1.users,
        s2.accounts == s1.accounts,
        s2.topics == s1.topics,
        s2.contents == s1.contents,
        s2.publications == s1.publications,
        unique_project_ids(s2.projects),
        forall|x: Seq<char>| has_project_id(s1.projects, x) ==> #[trigger] has_project_id(
            s2.projects,
            x,
        ),
        forall|i: int|
            0 <= i < s2.projects.len() ==> has_user_id(
                s1.users,
                (#[trigger] s2.projects[i]).user_id,
            ),
    ensures
        s2.wf(),
{
    assert forall|i: int| 0 <= i < s2.accounts.len() implies has_user_id(
        s2.users,
        (#[trigger] s2.accounts[i]).user_id,
    ) && has_project_id(s2.projects, s2.accounts[i].project_id) by {
        assert(has_project_id(s1.projects, s1.accounts[i].project_id));
    }
    assert forall|i: int| 0 <= i < s2.topics.len() implies has_user_id(
        s2.users,
        (#[trigger] s2.topics[i]).user_id,
    ) && has_project_id(s2.projects, s2.topics[i].project_id) by {
        assert(has_project_id(s1.projects, s1.topics[i].project_id));
    }
    assert forall|i: int| 0 <= i < s2.contents.len() implies has_user_id(
        s2.users,
        (#[trigger] s2.contents[i]).user_id,
    ) && has_project_id(s2.projects, s2.contents[i].project_id) by {
        assert(has_project_id(s1.projects, s1.contents[i].project_id));
    }
}

pub proof fn lemma_wf_after_contents_change(s1: StoreModel, s2: StoreModel)
    requires
        s1.wf(),
        s2.users == s1.users,
        s2.projects == s1.projects,
        s2.accounts == s1.accounts,
        s2.topics == s1.topics,
        s2.publications == s1.publications,
        unique_content_ids(s2.contents),
        forall|x: Seq<char>| has_content_id(s1.contents, x) ==> #[trigger] has_content_id(
            s2.contents,
            x,
        ),
        forall|i: int|
            0 <= i < s2.contents.len() ==> has_user_id(
                s1.users,
                (#[trigger] s2.contents[i]).user_id,
            ) && has_project_id(s1.projects, s2.contents[i].project_id),
    ensures
        s2.wf(),
{
    assert forall|i: int| 0 <= i < s2.publications.len() implies has_user_id(
        s2.users,
        (#[trigger] s2.publications[i]).user_id,
    ) && has_content_id(s2.contents, s2.publications[i].content_id) by {
        assert(has_content_id(s1.contents, s1.publications[i].content_id));
    }
}

pub proof fn lemma_wf_after_accounts_change(s1: StoreModel, s2: StoreModel)
    requires
        s1.wf(),
        s2.users == s1.users,
        s2.projects == s1.projects,
        s2.topics == s1.topics,
        s2.contents == s1.contents,
        s2.publications == s1.publications,
        unique_account_ids(s2.accounts),
        unique_account_keys(s2.accounts),
        forall|i: int|
            0 <= i < s2.accounts.len() ==> has_user_id(
                s1.users,
                (#[trigger] s2.accounts[i]).user_id,
            ) && has_project_id(s1.projects, s2.accounts[i].project_id),
    ensures
        s2.wf(),
{
}

pub proof fn lemma_wf_after_topics_change(s1: StoreModel, s2: StoreModel)
    requires
        s1.wf(),
        s2.users == s1.users,
        s2.projects == s1.projects,
        s2.accounts == s1.accounts,
        s2.contents == s1.contents,
        s2.publications == s1.publications,
        unique_topic_ids(s2.topics),
        forall|i: int|
            0 <= i < s2.topics.len() ==> has_user_id(s1.users, (#[trigger] s2.topics[i]).user_id)
                && has_project_id(s1.projects, s2.topics[i].project_id),
    ensures
        s2.wf(),
{
}

pub proof fn lemma_wf_after_publications_change(s1: StoreModel, s2: StoreModel)
    requires
        s1.wf(),
        s2.users == s1.users,
        s2.projects == s1.projects,
        s2.accounts == s1.accounts,
        s2.topics == s1.topics,
        s2.contents == s1.contents,
        unique_publication_ids(s2.publications),
        forall|i: int|
            0 <= i < s2.publications.len() ==> has_user_id(
                s1.users,
                (#[trigger] s2.publications[i]).user_id,
            ) && has_content_id(s1.contents, s2.publications[i].content_id),
    ensures
        s2.wf(),
{
}

/// The durable, keyed entity store.
pub struct Repository {
    pub users: Vec<User>,
    pub projects: Vec<Project>,
    pub accounts: Vec<PlatformAccount>,
    pub topics: Vec<ProjectTopic>,
    pub contents: Vec<Content>,
    pub publications: Vec<Publication>,
}

impl View for Repository {
    type V = StoreModel;

    open spec fn view(&self) -> StoreModel {
        StoreModel {
            users: self.users@.map_values(|u: User| u@),
            projects: self.projects@.map_values(|p: Project| p@),
            accounts: self.accounts@.map_values(|a: PlatformAccount| a@),
            topics: self.topics@.map_values(|t: ProjectTopic| t@),
            contents: self.contents@.map_values(|c: Content| c@),
            publications: self.publications@.map_values(|p: Publication| p@),
        }
    }
}

// User-table transitions.
/// A minimal placeholder user, provisioned to satisfy parent references.
pub open spec fn fresh_placeholder_user(
    id: Seq<char>,
    email: Option<Seq<char>>,
    username: Option<Seq<char>>,
    nickname: Option<Seq<char>>,
    now: i64,
) -> UserModel {
    UserModel {
        id: id,
        email: email,
        phone: None,
        username: username,
        nickname: nickname,
        avatar: None,
        status: 1,
        is_superuser: false,
        is_staff: false,
        subscription_tier: "free"@,
        settings: None,
        synced_at: None,
        server_version: 0,
        created_at: now,
        updated_at: now,
    }
}

/// Insert-or-ignore of the placeholder that `ensure_user_exists` provisions.
pub open spec fn ensure_user_model(s: StoreModel, user_id: Seq<char>, now: i64) -> StoreModel {
    provision_user_model(
        s,
        user_id,
        Some("waiting_sync@local"@),
        Some("pending_"@ + user_id),
        Some("syncing"@),
        now,
    )
}

/// Insert-or-ignore of a placeholder user.
pub open spec fn provision_user_model(
    s: StoreModel,
    id: Seq<char>,
    email: Option<Seq<char>>,
    username: Option<Seq<char>>,
    nickname: Option<Seq<char>>,
    now: i64,
) -> StoreModel {
    if has_user_id(s.users, id) {
        s
    } else {
        StoreModel {
            users: s.users.push(fresh_placeholder_user(id, email, username, nickname, now)),
            ..s
        }
    }
}

/// Coalesce merge of pulled identity fields into an existing user row.
pub open spec fn remote_user_merge(
    u: UserModel,
    email: Option<Seq<char>>,
    username: Option<Seq<char>>,
    nickname: Option<Seq<char>>,
    avatar: Option<Seq<char>>,
    now: i64,
) -> UserModel {
    UserModel {
        email: coalesce_seq(email, u.email),
        username: coalesce_seq(username, u.username),
        nickname: coalesce_seq(nickname, u.nickname),
        avatar: coalesce_seq(avatar, u.avatar),
        updated_at: now,
        ..u
    }
}

/// A user row first seen through a pull.
pub open spec fn fresh_remote_user(
    id: Seq<char>,
    email: Option<Seq<char>>,
    username: Option<Seq<char>>,
    nickname: Option<Seq<char>>,
    avatar: Option<Seq<char>>,
    now: i64,
) -> UserModel {
    UserModel {
        id: id,
        email: email,
        phone: None,
        username: username,
        nickname: nickname,
        avatar: avatar,
        status: 1,
        is_superuser: false,
        is_staff: false,
        subscription_tier: "free"@,
        settings: None,
        synced_at: None,
        server_version: 0,
        created_at: now,
        updated_at: now,
    }
}

/// Upsert of pulled identity fields: coalesce into the existing row, or
/// insert a fresh one.
pub open spec fn sync_user_model(
    s: StoreModel,
    id: Seq<char>,
    email: Option<Seq<char>>,
    username: Option<Seq<char>>,
    nickname: Option<Seq<char>>,
    avatar: Option<Seq<char>>,
    now: i64,
) -> StoreModel {
    if has_user_id(s.users, id) {
        StoreModel {
            users: s.users.map_values(
                |u: UserModel|
                    if u.id == id {
                        remote_user_merge(u, email, username, nickname, avatar, now)
                    } else {
                        u
                    },
            ),
            ..s
        }
    } else {
        StoreModel {
            users: s.users.push(fresh_remote_user(id, email, username, nickname, avatar, now)),
            ..s
        }
    }
}

/// Full-row user upsert: every field from the argument wins; `created_at` of
/// an existing row is kept.
pub open spec fn save_user_model(s: StoreModel, u: UserModel) -> StoreModel {
    if has_user_id(s.users, u.id) {
        StoreModel {
            users: s.users.map_values(
                |x: UserModel|
                    if x.id == u.id {
                        UserModel { created_at: x.created_at, ..u }
                    } else {
                        x
                    },
            ),
            ..s
        }
    } else {
        StoreModel { users: s.users.push(u), ..s }
    }
}

impl Repository {
    /// Opens an empty store.
    pub fn new() -> (r: Repository)
        ensures
            r@ == empty_store(),
            r@.wf(),
    {
        let r = Repository {
            users: Vec::new(),
            projects: Vec::new(),
            accounts: Vec::new(),
            topics: Vec::new(),
            contents: Vec::new(),
            publications: Vec::new(),
        };
        proof {
            assert(r@.users =~= empty_store().users);
            assert(r@.projects =~= empty_store().projects);
            assert(r@.accounts =~= empty_store().accounts);
            assert(r@.topics =~= empty_store().topics);
            assert(r@.contents =~= empty_store().contents);
            assert(r@.publications =~= empty_store().publications);
            assert(r@ =~= empty_store());
        }
        r
    }

    pub(crate) fn find_user_index(&self, id: &str) -> (r: Option<usize>)
        ensures
            match r {
                Some(i) => i < self@.users.len() && self@.users[i as int].id == id@,
                None => !has_user_id(self@.users, id@),
            },
    {
        let mut i: usize = 0;
        while i < self.users.len()
            invariant
                i <= self.users.len(),
                forall|k: int| 0 <= k < i ==> (#[trigger] self@.users[k]).id != id@,
            decreases self.users.len() - i,
        {
            if crate::status::str_eq(self.users[i].id.as_str(), id) {
                return Some(i);
            }
            i = i + 1;
        }
        None
    }

    /// Makes sure a user row with this id exists, inserting a minimal
    /// placeholder when it does not (parent-reference fallback).
    pub fn ensure_user_exists(&mut self, user_id: &str, now: i64)
        requires
            old(self)@.wf(),
        ensures
            final(self)@.wf(),
            final(self)@ == ensure_user_model(old(self)@, user_id@, now),
            has_user_id(final(self)@.users, user_id@),
    {
        let found = self.find_user_index(user_id);
        match found {
            Some(i) => {
                proof {
                    assert(has_user_id(self@.users, user_id@));
                }
            },
            None => {
                let mut username = "pending_".to_owned();
                username.append(user_id);
                let row = User {
                    id: user_id.to_owned(),
                    email: Some("waiting_sync@local".to_owned()),
                    phone: None,
                    username: Some(username),
                    nickname: Some("syncing".to_owned()),
                    avatar: None,
                    status: 1,
                    is_superuser: false,
                    is_staff: false,
                    subscription_tier: "free".to_owned(),
                    settings: None,
                    synced_at: None,
                    server_version: 0,
                    created_at: now,
                    updated_at: now,
                };
                proof {
                    assert(row@ == fresh_placeholder_user(
                        user_id@,
                        Some("waiting_sync@local"@),
                        Some("pending_"@ + user_id@),
                        Some("syncing"@),
                        now,
                    ));
                }
                self.users.push(row);
                proof {
                    let s1 = old(self)@;
                    let s2 = self@;
                    assert(s2.users =~= s1.users.push(
                        fresh_placeholder_user(
                            user_id@,
                            Some("waiting_sync@local"@),
                            Some("pending_"@ + user_id@),
                            Some("syncing"@),
                            now,
                        ),
                    ));
                    assert(s2 =~= provision_user_model(
                        s1,
                        user_id@,
                        Some("waiting_sync@local"@),
                        Some("pending_"@ + user_id@),
                        Some("syncing"@),
                        now,
                    ));
                    lemma_user_push(s1.users, s2.users[s1.users.len() as int]);
                    lemma_wf_after_users_change(s1, s2);
                }
            },
        }
    }

    /// Makes sure the offline default user exists.
    pub fn ensure_default_user(&mut self, now: i64)
        requires
            old(self)@.wf(),
        ensures
            final(self)@.wf(),
            final(self)@ == provision_user_model(
                old(self)@,
                "current-user"@,
                Some("local@localhost"@),
                Some("local"@),
                Some("Local User"@),
                now,
            ),
            has_user_id(final(self)@.users, "current-user"@),
    {
        let found = self.find_user_index("current-user");
        match found {
            Some(i) => {
                proof {
                    assert(has_user_id(self@.users, "current-user"@));
                }
            },
            None => {
                let row = User {
                    id: "current-user".to_owned(),
                    email: Some("local@localhost".to_owned()),
                    phone: None,
                    username: Some("local".to_owned()),
                    nickname: Some("Local User".to_owned()),
                    avatar: None,
                    status: 1,
                    is_superuser: false,
                    is_staff: false,
                    subscription_tier: "free".to_owned(),
                    settings: None,
                    synced_at: None,
                    server_version: 0,
                    created_at: now,
                    updated_at: now,
                };
                self.users.push(row);
                proof {
                    let s1 = old(self)@;
                    let s2 = self@;
                    assert(s2.users =~= s1.users.push(
                        fresh_placeholder_user(
                            "current-user"@,
                            Some("local@localhost"@),
                            Some("local"@),
                            Some("Local User"@),
                            now,
                        ),
                    ));
                    assert(s2 =~= provision_user_model(
                        s1,
                        "current-user"@,
                        Some("local@localhost"@),
                        Some("local"@),
                        Some("Local User"@),
                        now,
                    ));
                    lemma_user_push(s1.users, s2.users[s1.users.len() as int]);
                    lemma_wf_after_users_change(s1, s2);
                }
            },
        }
    }

    /// Applies pulled identity fields: coalesce merge into the matching row,
    /// or insert a fresh remote-born row.
    pub fn sync_user(
        &mut self,
        user_id: &str,
        email: Option<&str>,
        username: Option<&str>,
        nickname: Option<&str>,
        avatar: Option<&str>,
        now: i64,
    )
        requires
            old(self)@.wf(),
        ensures
            final(self)@.wf(),
            final(self)@ == sync_user_model(
                old(self)@,
                user_id@,
                opt_str_view(email),
                opt_str_view(username),
                opt_str_view(nickname),
                opt_str_view(avatar),
                now,
            ),
            has_user_id(final(self)@.users, user_id@),
    {
        let ghost s1 = self@;
        let found = self.find_user_index(user_id);
        match found {
            Some(i) => {
                let row = self.users[i].clone();
                let new_email = coalesce_str_field(email, &row.email);
                let new_username = coalesce_str_field(username, &row.username);
                let new_nickname = coalesce_str_field(nickname, &row.nickname);
                let new_avatar = coalesce_str_field(avatar, &row.avatar);
                let updated = User {
                    email: new_email,
                    username: new_username,
                    nickname: new_nickname,
                    avatar: new_avatar,
                    updated_at: now,
                    ..row
                };
                self.users.set(i, updated);
                proof {
                    let s2 = self@;
                    let m = sync_user_model(
                        s1,
                        user_id@,
                        opt_str_view(email),
                        opt_str_view(username),
                        opt_str_view(nickname),
                        opt_str_view(avatar),
                        now,
                    );
                    assert(has_user_id(s1.users, user_id@));
                    assert forall|j: int| 0 <= j < s2.users.len() implies s2.users[j]
                        == m.users[j] by {
                        if j != i {
                            assert(s1.users[j].id != user_id@);
                        }
                    }
                    assert(s2.users =~= m.users);
                    assert(s2 =~= m);
                    lemma_user_rewrite_same_ids(s1.users, s2.users);
                    lemma_wf_after_users_change(s1, s2);
                }
            },
            None => {
                let row = User {
                    id: user_id.to_owned(),
                    email: coalesce_str_field(email, &None),
                    phone: None,
                    username: coalesce_str_field(username, &None),
                    nickname: coalesce_str_field(nickname, &None),
                    avatar: coalesce_str_field(avatar, &None),
                    status: 1,
                    is_superuser: false,
                    is_staff: false,
                    subscription_tier: "free".to_owned(),
                    settings: None,
                    synced_at: None,
                    server_version: 0,
                    created_at: now,
                    updated_at: now,
                };
                proof {
                    assert(row@ == fresh_remote_user(
                        user_id@,
                        opt_str_view(email),
                        opt_str_view(username),
                        opt_str_view(nickname),
                        opt_str_view(avatar),
                        now,
                    ));
                }
                self.users.push(row);
                proof {
                    let s2 = self@;
                    let m = sync_user_model(
                        s1,
                        user_id@,
                        opt_str_view(email),
                        opt_str_view(username),
                        opt_str_view(nickname),
                        opt_str_view(avatar),
                        now,
                    );
                    assert(s2.users =~= s1.users.push(
                        fresh_remote_user(
                            user_id@,
                            opt_str_view(email),
                            opt_str_view(username),
                            opt_str_view(nickname),
                            opt_str_view(avatar),
                            now,
                        ),
                    ));
                    assert(s2 =~= m);
                    lemma_user_push(s1.users, s2.users[s1.users.len() as int]);
                    lemma_wf_after_users_change(s1, s2);
                }
            },
        }
    }

    /// Full-row upsert of a user, keeping `created_at` of an existing row.
    pub fn save_user(&mut self, user: &User)
        requires
            old(self)@.wf(),
        ensures
            final(self)@.wf(),
            final(self)@ == save_user_model(old(self)@, user@),
    {
        let ghost s1 = self@;
        let found = self.find_user_index(user.id.as_str());
        match found {
            Some(i) => {
                let kept_created_at = self.users[i].created_at;
                let mut updated = user.clone();
                updated.created_at = kept_created_at;
                self.users.set(i, updated);
                proof {
                    let s2 = self@;
                    let m = save_user_model(s1, user@);
                    assert(has_user_id(s1.users, user@.id));
                    assert forall|j: int| 0 <= j < s2.users.len() implies s2.users[j]
                        == m.users[j] by {
                        if j != i {
                            assert(s1.users[j].id != user@.id);
                        }
                    }
                    assert(s2.users =~= m.users);
                    assert(s2 =~= m);
                    lemma_user_rewrite_same_ids(s1.users, s2.users);
                    lemma_wf_after_users_change(s1, s2);
                }
            },
            None => {
                self.users.push(user.clone());
                proof {
                    let s2 = self@;
                    assert(s2.users =~= s1.users.push(user@));
                    assert(s2 =~= save_user_model(s1, user@));
                    lemma_user_push(s1.users, user@);
                    lemma_wf_after_users_change(s1, s2);
                }
            },
        }
    }

    /// A run-time well-formedness check: a `true` answer proves the store
    /// invariants hold. Meant for rows adopted from outside the library, such
    /// as a loaded database, before the verified operations run on them.
    pub fn is_well_formed(&self) -> (r: bool)
        ensures
            r ==> self@.wf(),
    {
        // Unique ids, table by table.
        let mut i: usize = 0;
        while i < self.users.len()
            invariant
                i <= self.users.len(),
                forall|a: int, b: int|
                    0 <= a < b < i ==> (#[trigger] self@.users[a]).id != (
                    #[trigger] self@.users[b]).id,
            decreases self.users.len() - i,
        {
            let mut j: usize = 0;
            while j < i
                invariant
                    j <= i < self.users.len(),
                    forall|k: int|
                        0 <= k < j ==> (#[trigger] self@.users[k]).id != self@.users[i as int].id,
                decreases i - j,
            {
                if crate::status::str_eq(self.users[j].id.as_str(), self.users[i].id.as_str()) {
                    return false;
                }
                j = j + 1;
            }
            i = i + 1;
        }
        let mut i: usize = 0;
        while i < self.projects.len()
            invariant
                i <= self.projects.len(),
                forall|a: int, b: int|
                    0 <= a < b < i ==> (#[trigger] self@.projects[a]).id != (
                    #[trigger] self@.projects[b]).id,
            decreases self.projects.len() - i,
        {
            let mut j: usize = 0;
            while j < i
                invariant
                    j <= i < self.projects.len(),
                    forall|k: int|
                        0 <= k < j ==> (#[trigger] self@.projects[k]).id
                            != self@.projects[i as int].id,
                decreases i - j,
            {
                if crate::status::str_eq(
                    self.projects[j].id.as_str(),
                    self.projects[i].id.as_str(),
                ) {
                    return false;
                }
                j = j + 1;
            }
            i = i + 1;
        }
        let mut i: usize = 0;
        while i < self.accounts.len()
            invariant
                i <= self.accounts.len(),
                forall|a: int, b: int|
                    0 <= a < b < i ==> (#[trigger] self@.accounts[a]).id != (
                    #[trigger] self@.accounts[b]).id && account_key(self@.accounts[a])
                        != account_key(self@.accounts[b]),
            decreases self.accounts.len() - i,
        {
            let mut j: usize = 0;
            while j < i
                invariant
                    j <= i < self.accounts.len(),
                    forall|k: int|
                        0 <= k < j ==> (#[trigger] self@.accounts[k]).id
                            != self@.accounts[i as int].id && account_key(self@.accounts[k])
                            != account_key(self@.accounts[i as int]),
                decreases i - j,
            {
                if crate::status::str_eq(
                    self.accounts[j].id.as_str(),
                    self.accounts[i].id.as_str(),
                ) {
                    return false;
                }
                let same_key = crate::status::str_eq(
                    self.accounts[j].project_id.as_str(),
                    self.accounts[i].project_id.as_str(),
                ) && crate::status::str_eq(
                    self.accounts[j].platform.as_str(),
                    self.accounts[i].platform.as_str(),
                ) && crate::status::str_eq(
                    self.accounts[j].account_id.as_str(),
                    self.accounts[i].account_id.as_str(),
                );
                if same_key {
                    return false;
                }
                j = j + 1;
            }
            i = i + 1;
        }
        let mut i: usize = 0;
        while i < self.topics.len()
            invariant
                i <= self.topics.len(),
                forall|a: int, b: int|
                    0 <= a < b < i ==> (#[trigger] self@.topics[a]).id != (
                    #[trigger] self@.topics[b]).id,
            decreases self.topics.len() - i,
        {
            let mut j: usize = 0;
            while j < i
                invariant
                    j <= i < self.topics.len(),
                    forall|k: int|
                        0 <= k < j ==> (#[trigger] self@.topics[k]).id
                            != self@.topics[i as int].id,
                decreases i - j,
            {
                if crate::status::str_eq(self.topics[j].id.as_str(), self.topics[i].id.as_str()) {
                    return false;
                }
                j = j + 1;
            }
            i = i + 1;
        }
        let mut i: usize = 0;
        while i < self.contents.len()
            invariant
                i <= self.contents.len(),
                forall|a: int, b: int|
                    0 <= a < b < i ==> (#[trigger] self@.contents[a]).id != (
                    #[trigger] self@.contents[b]).id,
            decreases self.contents.len() - i,
        {
            let mut j: usize = 0;
            while j < i
                invariant
                    j <= i < self.contents.len(),
                    forall|k: int|
                        0 <= k < j ==> (#[trigger] self@.contents[k]).id
                            != self@.contents[i as int].id,
                decreases i - j,
            {
                if crate::status::str_eq(
                    self.contents[j].id.as_str(),
                    self.contents[i].id.as_str(),
                ) {
                    return false;
                }
                j = j + 1;
            }
            i = i + 1;
        }
        let mut i: usize = 0;
        while i < self.publications.len()
            invariant
                i <= self.publications.len(),
                forall|a: int, b: int|
                    0 <= a < b < i ==> (#[trigger] self@.publications[a]).id != (
                    #[trigger] self@.publications[b]).id,
            decreases self.publications.len() - i,
        {
            let mut j: usize = 0;
            while j < i
                invariant
                    j <= i < self.publications.len(),
                    forall|k: int|
                        0 <= k < j ==> (#[trigger] self@.publications[k]).id
                            != self@.publications[i as int].id,
                decreases i - j,
            {
                if crate::status::str_eq(
                    self.publications[j].id.as_str(),
                    self.publications[i].id.as_str(),
                ) {
                    return false;
                }
                j = j + 1;
            }
            i = i + 1;
        }
        // Parent references, table by table.
        let mut i: usize = 0;
        while i < self.projects.len()
            invariant
                i <= self.projects.len(),
                forall|k: int|
                    0 <= k < i ==> has_user_id(
                        self@.users,
                        (#[trigger] self@.projects[k]).user_id,
                    ),
            decreases self.projects.len() - i,
        {
            if self.find_user_index(self.projects[i].user_id.as_str()).is_none() {
                return false;
            }
            i = i + 1;
        }
        let mut i: usize = 0;
        while i < self.accounts.len()
            invariant
                i <= self.accounts.len(),
                forall|k: int|
                    0 <= k < i ==> has_user_id(self@.users, (#[trigger] self@.accounts[k]).user_id)
                        && has_project_id(self@.projects, self@.accounts[k].project_id),
            decreases self.accounts.len() - i,
        {
            if self.find_user_index(self.accounts[i].user_id.as_str()).is_none() {
                return false;
            }
            if self.find_project_index(self.accounts[i].project_id.as_str()).is_none() {
                return false;
            }
            i = i + 1;
        }
        let mut i: usize = 0;
        while i < self.topics.len()
            invariant
                i <= self.topics.len(),
                forall|k: int|
                    0 <= k < i ==> has_user_id(self@.users, (#[trigger] self@.topics[k]).user_id)
                        && has_project_id(self@.projects, self@.topics[k].project_id),
            decreases self.topics.len() - i,
        {
            if self.find_user_index(self.topics[i].user_id.as_str()).is_none() {
                return false;
            }
            if self.find_project_index(self.topics[i].project_id.as_str()).is_none() {
                return false;
            }
            i = i + 1;
        }
        let mut i: usize = 0;
        while i < self.contents.len()
            invariant
                i <= self.contents.len(),
                forall|k: int|
                    0 <= k < i ==> has_user_id(self@.users, (#[trigger] self@.contents[k]).user_id)
                        && has_project_id(self@.projects, self@.contents[k].project_id),
            decreases self.contents.len() - i,
        {
            if self.find_user_index(self.contents[i].user_id.as_str()).is_none() {
                return false;
            }
            if self.find_project_index(self.contents[i].project_id.as_str()).is_none() {
                return false;
            }
            i = i + 1;
        }
        let mut i: usize = 0;
        while i < self.publications.len()
            invariant
                i <= self.publications.len(),
                forall|k: int|
                    0 <= k < i ==> has_user_id(
                        self@.users,
                        (#[trigger] self@.publications[k]).user_id,
                    ) && has_content_id(self@.contents, self@.publications[k].content_id),
            decreases self.publications.len() - i,
        {
            if self.find_user_index(self.publications[i].user_id.as_str()).is_none() {
                return false;
            }
            if self.find_content_index(self.publications[i].content_id.as_str()).is_none() {
                return false;
            }
            i = i + 1;
        }
        true
    }

    /// The current user: the first user row, if any.
    pub fn get_user(&self) -> (r: Option<User>)
        ensures
            match r {
                Some(u) => self@.users.len() > 0 && u@ == self@.users[0],
                None => self@.users.len() == 0,
            },
    {
        if self.users.len() > 0 {
            Some(self.users[0].clone())
        } else {
            None
        }
    }
}

} // verus!
