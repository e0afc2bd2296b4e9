//! The sync engine: one reconciliation pass runs every registered provider in
//! registration order, pull then push, recording errors without aborting the
//! pass, under a single-flight guard.

use vstd::prelude::*;
use vstd::string::StringExecFns;

use crate::errors::{sync_error_text, SyncError};
use crate::model::clone_opt_string;
use crate::providers::{
    lemma_pass_reachable_extend, pass_reachable, pass_step, provider_name, pull_step_effect,
    push_step_effect, AccountProvider, ProjectProvider, ProjectTopicProvider, ProviderKind,
    SyncProvider, UserProvider,
};
use crate::remote::RemoteService;
use crate::store::Repository;

verus! {

/// Pass-level status, safe to hand out while a pass is in flight.
#[derive(Debug)]
pub struct SyncStatus {
    pub is_syncing: bool,
    pub last_sync_time: Option<i64>,
    pub last_error: Option<String>,
}

pub ghost struct SyncStatusModel {
    pub is_syncing: bool,
    pub last_sync_time: Option<i64>,
    pub last_error: Option<Seq<char>>,
}

impl View for SyncStatus {
    type V = SyncStatusModel;

    open spec fn view(&self) -> SyncStatusModel {
        SyncStatusModel {
            is_syncing: self.is_syncing,
            last_sync_time: self.last_sync_time,
            last_error: self.last_error.deep_view(),
        }
    }
}

impl Clone for SyncStatus {
    fn clone(&self) -> (r: SyncStatus)
        ensures
            r == *self,
    {
        SyncStatus {
            is_syncing: self.is_syncing,
            last_sync_time: self.last_sync_time,
            last_error: clone_opt_string(&self.last_error),
        }
    }
}

pub ghost struct EngineModel {
    pub providers: Seq<ProviderKind>,
    pub status: SyncStatusModel,
}

/// The engine: an ordered provider registry and the pass-level status record.
pub struct SyncEngine {
    pub providers: Vec<ProviderKind>,
    pub status: SyncStatus,
}

impl View for SyncEngine {
    type V = EngineModel;

    open spec fn view(&self) -> EngineModel {
        EngineModel { providers: self.providers@, status: self.status@ }
    }
}

/// The message recorded when one provider phase fails.
pub open spec fn failure_text(phase: Seq<char>, kind: ProviderKind, e: SyncError) -> Seq<char> {
    phase + provider_name(kind) + ": "@ + sync_error_text(e)
}

fn compose_failure(phase: &str, kind: ProviderKind, e: &SyncError) -> (r: String)
    ensures
        r@ == failure_text(phase@, kind, *e),
{
    let mut msg = phase.to_owned();
    msg.append(kind.name());
    msg.append(": ");
    let d = e.describe();
    msg.append(d.as_str());
    msg
}

fn dispatch_pull<R: RemoteService>(
    kind: ProviderKind,
    remote: &mut R,
    repo: &mut Repository,
    user_id: &str,
    token: &str,
    now: i64,
) -> (r: Result<(), SyncError>)
    requires
        old(repo)@.wf(),
    ensures
        final(repo)@.wf(),
        pull_step_effect(kind, old(repo)@, final(repo)@, user_id@, now),
{
    match kind {
        ProviderKind::User => UserProvider.pull(remote, repo, user_id, token, now),
        ProviderKind::Project => ProjectProvider.pull(remote, repo, user_id, token, now),
        ProviderKind::PlatformAccount => AccountProvider.pull(remote, repo, user_id, token, now),
        ProviderKind::ProjectTopic => ProjectTopicProvider.pull(remote, repo, user_id, token, now),
    }
}

fn dispatch_push<R: RemoteService>(
    kind: ProviderKind,
    remote: &mut R,
    repo: &mut Repository,
    user_id: &str,
    token: &str,
    now: i64,
) -> (r: Result<(), SyncError>)
    requires
        old(repo)@.wf(),
    ensures
        final(repo)@.wf(),
        push_step_effect(kind, old(repo)@, final(repo)@, user_id@, now),
{
    match kind {
        ProviderKind::User => UserProvider.push(remote, repo, user_id, token, now),
        ProviderKind::Project => ProjectProvider.push(remote, repo, user_id, token, now),
        ProviderKind::PlatformAccount => AccountProvider.push(remote, repo, user_id, token, now),
        ProviderKind::ProjectTopic => ProjectTopicProvider.push(remote, repo, user_id, token, now),
    }
}

impl SyncEngine {
    /// A fresh engine: no providers, no pass run yet.
    pub fn new() -> (r: SyncEngine)
        ensures
            r@.providers == Seq::<ProviderKind>::empty(),
            r@.status == (SyncStatusModel {
                is_syncing: false,
                last_sync_time: None,
                last_error: None,
            }),
    {
        let r = SyncEngine {
            providers: Vec::new(),
            status: SyncStatus { is_syncing: false, last_sync_time: None, last_error: None },
        };
        proof {
            assert(r@.providers =~= Seq::<ProviderKind>::empty());
        }
        r
    }

    /// Appends a provider to the registry; registering a kind twice keeps the
    /// first registration (idempotent per type, order-sensitive).
    pub fn register_provider(&mut self, kind: ProviderKind)
        ensures
            final(self)@.status == old(self)@.status,
            final(self)@.providers == (if old(self)@.providers.contains(kind) {
                old(self)@.providers
            } else {
                old(self)@.providers.push(kind)
            }),
    {
        let n = self.providers.len();
        let mut i: usize = 0;
        while i < n
            invariant
                n == self.providers.len(),
                i <= n,
                forall|k: int| 0 <= k < i ==> self@.providers[k] != kind,
            decreases n - i,
        {
            if self.providers[i] == kind {
                proof {
                    assert(self@.providers.contains(kind));
                }
                return ;
            }
            i = i + 1;
        }
        proof {
            assert(!self@.providers.contains(kind));
        }
        self.providers.push(kind);
    }

    /// A snapshot of the pass-level status.
    pub fn get_status(&self) -> (r: SyncStatus)
        ensures
            r@ == self@.status,
    {
        self.status.clone()
    }

    /// The single-flight guard: claims the engine for a pass, or reports that
    /// one is already in flight. Claiming clears the recorded error.
    pub fn begin_pass(&mut self) -> (started: bool)
        ensures
            started == !old(self)@.status.is_syncing,
            final(self)@.providers == old(self)@.providers,
            started ==> final(self)@.status == (SyncStatusModel {
                is_syncing: true,
                last_sync_time: old(self)@.status.last_sync_time,
                last_error: None,
            }),
            !started ==> *final(self) == *old(self),
    {
        if self.status.is_syncing {
            false
        } else {
            self.status.is_syncing = true;
            self.status.last_error = None;
            true
        }
    }

    /// Ends a pass: releases the guard and records the outcome. A clean pass
    /// stamps the sync time; a failed one records the first error.
    pub fn finish_pass(&mut self, outcome: Option<String>, now: i64) -> (r: Result<(), String>)
        requires
            old(self)@.status.is_syncing,
        ensures
            final(self)@.providers == old(self)@.providers,
            !final(self)@.status.is_syncing,
            match outcome {
                None => final(self)@.status == (SyncStatusModel {
                    is_syncing: false,
                    last_sync_time: Some(now),
                    last_error: old(self)@.status.last_error,
                }) && r is Ok,
                Some(e) => final(self)@.status == (SyncStatusModel {
                    is_syncing: false,
                    last_sync_time: old(self)@.status.last_sync_time,
                    last_error: Some(e@),
                }) && r == Err::<(), String>(e),
            },
    {
        self.status.is_syncing = false;
        match outcome {
            None => {
                self.status.last_sync_time = Some(now);
                Ok(())
            },
            Some(e) => {
                self.status.last_error = Some(e.clone());
                Err(e)
            },
        }
    }

    /// One reconciliation pass at a given clock reading. If a pass is already
    /// in flight, nothing at all happens and the call reports success. A pass
    /// runs every provider in registration order, pull then push, never
    /// aborting on a provider error; the first error becomes the pass's
    /// outcome, and the engine is always left unlocked.
    pub fn start_sync_at<R: RemoteService>(
        &mut self,
        remote: &mut R,
        repo: &mut Repository,
        user_id: &str,
        token: &str,
        now: i64,
    ) -> (r: Result<(), String>)
        requires
            old(repo)@.wf(),
        ensures
            final(repo)@.wf(),
            final(self)@.providers == old(self)@.providers,
            old(self)@.status.is_syncing ==> r is Ok && *final(self) == *old(self) && *final(repo)
                == *old(repo) && *final(remote) == *old(remote),
            !old(self)@.status.is_syncing ==> {
                &&& !final(self)@.status.is_syncing
                &&& match r {
                    Ok(()) => final(self)@.status.last_sync_time == Some(now) && final(self)@.status.last_error is None,
                    Err(m) => final(self)@.status.last_error == Some(m@) && final(self)@.status.last_sync_time == old(self)@.status.last_sync_time,
                }
            },
            // The store moved only by provider pull/push steps of this pass.
            exists|steps: nat| pass_reachable(old(repo)@, final(repo)@, user_id@, now, steps),
            // A pass over an empty registry touches nothing.
            old(self)@.providers.len() == 0 && !old(self)@.status.is_syncing ==> r is Ok
                && *final(repo) == *old(repo) && *final(remote) == *old(remote),
            // A reported failure is one provider's recorded pull or push error.
            r is Err ==> exists|k: ProviderKind, e: SyncError|
                (r->Err_0)@ == failure_text("pull failed for "@, k, e) || (r->Err_0)@
                    == failure_text("push failed for "@, k, e),
    {
        if !self.begin_pass() {
            proof {
                assert(pass_reachable(old(repo)@, repo@, user_id@, now, 0nat));
            }
            return Ok(());
        }
        let ghost engine_after_begin = self@;
        let ghost s0r = repo@;
        let ghost repo0 = *repo;
        let ghost remote0 = *remote;
        let mut first_err: Option<String> = None;
        let n = self.providers.len();
        let mut i: usize = 0;
        proof {
            assert(pass_reachable(s0r, repo@, user_id@, now, 0nat));
        }
        while i < n
            invariant
                n == self.providers.len(),
                i <= n,
                repo@.wf(),
                self@ == engine_after_begin,
                s0r == old(repo)@,
                exists|steps: nat| pass_reachable(s0r, repo@, user_id@, now, steps),
                n == 0 ==> *repo == repo0 && *remote == remote0 && first_err is None,
                match first_err {
                    Some(m) => exists|k: ProviderKind, e: SyncError|
                        m@ == failure_text("pull failed for "@, k, e) || m@ == failure_text(
                            "push failed for "@,
                            k,
                            e,
                        ),
                    None => true,
                },
            decreases n - i,
        {
            let kind = self.providers[i];
            let ghost before_pull = repo@;
            let pull_result = dispatch_pull(kind, remote, repo, user_id, token, now);
            proof {
                let steps0 = choose|steps0: nat|
                    pass_reachable(s0r, before_pull, user_id@, now, steps0);
                assert(pass_step(before_pull, repo@, user_id@, now));
                lemma_pass_reachable_extend(s0r, before_pull, repo@, user_id@, now, steps0);
            }
            match pull_result {
                Ok(()) => {},
                Err(e) => {
                    if first_err.is_none() {
                        first_err = Some(compose_failure("pull failed for ", kind, &e));
                        proof {
                            assert(first_err->Some_0@ == failure_text(
                                "pull failed for "@,
                                kind,
                                e,
                            ));
                        }
                    }
                },
            }
            let ghost before_push = repo@;
            let push_result = dispatch_push(kind, remote, repo, user_id, token, now);
            proof {
                let steps0 = choose|steps0: nat|
                    pass_reachable(s0r, before_push, user_id@, now, steps0);
                assert(pass_step(before_push, repo@, user_id@, now));
                lemma_pass_reachable_extend(s0r, before_push, repo@, user_id@, now, steps0);
            }
            match push_result {
                Ok(()) => {},
                Err(e) => {
                    if first_err.is_none() {
                        first_err = Some(compose_failure("push failed for ", kind, &e));
                        proof {
                            assert(first_err->Some_0@ == failure_text(
                                "push failed for "@,
                                kind,
                                e,
                            ));
                        }
                    }
                },
            }
            i = i + 1;
        }
        self.finish_pass(first_err, now)
    }

    /// One reconciliation pass at the wall clock.
    pub fn start_sync<R: RemoteService>(
        &mut self,
        remote: &mut R,
        repo: &mut Repository,
        user_id: &str,
        token: &str,
    ) -> (r: Result<(), String>)
        requires
            old(repo)@.wf(),
        ensures
            final(repo)@.wf(),
            final(self)@.providers == old(self)@.providers,
            old(self)@.status.is_syncing ==> r is Ok && *final(self) == *old(self) && *final(repo)
                == *old(repo) && *final(remote) == *old(remote),
            !old(self)@.status.is_syncing ==> {
                &&& !final(self)@.status.is_syncing
                &&& match r {
                    Ok(()) => final(self)@.status.last_sync_time is Some && final(self)@.status.last_error is None,
                    Err(m) => final(self)@.status.last_error == Some(m@) && final(self)@.status.last_sync_time == old(self)@.status.last_sync_time,
                }
            },
            exists|t: i64, steps: nat| pass_reachable(old(repo)@, final(repo)@, user_id@, t, steps),
            old(self)@.providers.len() == 0 && !old(self)@.status.is_syncing ==> r is Ok
                && *final(repo) == *old(repo) && *final(remote) == *old(remote),
            r is Err ==> exists|k: ProviderKind, e: SyncError|
                (r->Err_0)@ == failure_text("pull failed for "@, k, e) || (r->Err_0)@
                    == failure_text("push failed for "@, k, e),
    {
        let now = crate::trusted::now_timestamp();
        let r = self.start_sync_at(remote, repo, user_id, token, now);
        proof {
            let steps = choose|steps: nat|
                pass_reachable(old(repo)@, repo@, user_id@, now, steps);
            assert(pass_reachable(old(repo)@, repo@, user_id@, now, steps));
        }
        r
    }
}

} // verus!
