//! The connection state of the Neovim client.

use std::rc::Rc;

use vstd::prelude::*;

use super::api_info::NeovimApiInfo;
use crate::shared::rc_clone;

verus! {

/// How far the connection to Neovim has come.
#[derive(Clone, Copy, PartialEq, Eq, Structural, Debug)]
pub enum NeovimClientStatus {
    Uninitialized,
    InitInProgress,
    Initialized,
    Error,
}

/// The client: its status, what Neovim reported about itself once initialized, and the
/// session handle `S` used to talk to it.
pub struct NeovimClient<S> {
    status: NeovimClientStatus,
    api_info: Option<Rc<NeovimApiInfo>>,
    nvim: Option<S>,
}

impl<S> NeovimClient<S> {
    pub closed spec fn status(&self) -> NeovimClientStatus {
        self.status
    }

    pub closed spec fn info(&self) -> Option<Rc<NeovimApiInfo>> {
        self.api_info
    }

    pub closed spec fn session(&self) -> Option<S> {
        self.nvim
    }

    pub fn new() -> (r: Self)
        ensures
            r.status() == NeovimClientStatus::Uninitialized,
            r.status() == status_after(Seq::empty()),
            r.info() is None,
            r.session() is None,
    {
        NeovimClient { status: NeovimClientStatus::Uninitialized, api_info: None, nvim: None }
    }

    /// Drops the session.
    pub fn clear(&mut self)
        ensures
            final(self).session() is None,
            final(self).status() == client_step(old(self).status(), ClientCall::ClearSession),
            final(self).status() == old(self).status(),
            final(self).info() == old(self).info(),
    {
        self.nvim = None;
    }

    pub fn set(&mut self, nvim: S)
        ensures
            final(self).session() == Some(nvim),
            final(self).status() == client_step(old(self).status(), ClientCall::SetSession),
            final(self).status() == old(self).status(),
            final(self).info() == old(self).info(),
    {
        self.nvim = Some(nvim);
    }

    pub fn api_info(&self) -> (r: Option<Rc<NeovimApiInfo>>)
        ensures
            r == self.info(),
    {
        match &self.api_info {
            Some(info) => Some(rc_clone(info)),
            None => None,
        }
    }

    pub fn set_initialized(&mut self, api_info: NeovimApiInfo)
        ensures
            final(self).status() == NeovimClientStatus::Initialized,
            final(self).status() == client_step(old(self).status(), ClientCall::SetInitialized),
            final(self).info() == Some(Rc::new(api_info)),
            final(self).session() == old(self).session(),
    {
        self.status = NeovimClientStatus::Initialized;
        self.api_info = Some(Rc::new(api_info));
    }

    pub fn set_error(&mut self)
        ensures
            final(self).status() == NeovimClientStatus::Error,
            final(self).status() == client_step(old(self).status(), ClientCall::SetError),
            final(self).info() == old(self).info(),
            final(self).session() == old(self).session(),
    {
        self.status = NeovimClientStatus::Error;
    }

    pub fn set_in_progress(&mut self)
        ensures
            final(self).status() == NeovimClientStatus::InitInProgress,
            final(self).status() == client_step(old(self).status(), ClientCall::SetInProgress),
            final(self).info() == old(self).info(),
            final(self).session() == old(self).session(),
    {
        self.status = NeovimClientStatus::InitInProgress;
    }

    pub fn is_initialized(&self) -> (r: bool)
        ensures
            r == (self.status() == NeovimClientStatus::Initialized),
    {
        self.status == NeovimClientStatus::Initialized
    }

    pub fn is_uninitialized(&self) -> (r: bool)
        ensures
            r == (self.status() == NeovimClientStatus::Uninitialized),
    {
        self.status == NeovimClientStatus::Uninitialized
    }

    pub fn is_initializing(&self) -> (r: bool)
        ensures
            r == (self.status() == NeovimClientStatus::InitInProgress),
    {
        self.status == NeovimClientStatus::InitInProgress
    }
}

impl<S: Clone> NeovimClient<S> {
    /// A clone of the session handle.
    pub fn nvim(&self) -> (r: Option<S>)
        ensures
            r.is_some() == self.session().is_some(),
            r matches Some(s) ==> cloned::<S>(self.session().unwrap(), s),
    {
        match &self.nvim {
            Some(s) => Some(s.clone()),
            None => None,
        }
    }
}


/// The calls that can be made on a client, by the method they call.
#[derive(Clone, Copy, PartialEq, Eq, Structural, Debug)]
pub enum ClientCall {
    ClearSession,
    SetSession,
    ApiInfo,
    Nvim,
    SetInitialized,
    SetError,
    SetInProgress,
}

/// The status after a call from status `s`: the three status setters set it, every other
/// call keeps it.
pub open spec fn client_step(s: NeovimClientStatus, call: ClientCall) -> NeovimClientStatus {
    match call {
        ClientCall::SetInitialized => NeovimClientStatus::Initialized,
        ClientCall::SetError => NeovimClientStatus::Error,
        ClientCall::SetInProgress => NeovimClientStatus::InitInProgress,
        _ => s,
    }
}

/// Whether a call sets the status.
pub open spec fn sets_status(call: ClientCall) -> bool {
    call == ClientCall::SetInitialized || call == ClientCall::SetError || call == ClientCall::SetInProgress
}

/// The status of a new client after `calls`, in order.
pub open spec fn status_after(calls: Seq<ClientCall>) -> NeovimClientStatus
    decreases calls.len(),
{
    if calls.len() == 0 {
        NeovimClientStatus::Uninitialized
    } else {
        client_step(status_after(calls.drop_last()), calls.last())
    }
}

/// The last status setter among `calls`, if any.
pub open spec fn last_setter(calls: Seq<ClientCall>) -> Option<ClientCall>
    decreases calls.len(),
{
    if calls.len() == 0 {
        None
    } else if sets_status(calls.last()) {
        Some(calls.last())
    } else {
        last_setter(calls.drop_last())
    }
}

proof fn lemma_status_after(calls: Seq<ClientCall>)
    ensures
        status_after(calls) == match last_setter(calls) {
            None => NeovimClientStatus::Uninitialized,
            Some(c) => client_step(NeovimClientStatus::Uninitialized, c),
        },
        last_setter(calls) is None == (forall|i: int| 0 <= i < calls.len() ==> !sets_status(#[trigger] calls[i])),
        last_setter(calls) matches Some(c) ==> sets_status(c),
    decreases calls.len(),
{
    if calls.len() > 0 {
        let front = calls.drop_last();
        let n = calls.len() - 1;
        lemma_status_after(front);
        if sets_status(calls.last()) {
            assert(sets_status(calls[n]));
        } else {
            if forall|i: int| 0 <= i < front.len() ==> !sets_status(#[trigger] front[i]) {
                assert forall|i: int| 0 <= i < calls.len() implies !sets_status(#[trigger] calls[i]) by {
                    if i < n {
                        assert(calls[i] == front[i]);
                    }
                }
            }
            if forall|i: int| 0 <= i < calls.len() ==> !sets_status(#[trigger] calls[i]) {
                assert forall|i: int| 0 <= i < front.len() implies !sets_status(#[trigger] front[i]) by {
                    assert(calls[i] == front[i]);
                }
            }
        }
    }
}

/// A client's status follows the calls made on it since `new`: it is uninitialized exactly
/// when none of `set_initialized`, `set_error` and `set_in_progress` was called, and otherwise
/// initialized, initializing or failed as the last of them says; `set`, `clear`, `api_info` and
/// `nvim` never change it. So at most one of `is_initialized`, `is_uninitialized` and
/// `is_initializing` holds. `statuses` are the statuses before and after each call, as the
/// methods' contracts give them.
pub proof fn law_client_status_follows_last_setter(statuses: Seq<NeovimClientStatus>, calls: Seq<ClientCall>)
    requires
        statuses.len() == calls.len() + 1,
        statuses[0] == NeovimClientStatus::Uninitialized,
        forall|j: int| 0 <= j < calls.len() ==> statuses[j + 1] == client_step(statuses[j], #[trigger] calls[j]),
    ensures
        statuses.last() == status_after(calls),
        (statuses.last() == NeovimClientStatus::Uninitialized) == (forall|i: int|
            0 <= i < calls.len() ==> !sets_status(#[trigger] calls[i])),
        (statuses.last() == NeovimClientStatus::Initialized) == (last_setter(calls) == Some(ClientCall::SetInitialized)),
        (statuses.last() == NeovimClientStatus::InitInProgress) == (last_setter(calls) == Some(ClientCall::SetInProgress)),
        (statuses.last() == NeovimClientStatus::Error) == (last_setter(calls) == Some(ClientCall::SetError)),
        forall|j: int| 0 <= j < calls.len() && !sets_status(#[trigger] calls[j]) ==> statuses[j + 1] == statuses[j],
{
    lemma_status_after(calls);
    lemma_statuses_follow(statuses, calls);
}

proof fn lemma_statuses_follow(statuses: Seq<NeovimClientStatus>, calls: Seq<ClientCall>)
    requires
        statuses.len() == calls.len() + 1,
        statuses[0] == NeovimClientStatus::Uninitialized,
        forall|j: int| 0 <= j < calls.len() ==> statuses[j + 1] == client_step(statuses[j], #[trigger] calls[j]),
    ensures
        statuses.last() == status_after(calls),
    decreases calls.len(),
{
    if calls.len() > 0 {
        let n = calls.len() - 1;
        let front = statuses.drop_last();
        let cf = calls.drop_last();
        assert forall|j: int| 0 <= j < cf.len() implies front[j + 1] == client_step(front[j], #[trigger] cf[j]) by {
            assert(cf[j] == calls[j]);
            assert(statuses[j + 1] == client_step(statuses[j], calls[j]));
        }
        lemma_statuses_follow(front, cf);
        assert(statuses[n + 1] == client_step(statuses[n], calls[n]));
    }
}

} // verus!
