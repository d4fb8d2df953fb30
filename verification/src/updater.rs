//! The pending-update cell of the auto-update flow: an exclusive-access
//! cell with take-once semantics.  The surrounding download-and-install
//! machinery lives outside the engine; only the decision of whether an
//! update is pending, and its metadata, are held here.

use vstd::prelude::*;

verus! {

/// Metadata of a fetched update, as shown to the user.
pub struct UpdateInfo {
    /// The version string of the pending update.
    pub version: String,
    /// Optional release notes.
    pub body: Option<String>,
}

impl Clone for UpdateInfo {
    fn clone(&self) -> (r: Self)
        ensures
            r == *self,
    {
        UpdateInfo {
            version: self.version.clone(),
            body: match &self.body {
                Some(b) => Some(b.clone()),
                None => None,
            },
        }
    }
}

/// What can go wrong when consuming the pending update.
#[derive(Clone, Copy, PartialEq, Eq, Structural, Debug)]
pub enum UpdateError {
    /// `take` was asked twice without a refresh, or never had an update.
    NoPendingUpdate,
}

impl UpdateError {
    /// The stable human-readable rendering of this error.
    pub fn message(&self) -> (r: String)
        ensures
            r@ == "There is no pending update"@,
    {
        "There is no pending update".to_owned()
    }
}

/// A cell holding at most one pending update.  Reading it clears it:
/// asking twice without a refresh fails.
pub struct PendingUpdate {
    /// The update waiting to be installed, if any.
    pub pending: Option<UpdateInfo>,
}

impl Default for PendingUpdate {
    /// An empty cell: no update is pending.
    fn default() -> (r: Self)
        ensures
            r.pending is None,
    {
        PendingUpdate { pending: None }
    }
}

impl PendingUpdate {
    /// Whether an update is waiting to be consumed.
    pub fn is_pending(&self) -> (r: bool)
        ensures
            r == (self.pending is Some),
    {
        match &self.pending {
            Some(_) => true,
            None => false,
        }
    }

    /// Stores a freshly fetched update, replacing any earlier one.
    pub fn put(&mut self, info: UpdateInfo)
        ensures
            final(self).pending == Some(info),
    {
        self.pending = Some(info);
    }

    /// Takes the pending update out, clearing the cell: the update can be
    /// consumed exactly once per refresh.
    pub fn take(&mut self) -> (r: Option<UpdateInfo>)
        ensures
            r == old(self).pending,
            final(self).pending is None,
    {
        let mut r: Option<UpdateInfo> = None;
        core::mem::swap(&mut r, &mut self.pending);
        r
    }

    /// The install decision: hands the pending update out for
    /// installation, or reports that none is pending.
    pub fn take_for_install(&mut self) -> (r: Result<UpdateInfo, UpdateError>)
        ensures
            final(self).pending is None,
            old(self).pending matches Some(u) ==> r == Ok::<UpdateInfo, UpdateError>(u),
            old(self).pending is None ==> r == Err::<UpdateInfo, UpdateError>(
                UpdateError::NoPendingUpdate,
            ),
    {
        match self.take() {
            Some(u) => Ok(u),
            None => Err(UpdateError::NoPendingUpdate),
        }
    }
}

} // verus!
