//! A value that is refreshed at most once per update round.
use vstd::prelude::*;

verus! {

/// A value that can refresh itself from its source.
pub trait Updatable {
    /// Refreshes the value.
    fn update(&mut self);
}

/// Wraps an [`Updatable`] value so that several requests for the same update
/// round refresh it only once. A round is named by a token.
pub struct UpdateOnce<T: Updatable> {
    inner: T,
    latest_update: Option<u128>,
    refreshes: Ghost<nat>,
}

impl<T: Updatable> UpdateOnce<T> {
    /// The wrapped value.
    pub closed spec fn value(&self) -> T {
        self.inner
    }

    /// How many times the value has been refreshed.
    pub closed spec fn refresh_count(&self) -> nat {
        self.refreshes@
    }

    /// The token of the latest round in which the value was refreshed.
    pub closed spec fn latest(&self) -> Option<u128> {
        self.latest_update
    }

    /// Wraps `inner`, which has not been refreshed in any round yet.
    pub fn new(inner: T) -> (r: Self)
        ensures
            r.value() == inner,
            r.latest() == None::<u128>,
            r.refresh_count() == 0,
    {
        UpdateOnce { inner, latest_update: None, refreshes: Ghost(0) }
    }

    /// Refreshes the value (once, with [`Updatable::update`]) unless the
    /// latest refresh was that of round `token`; afterwards the latest round
    /// is `token`. Only the latest token is remembered, so a round that comes
    /// back after another one refreshes the value again.
    pub fn update(&mut self, token: u128)
        ensures
            final(self).latest() == Some(token),
            old(self).latest() != Some(token) ==> final(self).refresh_count() == old(self).refresh_count() + 1,
            old(self).latest() == Some(token) ==> {
                &&& final(self).value() == old(self).value()
                &&& final(self).refresh_count() == old(self).refresh_count()
            },
    {
        let refreshed = match self.latest_update {
            Some(t) => t == token,
            None => false,
        };
        if !refreshed {
            self.inner.update();
            self.latest_update = Some(token);
            self.refreshes = Ghost(self.refreshes@ + 1);
        }
    }

    /// The wrapped value.
    pub fn borrow(&self) -> (r: &T)
        ensures
            *r == self.value(),
    {
        &self.inner
    }
}

} // verus!
