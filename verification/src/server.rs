//! The limit on the connections that the login server serves at once.

use crate::protocol::Options;
use vstd::prelude::*;

verus! {

/// The number of connections served at once where nothing else is configured.
pub const DEFAULT_MAX_CONCURRENT_USERS: u32 = 1000;

/// The options of a server that shuffles the PIN grid or not, with the
/// default limit of connections.
pub fn to_options(pin_grid_randomize: bool) -> (r: Options)
    ensures
        r == (Options {
            randomize_pin_grid: pin_grid_randomize,
            max_concurrent_users: DEFAULT_MAX_CONCURRENT_USERS,
        }),
{
    Options { randomize_pin_grid: pin_grid_randomize, max_concurrent_users: DEFAULT_MAX_CONCURRENT_USERS }
}

/// The count of the connections that are being served.
pub struct Connections {
    live: u64,
    max_concurrent_users: u32,
}

impl Connections {
    /// The connections served at once never exceed the limit by more than one.
    #[verifier::type_invariant]
    spec fn within_limit(&self) -> bool {
        self.live <= self.max_concurrent_users + 1
    }

    /// The number of connections that are being served.
    pub closed spec fn spec_live(&self) -> nat {
        self.live as nat
    }

    /// The configured limit.
    pub closed spec fn spec_limit(&self) -> nat {
        self.max_concurrent_users as nat
    }

    /// No connection is served yet.
    pub fn new(options: &Options) -> (r: Self)
        ensures
            r.spec_live() == 0,
            r.spec_limit() == options.max_concurrent_users,
    {
        Connections { live: 0, max_concurrent_users: options.max_concurrent_users }
    }

    /// The number of connections that are being served.
    pub fn live(&self) -> (r: u64)
        ensures
            r == self.spec_live(),
            r <= self.spec_limit() + 1,
    {
        proof {
            use_type_invariant(self);
        }
        self.live
    }

    /// A connection has been accepted. It is served, and counted, unless the
    /// count already exceeds the limit; then it is to be closed at once.
    pub fn try_accept(&mut self) -> (r: bool)
        ensures
            final(self).spec_limit() == old(self).spec_limit(),
            r == (old(self).spec_live() <= old(self).spec_limit()),
            final(self).spec_live() == if r {
                old(self).spec_live() + 1
            } else {
                old(self).spec_live()
            },
            final(self).spec_live() <= final(self).spec_limit() + 1,
    {
        proof {
            use_type_invariant(&*self);
        }
        if self.live > self.max_concurrent_users as u64 {
            false
        } else {
            self.live = self.live + 1;
            true
        }
    }

    /// The task of a served connection has ended.
    pub fn release(&mut self)
        ensures
            final(self).spec_limit() == old(self).spec_limit(),
            final(self).spec_live() == if old(self).spec_live() > 0 {
                old(self).spec_live() - 1
            } else {
                0
            },
            final(self).spec_live() <= final(self).spec_limit() + 1,
    {
        proof {
            use_type_invariant(&*self);
        }
        if self.live > 0 {
            self.live = self.live - 1;
        }
    }
}

} // verus!
