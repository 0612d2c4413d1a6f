//! The store of the sessions that completed logons have established, by
//! account name: what the login connections and the broker ask of one, and
//! the store that comes with the library.

use crate::srp::{clone_server, session_key, srp_session_key};
use vstd::prelude::*;
use wow_srp::server::SrpServer;

verus! {

/// Whether two names are the same text, compared byte by byte.
fn same_name(a: &str, b: &str) -> (r: bool)
    ensures
        r == (a@ == b@),
{
    broadcast use vstd::utf8::encode_utf8_decode_utf8;

    let x = a.as_bytes();
    let y = b.as_bytes();
    assert(vstd::utf8::decode_utf8(x@) == a@);
    assert(vstd::utf8::decode_utf8(y@) == b@);
    if x.len() != y.len() {
        return false;
    }
    let mut i: usize = 0;
    while i < x.len()
        invariant
            i <= x@.len(),
            x@.len() == y@.len(),
            forall|j: int| 0 <= j < i ==> x@[j] == y@[j],
            vstd::utf8::decode_utf8(x@) == a@,
            vstd::utf8::decode_utf8(y@) == b@,
            x@ == vstd::utf8::encode_utf8(a@),
            y@ == vstd::utf8::encode_utf8(b@),
        decreases x@.len() - i,
    {
        if x[i] != y[i] {
            return false;
        }
        i += 1;
    }
    assert(x@ =~= y@);
    true
}

/// A store of sessions by account name. The login connections write to it
/// and the broker reads from it; what is proved of them holds for every store
/// that keeps to the contracts of these methods.
pub trait KeyStorage {
    /// The sessions in the store, by account name.
    spec fn sessions(&self) -> Map<Seq<char>, SrpServer>;

    /// Stores `server` under `username`, in place of what was stored there.
    fn add_key(&mut self, username: String, server: SrpServer)
        ensures
            final(self).sessions() == old(self).sessions().insert(username@, server),
    ;

    /// A copy of the session stored under `username`, if there is one. The
    /// sessions stay as they are.
    fn get_key_for_user(&mut self, username: &str) -> (r: Option<SrpServer>)
        ensures
            final(self).sessions() == old(self).sessions(),
            r == if old(self).sessions().dom().contains(username@) {
                Some(old(self).sessions()[username@])
            } else {
                None
            },
    ;
}

#[derive(Debug)]
struct Entry {
    username: String,
    server: SrpServer,
}

/// A mapping from account name to the session of its last completed logon.
#[derive(Debug)]
pub struct KeyImpl {
    entries: Vec<Entry>,
}

impl View for KeyImpl {
    type V = Map<Seq<char>, SrpServer>;

    closed spec fn view(&self) -> Map<Seq<char>, SrpServer> {
        Map::new(
            |name: Seq<char>| exists|i: int| 0 <= i < self.entries@.len() && #[trigger] self.entries@[i].username@ == name,
            |name: Seq<char>| self.entries@[self.index_of(name)].server,
        )
    }
}

impl KeyImpl {
    /// No account name occurs twice.
    #[verifier::type_invariant]
    spec fn well_formed(&self) -> bool {
        forall|i: int, j: int|
            0 <= i < j < self.entries@.len() ==> #[trigger] self.entries@[i].username@
                != #[trigger] self.entries@[j].username@
    }

    /// The place of `name` among the entries, if it has one.
    spec fn index_of(&self, name: Seq<char>) -> int {
        choose|i: int| 0 <= i < self.entries@.len() && #[trigger] self.entries@[i].username@ == name
    }

    /// An empty store.
    pub fn new() -> (r: Self)
        ensures
            r@ == Map::<Seq<char>, SrpServer>::empty(),
    {
        let r = KeyImpl { entries: Vec::new() };
        assert(r@ =~= Map::<Seq<char>, SrpServer>::empty());
        r
    }

    /// Where `username` is stored, if it is.
    fn find(&self, username: &str) -> (r: Option<usize>)
        ensures
            match r {
                Some(i) => i < self.entries@.len() && self.entries@[i as int].username@
                    == username@ && self@.dom().contains(username@) && self@[username@]
                    == self.entries@[i as int].server,
                None => !self@.dom().contains(username@),
            },
    {
        proof {
            use_type_invariant(self);
        }
        let mut i: usize = 0;
        while i < self.entries.len()
            invariant
                i <= self.entries@.len(),
                self.well_formed(),
                forall|j: int| 0 <= j < i ==> self.entries@[j].username@ != username@,
            decreases self.entries@.len() - i,
        {
            if same_name(self.entries[i].username.as_str(), username) {
                proof {
                    let k = self.index_of(username@);
                    assert(self.entries@[i as int].username@ == username@);
                    assert(k == i) by {
                        if k < i {
                            assert(self.entries@[k].username@ != self.entries@[i as int].username@);
                        } else if i < k {
                            assert(self.entries@[i as int].username@ != self.entries@[k].username@);
                        }
                    }
                }
                return Some(i);
            }
            i += 1;
        }
        None
    }

    /// Stores `server` under `username`, in place of what was stored there.
    pub fn add_key(&mut self, username: String, server: SrpServer)
        ensures
            final(self)@ == old(self)@.insert(username@, server),
    {
        let found = self.find(username.as_str());
        proof {
            use_type_invariant(&*self);
        }
        let ghost before = self.entries@;
        let mut entries: Vec<Entry> = Vec::new();
        core::mem::swap(&mut self.entries, &mut entries);
        match found {
            Some(i) => {
                entries.set(i, Entry { username, server });
            },
            None => {
                entries.push(Entry { username, server });
            },
        }
        proof {
            assert forall|i: int, j: int| 0 <= i < j < entries@.len() implies #[trigger] entries@[i].username@
                != #[trigger] entries@[j].username@ by {
                if i < before.len() && j < before.len() {
                    assert(before[i].username@ != before[j].username@);
                }
            }
        }
        self.entries = entries;
        proof {
            let after = self.entries@;
            let now = self@;
            let wanted = old(self)@.insert(username@, server);
            let at = match found {
                Some(i) => i as int,
                None => before.len() as int,
            };
            assert(after[at].username@ == username@);
            assert forall|name: Seq<char>| #[trigger] now.dom().contains(name) <==> wanted.dom().contains(name) by {
                if now.dom().contains(name) {
                    let k = choose|k: int| 0 <= k < after.len() && #[trigger] after[k].username@ == name;
                    if name != username@ {
                        assert(before[k].username@ == name);
                    }
                }
                if old(self)@.dom().contains(name) && name != username@ {
                    let k = choose|k: int| 0 <= k < before.len() && #[trigger] before[k].username@ == name;
                    assert(after[k].username@ == name);
                }
            }
            assert forall|name: Seq<char>| #[trigger] now.dom().contains(name) implies now[name] == wanted[name] by {
                let k = self.index_of(name);
                if name == username@ {
                    if k < at {
                        assert(after[k].username@ != after[at].username@);
                    } else if at < k {
                        assert(after[at].username@ != after[k].username@);
                    }
                } else {
                    assert(before[k].username@ == name);
                    let b = old(self).index_of(name);
                    if k < b {
                        assert(before[k].username@ != before[b].username@);
                    } else if b < k {
                        assert(before[b].username@ != before[k].username@);
                    }
                }
            }
            assert(now =~= wanted);
        }
    }

    /// A copy of the session stored under `username`, if there is one.
    pub fn get_key_for_user(&self, username: &str) -> (r: Option<SrpServer>)
        ensures
            r == if self@.dom().contains(username@) {
                Some(self@[username@])
            } else {
                None
            },
    {
        match self.find(username) {
            Some(i) => Some(clone_server(&self.entries[i].server)),
            None => None,
        }
    }

    /// The session key stored under `username`, if there is one.
    pub fn session_key_for_user(&self, username: &str) -> (r: Option<[u8; 40]>)
        ensures
            match r {
                Some(key) => self@.dom().contains(username@) && key@ == srp_session_key(
                    self@[username@],
                ),
                None => !self@.dom().contains(username@),
            },
    {
        match self.find(username) {
            Some(i) => Some(session_key(&self.entries[i].server)),
            None => None,
        }
    }
}

impl KeyStorage for KeyImpl {
    open spec fn sessions(&self) -> Map<Seq<char>, SrpServer> {
        self@
    }

    fn add_key(&mut self, username: String, server: SrpServer) {
        KeyImpl::add_key(self, username, server)
    }

    fn get_key_for_user(&mut self, username: &str) -> (r: Option<SrpServer>) {
        KeyImpl::get_key_for_user(&*self, username)
    }
}

} // verus!
