//! The registry of user names, bounded in size.

use vstd::prelude::*;

use crate::strmap::StrMap;
use crate::text::{chars_of, parse_usize, parse_usize_spec};

verus! {

/// How many users the registry holds unless configured otherwise.
pub const DEFAULT_MAX_USERS: usize = 10_000;

/// The display names of the users seen so far, keyed by user id.
pub struct UserRegistry {
    names: StrMap<String>,
    max_users: usize,
}

impl UserRegistry {
    pub closed spec fn view(&self) -> Map<Seq<char>, Seq<char>> {
        self.names.view().map_values(|n: String| n@)
    }

    pub closed spec fn capacity(&self) -> nat {
        self.max_users as nat
    }

    /// Well-formed: never more users than the capacity.
    pub closed spec fn wf(&self) -> bool {
        &&& self.names.wf()
        &&& self.names.view().dom().finite()
        &&& self.names.view().dom().len() <= self.max_users
    }

    /// An empty registry for at most `max_users` users.
    pub fn new(max_users: usize) -> (r: Self)
        ensures
            r.wf(),
            r.view() == Map::<Seq<char>, Seq<char>>::empty(),
            r.capacity() == max_users,
    {
        let r = UserRegistry { names: StrMap::new(), max_users };
        assert(r.view() =~= Map::<Seq<char>, Seq<char>>::empty());
        r
    }

    /// The name of the user with id `id`.
    pub fn get_username(&self, id: &String) -> (r: Option<String>)
        requires
            self.wf(),
        ensures
            r is Some <==> self.view().contains_key(id@),
            r matches Some(n) ==> n@ == self.view()[id@],
    {
        match self.names.get(id) {
            Some(n) => Some(n.clone()),
            None => None,
        }
    }

    /// Records the name of a user. A known user may always be renamed; a new
    /// user is refused (and nothing changes) once the registry is full.
    pub fn add_username(&mut self, id: String, username: String) -> (r: bool)
        requires
            old(self).wf(),
        ensures
            add_outcome(*old(self), *final(self), id@, username@, r),
    {
        let known = self.names.contains_key(&id);
        let count = self.names.len();
        assert(self.view().dom() =~= self.names.view().dom());
        if !known && count >= self.max_users {
            return false;
        }
        let ghost k = id@;
        let ghost v = username@;
        self.names.insert(id, username);
        proof {
            if known {
                assert(self.names.view().dom() =~= old(self).names.view().dom());
            }
        }
        assert(self.view() =~= old(self).view().insert(k, v));
        true
    }
}

/// What `add_username` promises, for a call that recorded `name` for `id`
/// (`accepted`) or refused it.
pub open spec fn add_outcome(
    before: UserRegistry,
    after: UserRegistry,
    id: Seq<char>,
    name: Seq<char>,
    accepted: bool,
) -> bool {
    &&& after.wf()
    &&& after.capacity() == before.capacity()
    &&& accepted == (before.view().contains_key(id) || before.view().dom().len() < before.capacity())
    &&& accepted ==> after.view() == before.view().insert(id, name)
    &&& !accepted ==> after.view() == before.view()
}

/// A known user can always be renamed, the name recorded is the name read
/// back, and the registry never holds more users than its capacity.
pub proof fn recorded_name_is_read_back(
    before: UserRegistry,
    after: UserRegistry,
    id: Seq<char>,
    name: Seq<char>,
    accepted: bool,
)
    requires
        before.wf(),
        add_outcome(before, after, id, name, accepted),
    ensures
        before.view().contains_key(id) ==> accepted,
        accepted ==> after.view().contains_key(id) && after.view()[id] == name,
        after.view().dom().len() <= after.capacity(),
{
    assert(after.view().dom() =~= after.names.view().dom());
}

/// A capacity read from the environment: a positive decimal number, or the
/// default when the value is missing or not such a number.
pub fn configured_limit(value: Option<&str>, default: usize) -> (r: usize)
    ensures
        value is None ==> r == default,
        value matches Some(v) ==> match parse_usize_spec(v@) {
            Some(n) => if n > 0 {
                r == n
            } else {
                r == default
            },
            None => r == default,
        },
{
    match value {
        None => default,
        Some(v) => {
            let cs = chars_of(v);
            assert(cs@.subrange(0, cs@.len() as int) =~= cs@);
            match parse_usize(&cs, 0, cs.len()) {
                Some(n) => {
                    if n > 0 {
                        n
                    } else {
                        default
                    }
                },
                None => default,
            }
        },
    }
}

} // verus!
