use vstd::prelude::*;

use crate::models::{NewUser, User, UserView, clone_chars, clone_user};
use crate::text::{append_chars, chars_eq, dec_digits, push_decimal};

verus! {

/// Index of the first record at or after `i` whose name is `name`, or -1.
pub open spec fn first_name_match_from(users: Seq<UserView>, name: Seq<char>, i: int) -> int
    decreases users.len() - i when 0 <= i <= users.len()
{
    if i >= users.len() {
        -1
    } else if users[i].full_name == name {
        i
    } else {
        first_name_match_from(users, name, i + 1)
    }
}

/// Index of the first record whose name is `name`, or -1.  Lookup by name is
/// first-match: the directory does not enforce name uniqueness, and when two
/// records share a name the earliest one wins.
pub open spec fn first_name_match(users: Seq<UserView>, name: Seq<char>) -> int {
    first_name_match_from(users, name, 0)
}

/// Index of the first record at or after `i` bound to `id`, or -1.
pub open spec fn first_tid_match_from(users: Seq<UserView>, id: u64, i: int) -> int
    decreases users.len() - i when 0 <= i <= users.len()
{
    if i >= users.len() {
        -1
    } else if users[i].telegram_id == Some(id) {
        i
    } else {
        first_tid_match_from(users, id, i + 1)
    }
}

/// Index of the first record bound to `id`, or -1.
pub open spec fn first_tid_match(users: Seq<UserView>, id: u64) -> int {
    first_tid_match_from(users, id, 0)
}

/// What `first_name_match_from` returns: either -1 with no match at or after
/// `i`, or the first matching index at or after `i`.
pub proof fn lemma_first_name_match_from(users: Seq<UserView>, name: Seq<char>, i: int)
    requires
        0 <= i <= users.len(),
    ensures
        ({
            let r = first_name_match_from(users, name, i);
            ||| (r == -1 && forall|j: int|
                i <= j < users.len() ==> (#[trigger] users[j]).full_name != name)
            ||| (i <= r < users.len() && users[r].full_name == name && forall|j: int|
                i <= j < r ==> (#[trigger] users[j]).full_name != name)
        }),
    decreases users.len() - i,
{
    if i < users.len() && users[i].full_name != name {
        lemma_first_name_match_from(users, name, i + 1);
    }
}

/// What `first_name_match` returns: -1 with no match at all, or the first
/// matching index.
pub proof fn lemma_first_name_match(users: Seq<UserView>, name: Seq<char>)
    ensures
        ({
            let r = first_name_match(users, name);
            ||| (r == -1 && forall|j: int|
                0 <= j < users.len() ==> (#[trigger] users[j]).full_name != name)
            ||| (0 <= r < users.len() && users[r].full_name == name && forall|j: int|
                0 <= j < r ==> (#[trigger] users[j]).full_name != name)
        }),
{
    lemma_first_name_match_from(users, name, 0);
}

/// What `first_tid_match_from` returns, in the same shape.
pub proof fn lemma_first_tid_match_from(users: Seq<UserView>, id: u64, i: int)
    requires
        0 <= i <= users.len(),
    ensures
        ({
            let r = first_tid_match_from(users, id, i);
            ||| (r == -1 && forall|j: int|
                i <= j < users.len() ==> (#[trigger] users[j]).telegram_id != Some(id))
            ||| (i <= r < users.len() && users[r].telegram_id == Some(id) && forall|j: int|
                i <= j < r ==> (#[trigger] users[j]).telegram_id != Some(id))
        }),
    decreases users.len() - i,
{
    if i < users.len() && users[i].telegram_id != Some(id) {
        lemma_first_tid_match_from(users, id, i + 1);
    }
}

/// What `first_tid_match` returns.
pub proof fn lemma_first_tid_match(users: Seq<UserView>, id: u64)
    ensures
        ({
            let r = first_tid_match(users, id);
            ||| (r == -1 && forall|j: int|
                0 <= j < users.len() ==> (#[trigger] users[j]).telegram_id != Some(id))
            ||| (0 <= r < users.len() && users[r].telegram_id == Some(id) && forall|j: int|
                0 <= j < r ==> (#[trigger] users[j]).telegram_id != Some(id))
        }),
{
    lemma_first_tid_match_from(users, id, 0);
}

/// The record a lookup by name returns.
pub open spec fn spec_find_by_full_name(users: Seq<UserView>, name: Seq<char>) -> Option<
    UserView,
> {
    let k = first_name_match(users, name);
    if k == -1 {
        None
    } else {
        Some(users[k])
    }
}

/// The record a lookup by bound identity returns.
pub open spec fn spec_find_by_telegram_id(users: Seq<UserView>, id: u64) -> Option<UserView> {
    let k = first_tid_match(users, id);
    if k == -1 {
        None
    } else {
        Some(users[k])
    }
}

/// Whether a bind-if-unbound of `id` to the record named `name` succeeds:
/// the name must resolve to a record, that record must be unbound, and the
/// identity must not already be bound elsewhere.  The last condition keeps
/// each identity bound to at most one record.
pub open spec fn bind_accepted(users: Seq<UserView>, name: Seq<char>, id: u64) -> bool {
    let k = first_name_match(users, name);
    &&& k != -1
    &&& users[k].telegram_id is None
    &&& first_tid_match(users, id) == -1
}

/// The directory contents after a bind-if-unbound of `id` to `name`:
/// unchanged unless the bind is accepted.
pub open spec fn spec_bind(users: Seq<UserView>, name: Seq<char>, id: u64) -> Seq<UserView> {
    if bind_accepted(users, name, id) {
        let k = first_name_match(users, name);
        users.update(
            k,
            UserView {
                id: users[k].id,
                full_name: users[k].full_name,
                telegram_id: Some(id),
                phone: users[k].phone,
            },
        )
    } else {
        users
    }
}

/// The directory contents after an unbind of the record named `name`.
pub open spec fn spec_unbind(users: Seq<UserView>, name: Seq<char>) -> Seq<UserView> {
    let k = first_name_match(users, name);
    if k == -1 {
        users
    } else {
        users.update(
            k,
            UserView {
                id: users[k].id,
                full_name: users[k].full_name,
                telegram_id: None,
                phone: users[k].phone,
            },
        )
    }
}

/// No two records are bound to the same identity.
pub open spec fn identities_unique(users: Seq<UserView>) -> bool {
    forall|i: int, j: int|
        0 <= i < users.len() && 0 <= j < users.len() && i != j && (#[trigger] users[i]).telegram_id
            is Some ==> users[i].telegram_id != (#[trigger] users[j]).telegram_id
}

/// The enrollment directory: records in insertion order, with the store's
/// two invariants.  It is the in-memory model of the directory store; a
/// persistent deployment keeps the same contents behind the same contract.
pub struct Directory {
    users: Vec<User>,
}

impl View for Directory {
    type V = Seq<UserView>;

    closed spec fn view(&self) -> Seq<UserView> {
        self.users@.map_values(|u: User| u@)
    }
}

impl Directory {
    /// Identifiers are assigned by the store in creation order, and each
    /// identity is bound to at most one record.
    pub open spec fn wf(&self) -> bool {
        &&& forall|i: int| 0 <= i < self@.len() ==> (#[trigger] self@[i]).id == i
        &&& identities_unique(self@)
    }

    /// An empty directory.
    pub fn new() -> (r: Directory)
        ensures
            r@ == Seq::<UserView>::empty(),
            r.wf(),
    {
        let r = Directory { users: Vec::new() };
        proof {
            assert(r@ =~= Seq::<UserView>::empty());
        }
        r
    }

    /// How many records the directory holds.
    pub fn len(&self) -> (r: usize)
        ensures
            r == self@.len(),
    {
        self.users.len()
    }

    /// Creates a record: name and optional phone, unbound, with the next
    /// identifier.
    pub fn add_record(&mut self, nu: NewUser, phone: Option<Vec<char>>)
        requires
            old(self).wf(),
            old(self)@.len() < 0x7fff_ffff,
        ensures
            final(self)@ == old(self)@.push(
                UserView {
                    id: old(self)@.len() as int,
                    full_name: nu.full_name@,
                    telegram_id: None,
                    phone: match phone {
                        Some(p) => Some(p@),
                        None => None,
                    },
                },
            ),
            final(self).wf(),
    {
        let id = self.users.len() as i32;
        let user = User { id, full_name: nu.full_name, telegram_id: None, phone };
        self.users.push(user);
        proof {
            assert(self@ =~= old(self)@.push(user@));
        }
    }

    /// Creates a record from the name alone, as the administrator surface
    /// does; the phone arrives only through bulk import.
    pub fn add_fullname(&mut self, nu: NewUser)
        requires
            old(self).wf(),
            old(self)@.len() < 0x7fff_ffff,
        ensures
            final(self)@ == old(self)@.push(
                UserView {
                    id: old(self)@.len() as int,
                    full_name: nu.full_name@,
                    telegram_id: None,
                    phone: None,
                },
            ),
            final(self).wf(),
    {
        self.add_record(nu, None)
    }

    /// Index of the first record named `name`, if any.
    fn find_index_by_name(&self, name: &Vec<char>) -> (r: Option<usize>)
        ensures
            match r {
                Some(k) => first_name_match(self@, name@) == k as int && k < self@.len(),
                None => first_name_match(self@, name@) == -1,
            },
    {
        let mut i: usize = 0;
        while i < self.users.len()
            invariant
                i <= self.users.len(),
                self@.len() == self.users.len(),
                forall|j: int| 0 <= j < i ==> (#[trigger] self@[j]).full_name != name@,
            decreases self.users.len() - i,
        {
            if chars_eq(&self.users[i].full_name, name) {
                proof {
                    assert(self@[i as int].full_name == name@);
                    lemma_first_name_match(self@, name@);
                }
                return Some(i);
            }
            i = i + 1;
        }
        proof {
            lemma_first_name_match(self@, name@);
        }
        None
    }

    /// Index of the first record bound to `id`, if any.
    fn find_index_by_tid(&self, id: u64) -> (r: Option<usize>)
        ensures
            match r {
                Some(k) => first_tid_match(self@, id) == k as int && k < self@.len(),
                None => first_tid_match(self@, id) == -1,
            },
    {
        let mut i: usize = 0;
        while i < self.users.len()
            invariant
                i <= self.users.len(),
                self@.len() == self.users.len(),
                forall|j: int| 0 <= j < i ==> (#[trigger] self@[j]).telegram_id != Some(id),
            decreases self.users.len() - i,
        {
            let found = match self.users[i].telegram_id {
                Some(t) => t == id,
                None => false,
            };
            if found {
                proof {
                    assert(self@[i as int].telegram_id == Some(id));
                    lemma_first_tid_match(self@, id);
                }
                return Some(i);
            }
            i = i + 1;
        }
        proof {
            lemma_first_tid_match(self@, id);
        }
        None
    }

    /// Looks up the first record named `name`.
    pub fn find_by_full_name(&self, name: &Vec<char>) -> (r: Option<User>)
        ensures
            match r {
                Some(u) => spec_find_by_full_name(self@, name@) == Some(u@),
                None => spec_find_by_full_name(self@, name@) is None,
            },
    {
        match self.find_index_by_name(name) {
            Some(k) => Some(clone_user(&self.users[k])),
            None => None,
        }
    }

    /// Looks up the record bound to the identity `id`.
    pub fn find_by_telegram_id(&self, id: u64) -> (r: Option<User>)
        ensures
            match r {
                Some(u) => spec_find_by_telegram_id(self@, id) == Some(u@),
                None => spec_find_by_telegram_id(self@, id) is None,
            },
    {
        match self.find_index_by_tid(id) {
            Some(k) => Some(clone_user(&self.users[k])),
            None => None,
        }
    }

    /// Bind-if-unbound: atomically binds the identity `id` to the first
    /// record named `name`, provided that record is still unbound and `id`
    /// is not bound elsewhere.  Returns whether the bind took place; on
    /// `false` the directory is unchanged, so a candidate that loses a race
    /// for the same record can only observe "already bound".
    pub fn insert_telegram_data(&mut self, name: &Vec<char>, id: u64) -> (r: bool)
        requires
            old(self).wf(),
        ensures
            final(self).wf(),
            r == bind_accepted(old(self)@, name@, id),
            final(self)@ == spec_bind(old(self)@, name@, id),
    {
        let k = match self.find_index_by_name(name) {
            None => {
                return false;
            },
            Some(k) => k,
        };
        if self.users[k].telegram_id.is_some() {
            return false;
        }
        match self.find_index_by_tid(id) {
            Some(_) => {
                return false;
            },
            None => {},
        }
        let ghost prev = self@;
        let u_old = &self.users[k];
        let u_new = User {
            id: u_old.id,
            full_name: clone_chars(&u_old.full_name),
            telegram_id: Some(id),
            phone: match &u_old.phone {
                Some(p) => Some(clone_chars(p)),
                None => None,
            },
        };
        self.users.set(k, u_new);
        proof {
            assert(self@ =~= spec_bind(prev, name@, id));
            lemma_first_tid_match(prev, id);
            assert forall|i: int, j: int|
                0 <= i < self@.len() && 0 <= j < self@.len() && i != j && (#[trigger] self@[i]).telegram_id
                    is Some implies self@[i].telegram_id != (#[trigger] self@[j]).telegram_id by {
                assert(prev[i].telegram_id is Some ==> self@[i].telegram_id == prev[i].telegram_id
                    || i == k);
            }
        }
        true
    }

    /// Unbinds the first record named `name`, if any; returns whether such a
    /// record existed.
    pub fn delete_telegram_id(&mut self, name: &Vec<char>) -> (r: bool)
        requires
            old(self).wf(),
        ensures
            final(self).wf(),
            r == (first_name_match(old(self)@, name@) != -1),
            final(self)@ == spec_unbind(old(self)@, name@),
    {
        let k = match self.find_index_by_name(name) {
            None => {
                return false;
            },
            Some(k) => k,
        };
        let ghost prev = self@;
        let u_old = &self.users[k];
        let u_new = User {
            id: u_old.id,
            full_name: clone_chars(&u_old.full_name),
            telegram_id: None,
            phone: match &u_old.phone {
                Some(p) => Some(clone_chars(p)),
                None => None,
            },
        };
        self.users.set(k, u_new);
        proof {
            assert(self@ =~= spec_unbind(prev, name@));
        }
        true
    }

    /// Every record, in insertion order.
    pub fn list_all(&self) -> (r: Vec<User>)
        ensures
            r@.len() == self@.len(),
            forall|i: int| 0 <= i < r@.len() ==> (#[trigger] r@[i])@ == self@[i],
    {
        let mut r: Vec<User> = Vec::new();
        let mut i: usize = 0;
        while i < self.users.len()
            invariant
                i <= self.users.len(),
                self@.len() == self.users.len(),
                r@.len() == i,
                forall|j: int| 0 <= j < i ==> (#[trigger] r@[j])@ == self@[j],
            decreases self.users.len() - i,
        {
            let u = clone_user(&self.users[i]);
            r.push(u);
            i = i + 1;
        }
        r
    }
}

/// One line of the directory export: the quoted name, a comma, the bound
/// identity in decimal (empty when unbound), a line feed.
pub open spec fn csv_row(u: UserView) -> Seq<char> {
    seq!['"'] + u.full_name + seq!['"', ','] + (match u.telegram_id {
        Some(id) => dec_digits(id as int),
        None => Seq::<char>::empty(),
    }) + seq!['\n']
}

/// The directory export: one line per record, in insertion order.
pub open spec fn csv_text(users: Seq<UserView>) -> Seq<char>
    decreases users.len(),
{
    if users.len() == 0 {
        Seq::empty()
    } else {
        csv_text(users.drop_last()) + csv_row(users.last())
    }
}

impl Directory {
    /// Renders every record as one line of comma-separated values, as
    /// [`csv_text`] describes.
    pub fn dump_to_csv(&self) -> (r: Vec<char>)
        ensures
            r@ == csv_text(self@),
    {
        let mut out: Vec<char> = Vec::new();
        let mut i: usize = 0;
        proof {
            assert(self@.take(0) =~= Seq::<UserView>::empty());
        }
        while i < self.users.len()
            invariant
                i <= self.users.len(),
                self@.len() == self.users.len(),
                out@ == csv_text(self@.take(i as int)),
            decreases self.users.len() - i,
        {
            let ghost before = out@;
            out.push('"');
            append_chars(&mut out, &self.users[i].full_name);
            out.push('"');
            out.push(',');
            match self.users[i].telegram_id {
                Some(id) => push_decimal(id, &mut out),
                None => {},
            }
            out.push('\n');
            proof {
                assert(out@ =~= before + csv_row(self@[i as int]));
                assert(self@.take(i + 1 as int).drop_last() =~= self@.take(i as int));
                assert(self@.take(i + 1 as int).last() == self@[i as int]);
                assert(out@ =~= csv_text(self@.take(i + 1 as int)));
            }
            i = i + 1;
        }
        proof {
            assert(self@.take(self@.len() as int) =~= self@);
        }
        out
    }
}

/// Lookup-bind consistency: a record bound to an identity is the record
/// that a lookup by that identity returns, provided the directory keeps
/// identities unique.
pub proof fn lemma_lookup_bind_consistent(users: Seq<UserView>, k: int, id: u64)
    requires
        identities_unique(users),
        0 <= k < users.len(),
        users[k].telegram_id == Some(id),
    ensures
        first_tid_match(users, id) == k,
        spec_find_by_telegram_id(users, id) == Some(users[k]),
{
    lemma_first_tid_match(users, id);
}

/// Binding an identity to a name whose record is already bound — to the
/// same or to a different identity — is a no-op: the bind is refused and no
/// binding is overwritten.
pub proof fn lemma_bind_never_overwrites(users: Seq<UserView>, name: Seq<char>, id: u64)
    requires
        ({
            let k = first_name_match(users, name);
            k != -1 && users[k].telegram_id is Some
        }),
    ensures
        !bind_accepted(users, name, id),
        spec_bind(users, name, id) == users,
{
}

} // verus!
