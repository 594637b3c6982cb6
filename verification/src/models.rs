use vstd::prelude::*;

verus! {

/// One enrollment record of the directory.
///
/// `full_name` is the whitespace-normalized lookup key.  `phone` is an
/// optional phone number whose trailing four characters serve as a secondary
/// verification factor; a record without one cannot be self-verified.
/// `telegram_id` is the chat-platform identity bound by successful
/// verification; `None` means "not yet verified".  Text is carried as a
/// sequence of characters so that every operation on it is verified.
pub struct User {
    pub id: i32,
    pub full_name: Vec<char>,
    pub telegram_id: Option<u64>,
    pub phone: Option<Vec<char>>,
}

/// The mathematical image of a [`User`]: the same fields over `Seq<char>`.
pub ghost struct UserView {
    pub id: int,
    pub full_name: Seq<char>,
    pub telegram_id: Option<u64>,
    pub phone: Option<Seq<char>>,
}

impl View for User {
    type V = UserView;

    open spec fn view(&self) -> UserView {
        UserView {
            id: self.id as int,
            full_name: self.full_name@,
            telegram_id: self.telegram_id,
            phone: match self.phone {
                Some(p) => Some(p@),
                None => None,
            },
        }
    }
}

/// A record as handed to the directory for insertion: the name alone.
/// The directory assigns the identifier; the verification binding and the
/// phone number start out absent.
pub struct NewUser {
    pub full_name: Vec<char>,
}

/// Copies a character vector; the copy has the same view.
pub fn clone_chars(v: &Vec<char>) -> (r: Vec<char>)
    ensures
        r@ == v@,
{
    let mut r: Vec<char> = Vec::new();
    let mut i: usize = 0;
    while i < v.len()
        invariant
            i <= v.len(),
            r@ == v@.take(i as int),
        decreases v.len() - i,
    {
        let c = v[i];
        r.push(c);
        proof {
            assert(v@.take(i + 1 as int) =~= v@.take(i as int).push(v@[i as int]));
        }
        i = i + 1;
    }
    proof {
        assert(v@.take(v@.len() as int) =~= v@);
    }
    r
}

/// Copies a record; the copy has the same view.
pub fn clone_user(u: &User) -> (r: User)
    ensures
        r@ == u@,
{
    User {
        id: u.id,
        full_name: clone_chars(&u.full_name),
        telegram_id: u.telegram_id,
        phone: match &u.phone {
            Some(p) => Some(clone_chars(p)),
            None => None,
        },
    }
}

} // verus!
