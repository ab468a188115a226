//! The credential store: what the user service asks of it, and a store held
//! in memory.

use vstd::prelude::*;

verus! {

/// A stored credential record.
#[derive(Debug, PartialEq, Eq)]
pub struct UserCredentials {
    pub name: String,
    pub password_hash: String,
}

/// Credentials as a client sends them.
#[derive(Debug, PartialEq, Eq)]
pub struct UserCredentialsRaw {
    pub name: String,
    pub password: String,
}

/// A persistent mapping from user names to password hashes.
///
/// The user service is proved against the contracts of the two methods. Of a
/// store that ordinary Rust implements they are taken on trust.
pub trait ServerDatabase {
    /// The stored records: each name with its password hash. A store says
    /// here what it holds; one that ordinary Rust implements leaves it
    /// unstated.
    open spec fn records(&self) -> Map<Seq<char>, Seq<char>> {
        arbitrary()
    }

    /// Looks a record up by its name.
    fn get_user_by_name(&self, name: &str) -> (found: Option<UserCredentials>)
        ensures
            found is Some <==> self.records().contains_key(name@),
            found matches Some(credentials) ==> credentials.name@ == name@
                && credentials.password_hash@ == self.records()[name@],
    ;

    /// Stores a record under a name that is not in use.
    fn add_new_user(&mut self, user_credentials: &UserCredentials)
        requires
            !old(self).records().contains_key(user_credentials.name@),
        ensures
            final(self).records() == old(self).records().insert(
                user_credentials.name@,
                user_credentials.password_hash@,
            ),
    ;
}

/// The records that a list of credentials holds, a later entry taking the
/// place of an earlier one of the same name.
pub open spec fn records_of(users: Seq<UserCredentials>) -> Map<Seq<char>, Seq<char>>
    decreases users.len(),
{
    if users.len() == 0 {
        Map::empty()
    } else {
        records_of(users.drop_last()).insert(users.last().name@, users.last().password_hash@)
    }
}

/// A credential store held in memory.
pub struct MemoryDatabase {
    users: Vec<UserCredentials>,
}

impl MemoryDatabase {
    /// An empty store.
    pub fn new() -> (database: Self)
        ensures
            database.records() == Map::<Seq<char>, Seq<char>>::empty(),
    {
        MemoryDatabase { users: Vec::new() }
    }
}

impl ServerDatabase for MemoryDatabase {
    closed spec fn records(&self) -> Map<Seq<char>, Seq<char>> {
        records_of(self.users@)
    }

    fn get_user_by_name(&self, name: &str) -> (found: Option<UserCredentials>) {
        let wanted = name.to_owned();
        let mut i: usize = self.users.len();
        assert(self.users@.take(i as int) == self.users@);
        while i > 0
            invariant
                i <= self.users.len(),
                wanted@ == name@,
                records_of(self.users@).contains_key(name@) <==> records_of(
                    self.users@.take(i as int),
                ).contains_key(name@),
                records_of(self.users@).contains_key(name@) ==> records_of(self.users@)[name@]
                    == records_of(self.users@.take(i as int))[name@],
            decreases i,
        {
            assert(self.users@.take(i as int).drop_last() == self.users@.take(i as int - 1));
            i = i - 1;
            if self.users[i].name == wanted {
                return Some(
                    UserCredentials {
                        name: wanted,
                        password_hash: self.users[i].password_hash.clone(),
                    },
                );
            }
        }
        assert(self.users@.take(0) == Seq::<UserCredentials>::empty());
        None
    }

    fn add_new_user(&mut self, user_credentials: &UserCredentials) {
        let ghost before = self.users@;
        self.users.push(
            UserCredentials {
                name: user_credentials.name.clone(),
                password_hash: user_credentials.password_hash.clone(),
            },
        );
        assert(self.users@.drop_last() == before);
    }
}

} // verus!
