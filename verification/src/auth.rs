use vstd::prelude::*;

use crate::models::User;
use crate::store::Bank;
use crate::text::str_eq;

verus! {

/// The users-table row at `i` holds these credentials.
pub open spec fn credentials_match(bank: Bank, i: int, username: Seq<char>, password: Seq<char>) -> bool {
    bank.users@[i].username@ == username && bank.users@[i].password@ == password
}

/// Some user holds these credentials.
pub open spec fn has_credentials(bank: Bank, username: Seq<char>, password: Seq<char>) -> bool {
    exists|i: int| 0 <= i < bank.users@.len() && #[trigger] credentials_match(bank, i, username, password)
}

/// `r` is what signing in with these credentials answers: the first user
/// holding them, without the password, or `None` where no user holds them.
pub open spec fn login_answer(bank: Bank, username: Seq<char>, password: Seq<char>, r: Option<User>) -> bool {
    &&& r is None <==> !has_credentials(bank, username, password)
    &&& r matches Some(u) ==> exists|i: int|
        0 <= i < bank.users@.len() && #[trigger] credentials_match(bank, i, username, password)
            && (forall|j: int| 0 <= j < i ==> !credentials_match(bank, j, username, password))
            && u.user_id == bank.users@[i].user_id && u.username == bank.users@[i].username
            && u.full_name == bank.users@[i].full_name && u.role == bank.users@[i].role
}

/// Signs in: the first user whose username and password are the given
/// ones, without the password; `None` where no user has them.
pub fn login(bank: &Bank, username: &str, password: &str) -> (r: Option<User>)
    ensures
        login_answer(*bank, username@, password@, r),
{
    let n = bank.users.len();
    let mut i: usize = 0;
    while i < n
        invariant
            n == bank.users@.len(),
            i <= n,
            forall|j: int| 0 <= j < i ==> !credentials_match(*bank, j, username@, password@),
        decreases n - i,
    {
        let row = &bank.users[i];
        if str_eq(row.username.as_str(), username) && str_eq(row.password.as_str(), password) {
            assert(credentials_match(*bank, i as int, username@, password@));
            return Some(
                User {
                    user_id: row.user_id,
                    username: row.username.clone(),
                    full_name: row.full_name.clone(),
                    role: row.role.clone(),
                },
            );
        }
        i = i + 1;
    }
    None
}

} // verus!
