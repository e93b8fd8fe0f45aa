//! One database for each user.
use crate::text::{
    join_path, law_signed_decimal_injective, path_join, signed_decimal, signed_decimal_text,
};
use vstd::prelude::*;
use vstd::string::*;

verus! {

/// The directory of the databases.
pub open spec fn users_dir(data_dir: Seq<char>) -> Seq<char> {
    path_join(data_dir, "users"@)
}

/// The path of the database of a user.
pub open spec fn user_db(data_dir: Seq<char>, user_id: int) -> Seq<char> {
    path_join(users_dir(data_dir), signed_decimal(user_id) + ".db"@)
}

/// The directory of the databases.
pub fn init_db_dir(data_dir: &str) -> (res: String)
    ensures
        res@ == users_dir(data_dir@),
{
    join_path(data_dir, "users")
}

/// The path of the database of a user.
pub fn user_db_path(data_dir: &str, user_id: i64) -> (res: String)
    ensures
        res@ == user_db(data_dir@, user_id as int),
{
    let dir = init_db_dir(data_dir);
    let name = signed_decimal_text(user_id).concat(".db");
    join_path(dir.as_str(), name.as_str())
}

/// A number does not begin with a slash.
proof fn lemma_number_is_no_root(n: int)
    ensures
        signed_decimal(n).len() > 0,
        signed_decimal(n)[0] != '/',
{
    let m = if n < 0 {
        (-n) as nat
    } else {
        n as nat
    };
    crate::text::law_decimal_denotes(m);
    assert(crate::text::is_digit(crate::text::decimal(m)[0]));
}

/// What deleting the data of a user comes to.
#[derive(Debug)]
pub enum Deletion {
    /// This file is removed.
    Remove(String),
    /// There is nothing to remove.
    Nothing,
}

/// What deleting the data of a user comes to, given whether the user has a database: the removal of
/// that one file.
pub fn delete_user_data(data_dir: &str, user_id: i64, exists: bool) -> (res: Deletion)
    ensures
        match res {
            Deletion::Remove(path) => exists && path@ == user_db(data_dir@, user_id as int),
            Deletion::Nothing => !exists,
        },
{
    if exists {
        Deletion::Remove(user_db_path(data_dir, user_id))
    } else {
        Deletion::Nothing
    }
}

/// Different users have different databases, so that what is done to the data of one leaves the
/// data of every other user alone.
pub proof fn law_users_are_kept_apart(data_dir: Seq<char>, a: int, b: int)
    requires
        user_db(data_dir, a) == user_db(data_dir, b),
    ensures
        a == b,
{
    reveal_strlit("users");
    reveal_strlit(".db");
    lemma_number_is_no_root(a);
    lemma_number_is_no_root(b);
    let dir = users_dir(data_dir);
    assert(dir.len() > 0 && dir.last() == 's');
    let x = signed_decimal(a) + ".db"@;
    let y = signed_decimal(b) + ".db"@;
    assert(user_db(data_dir, a) == dir.push('/') + x);
    assert(user_db(data_dir, b) == dir.push('/') + y);
    assert(x =~= user_db(data_dir, a).skip(dir.len() as int + 1));
    assert(y =~= user_db(data_dir, b).skip(dir.len() as int + 1));
    assert(signed_decimal(a) =~= x.take(x.len() - 3));
    assert(signed_decimal(b) =~= y.take(y.len() - 3));
    law_signed_decimal_injective(a, b);
}

/// The database of a user is a file of the directory `users` below the data directory, named by the
/// number of the user.
pub proof fn law_database_is_named_by_the_user(data_dir: Seq<char>, user_id: nat)
    requires
        data_dir.len() > 0,
        data_dir.last() != '/',
    ensures
        users_dir(data_dir) == data_dir + "/users"@,
        user_db(data_dir, user_id as int) == data_dir + "/users/"@ + crate::text::decimal(user_id)
            + ".db"@,
{
    reveal_strlit("users");
    reveal_strlit("/users");
    reveal_strlit("/users/");
    reveal_strlit(".db");
    lemma_number_is_no_root(user_id as int);
    assert(users_dir(data_dir) =~= data_dir + "/users"@);
    assert(users_dir(data_dir).last() == 's');
    assert(user_db(data_dir, user_id as int) =~= data_dir + "/users/"@ + crate::text::decimal(
        user_id,
    ) + ".db"@);
}

} // verus!
