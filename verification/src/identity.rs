//! Finding the signed-in account in the library of accounts.
use crate::account::Account;
use crate::outside::lowercase;
use vstd::prelude::*;

verus! {

/// Whether the account at `i` is the first whose address is `email`, upper and
/// lower case being the same.
pub open spec fn first_with(accounts: Seq<Account>, email: Seq<char>, i: int) -> bool {
    &&& 0 <= i < accounts.len()
    &&& lowercase(accounts[i].email@) == lowercase(email)
    &&& forall|j: int| 0 <= j < i ==> lowercase(#[trigger] accounts[j].email@) != lowercase(email)
}

/// Whether no account has the address `email`, upper and lower case being the same.
pub open spec fn none_with(accounts: Seq<Account>, email: Seq<char>) -> bool {
    forall|j: int|
        0 <= j < accounts.len() ==> lowercase(#[trigger] accounts[j].email@) != lowercase(email)
}

/// The place of the first of `keys` that is `wanted`.
pub fn first_equal(keys: &[String], wanted: &str) -> (r: Option<usize>)
    ensures
        match r {
            Some(i) => {
                &&& i < keys@.len()
                &&& keys@[i as int]@ == wanted@
                &&& forall|j: int| 0 <= j < i ==> (#[trigger] keys@[j])@ != wanted@
            },
            None => forall|j: int| 0 <= j < keys@.len() ==> (#[trigger] keys@[j])@ != wanted@,
        },
{
    let key: String = wanted.to_owned();
    let mut i: usize = 0;
    while i < keys.len()
        invariant
            i <= keys@.len(),
            key@ == wanted@,
            forall|j: int| 0 <= j < i ==> (#[trigger] keys@[j])@ != wanted@,
        decreases keys@.len() - i,
    {
        if keys[i] == key {
            return Some(i);
        }
        i = i + 1;
    }
    None
}

/// The place of the first account whose address is `email`, upper and lower case
/// being the same.
pub fn find_account(accounts: &[Account], email: &str) -> (r: Option<usize>)
    ensures
        match r {
            Some(i) => first_with(accounts@, email@, i as int),
            None => none_with(accounts@, email@),
        },
{
    let mut keys: Vec<String> = Vec::new();
    let mut i: usize = 0;
    while i < accounts.len()
        invariant
            i <= accounts@.len(),
            keys@.len() == i,
            forall|j: int|
                0 <= j < i ==> (#[trigger] keys@[j])@ == lowercase(accounts@[j].email@),
        decreases accounts@.len() - i,
    {
        keys.push(accounts[i].email.as_str().to_lowercase());
        i = i + 1;
    }
    let wanted: String = email.to_lowercase();
    let found: Option<usize> = first_equal(keys.as_slice(), wanted.as_str());
    proof {
        assert forall|j: int| 0 <= j < keys@.len() implies (lowercase(
            #[trigger] accounts@[j].email@,
        ) == lowercase(email@)) == (keys@[j]@ == wanted@) by {}
    }
    found
}

} // verus!
