//! Who is calling: user names of the form `cab12`, `adm3` and `cust45`.

use crate::text::{decimal, decimal_text};
use vstd::prelude::*;
use vstd::string::StrSliceExecFns;
use vstd::string::StringExecFns;

verus! {

/// The id of a caller whose name tells none.
pub const NO_USER: i64 = -1;

/// What kind of user a name belongs to.
#[derive(Debug, Copy, Clone, PartialEq, Eq, Structural)]
pub enum Role {
    Cab,
    Admin,
    Customer,
}

/// Whether `name` begins with the three characters given.
pub open spec fn begins_with3(name: Seq<char>, a: char, b: char, c: char) -> bool {
    name.len() >= 3 && name[0] == a && name[1] == b && name[2] == c
}

/// Whether a user name is that of a cab: it begins with `cab`.
pub open spec fn spec_is_cab(name: Seq<char>) -> bool {
    begins_with3(name, 'c', 'a', 'b')
}

/// The kind of user that a name of at least four characters belongs to:
/// `cab` and `adm` are followed by the id at once, `cust` is.
pub open spec fn role_of(name: Seq<char>) -> Option<Role> {
    if name.len() < 4 {
        None
    } else if spec_is_cab(name) {
        Some(Role::Cab)
    } else if begins_with3(name, 'a', 'd', 'm') {
        Some(Role::Admin)
    } else if begins_with3(name, 'c', 'u', 's') && name[3] == 't' {
        Some(Role::Customer)
    } else {
        None
    }
}

/// How many characters of a name tell the role.
pub open spec fn prefix_len(role: Role) -> int {
    match role {
        Role::Cab => 3,
        Role::Admin => 3,
        Role::Customer => 4,
    }
}

/// What `str::parse::<i64>` makes of a text: the number that it writes, or
/// `None` where it writes none that fits.
pub uninterp spec fn parsed_i64(text: Seq<char>) -> Option<i64>;

/// Calls `str::parse::<i64>` on `text` and tells a number from a failure.
/// The contract names the result and claims nothing else of it.
#[verifier::external_body]
fn parse_i64(text: &str) -> (number: Option<i64>)
    ensures
        number == parsed_i64(text@),
{
    text.parse::<i64>().ok()
}

/// The id that a role and the number behind it give: the number, and -1
/// where either is missing.
pub open spec fn spec_identify(role: Option<Role>, number: Option<i64>) -> i64 {
    match (role, number) {
        (Some(_), Some(n)) => n,
        _ => NO_USER,
    }
}

/// The id that a role and the number behind it give: the number, and -1
/// where either is missing.
pub fn identify(role: Option<Role>, number: Option<i64>) -> (id: i64)
    ensures
        id == spec_identify(role, number),
{
    match (role, number) {
        (Some(_), Some(n)) => n,
        _ => NO_USER,
    }
}

/// The id that a user name tells: the number behind the role, and -1 where
/// the name tells no role or no number follows it.
pub open spec fn auth_id(name: Seq<char>) -> i64 {
    match role_of(name) {
        Some(role) => spec_identify(
            Some(role),
            parsed_i64(name.subrange(prefix_len(role), name.len() as int)),
        ),
        None => NO_USER,
    }
}

/// Whether `name` begins with the three characters given.
fn starts_with3(name: &str, a: char, b: char, c: char) -> (begins: bool)
    ensures
        begins == begins_with3(name@, a, b, c),
{
    name.unicode_len() >= 3 && name.get_char(0) == a && name.get_char(1) == b && name.get_char(2)
        == c
}

/// The kind of user that a name belongs to.
pub fn read_role(name: &str) -> (role: Option<Role>)
    ensures
        role == role_of(name@),
{
    if name.unicode_len() < 4 {
        None
    } else if starts_with3(name, 'c', 'a', 'b') {
        Some(Role::Cab)
    } else if starts_with3(name, 'a', 'd', 'm') {
        Some(Role::Admin)
    } else if starts_with3(name, 'c', 'u', 's') && name.get_char(3) == 't' {
        Some(Role::Customer)
    } else {
        None
    }
}

/// The id of the caller with the user name `id`, and -1 where the name
/// tells none.
pub fn get_auth_id(id: &str) -> (user_id: i64)
    ensures
        user_id == auth_id(id@),
{
    match read_role(id) {
        None => NO_USER,
        Some(role) => {
            let skip: usize = match role {
                Role::Cab => 3,
                Role::Admin => 3,
                Role::Customer => 4,
            };
            let digits = id.substring_char(skip, id.unicode_len());
            identify(Some(role), parse_i64(digits))
        },
    }
}

/// Whether a user name is that of a cab. Only a cab may move a leg or a
/// route.
pub fn is_cab(name: &str) -> (cab: bool)
    ensures
        cab == spec_is_cab(name@),
{
    starts_with3(name, 'c', 'a', 'b')
}

/// The user name of the cab `id`.
pub open spec fn cab_name(id: i64) -> Seq<char> {
    seq!['c', 'a', 'b'] + decimal_text(id as int)
}

/// Whether `name` is the user name of the cab `id`. A cab reports on no cab
/// but itself.
pub fn names_cab(name: &str, id: i64) -> (own: bool)
    ensures
        own == (name@ == cab_name(id)),
{
    let mut expected = String::from_str("cab");
    proof {
        reveal_strlit("cab");
        assert("cab"@ =~= seq!['c', 'a', 'b']);
    }
    let number = decimal(id);
    expected.append(number.as_str());
    let given = String::from_str(name);
    given == expected
}

} // verus!
