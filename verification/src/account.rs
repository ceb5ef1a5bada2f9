//! Account identifiers of the chain.

use vstd::prelude::*;

verus! {

/// Lower-case letters and digits: the characters an identifier is built from.
pub open spec fn is_id_char(c: char) -> bool {
    ('a' <= c && c <= 'z') || ('0' <= c && c <= '9')
}

/// The characters that may stand between runs of letters and digits.
pub open spec fn is_separator(c: char) -> bool {
    c == '-' || c == '_' || c == '.'
}

/// The rule an account identifier obeys: 2 to 64 characters, each a
/// lower-case letter, a digit or a separator; no separator first, last or
/// next to another one.
pub open spec fn is_valid_account_id(s: Seq<char>) -> bool {
    &&& 2 <= s.len() <= 64
    &&& forall|i: int| 0 <= i < s.len() ==> is_id_char(#[trigger] s[i]) || is_separator(s[i])
    &&& !is_separator(s[0])
    &&& !is_separator(s[s.len() - 1])
    &&& forall|i: int|
        0 <= i < s.len() - 1 ==> !(is_separator(#[trigger] s[i]) && is_separator(s[i + 1]))
}

/// Validates `value` with `near_sdk::AccountId`'s `FromStr` and hands the
/// accepted text back. The contract restates the check that
/// `near_sdk::env::is_valid_account_id` makes on the text's bytes: every byte
/// it accepts is ASCII, so its length bounds and neighbour checks read the
/// same on characters.
#[verifier::external_body]
fn near_account_id(value: &str) -> (r: Option<String>)
    ensures
        r.is_some() == is_valid_account_id(value@),
        r matches Some(id) ==> id@ == value@,
{
    match value.parse::<near_sdk::AccountId>() {
        Ok(id) => Some(String::from(id)),
        Err(_) => None,
    }
}

/// A validated account identifier.
#[derive(Debug, PartialEq, Eq, Hash)]
pub struct AccountId {
    id: String,
}

impl View for AccountId {
    type V = Seq<char>;

    closed spec fn view(&self) -> Seq<char> {
        self.id@
    }
}

impl AccountId {
    #[verifier::type_invariant]
    spec fn well_formed(self) -> bool {
        is_valid_account_id(self.id@)
    }

    /// Accepts `value` exactly when it obeys the identifier rule.
    pub fn parse(value: &str) -> (r: Option<AccountId>)
        ensures
            r.is_some() == is_valid_account_id(value@),
            r matches Some(a) ==> a@ == value@,
    {
        match near_account_id(value) {
            Some(id) => Some(AccountId { id }),
            None => None,
        }
    }

    /// The identifier's text.
    pub fn as_str(&self) -> (s: &str)
        ensures
            s@ == self@,
            is_valid_account_id(self@),
    {
        proof {
            use_type_invariant(self);
        }
        self.id.as_str()
    }

    /// Whether two identifiers read the same.
    pub fn same(&self, other: &AccountId) -> (b: bool)
        ensures
            b == (self@ == other@),
    {
        self.id == other.id
    }
}

impl Clone for AccountId {
    fn clone(&self) -> (r: Self)
        ensures
            r@ == self@,
    {
        proof {
            use_type_invariant(self);
        }
        AccountId { id: self.id.clone() }
    }
}

} // verus!
