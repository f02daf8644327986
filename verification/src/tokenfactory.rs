//! The token-factory rules: which denominations the factory accepts, how a
//! full denomination is assembled and checked, and the validation every
//! factory command performs before its message is handed to the host.
//! Host-side concerns (address validation, the creator lookup) stay with
//! the caller, which completes validation on the parts returned here.

use vstd::prelude::*;

verus! {

use vstd::string::StringExecFns;
use vstd::string::StrSliceExecFns;

use crate::error::ContractError;
use crate::msg::OsmosisMsg;
use crate::router::OsmosisModule;
use crate::text::{
    ascii_ieq, count_char, dec_digits, eq_ignore_ascii_case_str, find_char, lemma_count_char_push,
    lemma_find_char_is_first, str_contains_char, u128_dec_string,
};

/// Errors of the token-factory commands.
#[derive(Debug, PartialEq, Eq)]
pub enum TokenFactoryError {
    /// The sender may not administer this denomination.
    Unauthorized,
    /// A subdenom the factory refuses.
    InvalidSubdenom { subdenom: String },
    /// A denomination that does not have the factory's shape, with the
    /// reason spelled out.
    InvalidDenom { denom: String, message: String },
    /// Burning from a foreign address is not supported yet.
    BurnFromAddressNotSupported { address: String },
    /// A mint or burn of zero tokens.
    ZeroAmount,
}

/// The response to a denomination lookup.
#[derive(Debug, PartialEq, Eq)]
pub struct GetDenomResponse {
    pub denom: String,
}

/// The part of a factory denomination before its first slash.
pub open spec fn denom_prefix(s: Seq<char>) -> Seq<char> {
    s.take(find_char(s, '/'))
}

/// The index of the second slash of a factory denomination.
pub open spec fn second_slash(s: Seq<char>) -> int {
    let i1 = find_char(s, '/');
    i1 + 1 + find_char(s.skip(i1 + 1), '/')
}

/// The creator part of a factory denomination: between the two slashes.
pub open spec fn denom_creator(s: Seq<char>) -> Seq<char> {
    s.subrange(find_char(s, '/') + 1, second_slash(s))
}

/// The subdenom part of a factory denomination: after the second slash.
pub open spec fn denom_subdenom(s: Seq<char>) -> Seq<char> {
    s.skip(second_slash(s) + 1)
}

/// Whether a denomination has the factory's shape: exactly three parts
/// separated by slashes, the first being `factory` up to ASCII case.
pub open spec fn denom_format_ok(s: Seq<char>) -> bool {
    count_char(s, '/') == 2 && ascii_ieq(denom_prefix(s), "factory"@)
}

/// The message with which a malformed denomination is rejected.
pub open spec fn denom_error_message(s: Seq<char>) -> Seq<char> {
    if count_char(s, '/') != 2 {
        "denom must have 3 parts separated by /, had "@ + dec_digits(count_char(s, '/') + 1)
    } else {
        "prefix must be 'factory', was "@ + denom_prefix(s)
    }
}

/// Checks the factory shape of a denomination and splits it: on success the
/// creator address and the subdenom are returned, for the caller to finish
/// validation against the host. A wrong part count or prefix is rejected
/// with the exact message `denom_error_message` describes.
pub fn validate_denom(denom: &str) -> (r: Result<(String, String), TokenFactoryError>)
    ensures
        denom_format_ok(denom@) ==> ({
            &&& r matches Ok(p)
            &&& p.0@ == denom_creator(denom@)
            &&& p.1@ == denom_subdenom(denom@)
        }),
        !denom_format_ok(denom@) ==> ({
            &&& r matches Err(TokenFactoryError::InvalidDenom { denom: d, message })
            &&& d@ == denom@
            &&& message@ == denom_error_message(denom@)
        }),
{
    let n = denom.unicode_len();
    let mut count: u128 = 0;
    let mut i1: usize = 0;
    let mut i2: usize = 0;
    let mut i: usize = 0;
    proof {
        assert(denom@.take(0) =~= Seq::<char>::empty());
    }
    while i < n
        invariant
            n == denom@.len(),
            0 <= i <= n,
            count as int == count_char(denom@.take(i as int), '/'),
            count <= i,
            count == 0 ==> forall|k: int| 0 <= k < i ==> denom@[k] != '/',
            count >= 1 ==> {
                &&& 0 <= i1 < i
                &&& denom@[i1 as int] == '/'
                &&& forall|k: int| 0 <= k < i1 ==> denom@[k] != '/'
            },
            count == 1 ==> forall|k: int| i1 < k < i ==> denom@[k] != '/',
            count >= 2 ==> {
                &&& i1 < i2 < i
                &&& denom@[i2 as int] == '/'
                &&& forall|k: int| i1 < k < i2 ==> denom@[k] != '/'
            },
        decreases n - i,
    {
        let c = denom.get_char(i);
        proof {
            assert(denom@.take(i as int + 1) =~= denom@.take(i as int).push(denom@[i as int]));
            lemma_count_char_push(denom@.take(i as int), '/', denom@[i as int]);
        }
        if c == '/' {
            count = count + 1;
            if count == 1 {
                i1 = i;
            } else if count == 2 {
                i2 = i;
            }
        }
        i += 1;
    }
    proof {
        assert(denom@.take(n as int) =~= denom@);
    }
    if count != 2 {
        let msg: String = "denom must have 3 parts separated by /, had ".to_owned().concat(
            u128_dec_string(count + 1).as_str(),
        );
        return Err(TokenFactoryError::InvalidDenom { denom: denom.to_owned(), message: msg });
    }
    proof {
        lemma_find_char_is_first(denom@, '/', i1 as int);
        let rest = denom@.skip(i1 as int + 1);
        assert(forall|k: int| 0 <= k < rest.len() ==> rest[k] == denom@[k + i1 + 1]);
        lemma_find_char_is_first(rest, '/', i2 - i1 - 1);
        assert(second_slash(denom@) == i2 as int);
    }
    let prefix = denom.substring_char(0, i1);
    if !eq_ignore_ascii_case_str(prefix, "factory") {
        let msg: String = "prefix must be 'factory', was ".to_owned().concat(prefix);
        return Err(TokenFactoryError::InvalidDenom { denom: denom.to_owned(), message: msg });
    }
    let creator = denom.substring_char(i1 + 1, i2).to_owned();
    let subdenom = denom.substring_char(i2 + 1, n).to_owned();
    proof {
        assert(denom@.subrange(i2 as int + 1, n as int) =~= denom@.skip(i2 as int + 1));
    }
    Ok((creator, subdenom))
}

/// The factory command creating a new denomination for the given subdenom;
/// only the empty subdenom is rejected here, the rest is the host's check.
pub fn create_denom(subdenom: String) -> (r: Result<OsmosisMsg, TokenFactoryError>)
    ensures
        subdenom@.len() == 0 ==> ({
            &&& r matches Err(TokenFactoryError::InvalidSubdenom { subdenom: s })
            &&& s@ == subdenom@
        }),
        subdenom@.len() > 0 ==> ({
            &&& r matches Ok(OsmosisMsg::CreateDenom { subdenom: s })
            &&& s@ == subdenom@
        }),
{
    if subdenom.as_str().is_empty() {
        return Err(TokenFactoryError::InvalidSubdenom { subdenom });
    }
    Ok(OsmosisMsg::CreateDenom { subdenom })
}

/// The factory command handing a denomination's admin role on: the denom
/// must have the factory shape; the new admin address is validated by the
/// host before the command is sent.
pub fn change_admin(denom: String, new_admin_address: String) -> (r: Result<
    OsmosisMsg,
    TokenFactoryError,
>)
    ensures
        !denom_format_ok(denom@) ==> ({
            &&& r matches Err(TokenFactoryError::InvalidDenom { denom: d, message })
            &&& d@ == denom@
            &&& message@ == denom_error_message(denom@)
        }),
        denom_format_ok(denom@) ==> ({
            &&& r matches Ok(OsmosisMsg::ChangeAdmin { denom: d, new_admin_address: a })
            &&& d@ == denom@
            &&& a@ == new_admin_address@
        }),
{
    match validate_denom(denom.as_str()) {
        Ok(_) => (),
        Err(e) => {
            return Err(e);
        },
    }
    Ok(OsmosisMsg::ChangeAdmin { denom, new_admin_address })
}

/// The factory command minting tokens of an existing denomination: a zero
/// amount is rejected, then the denom's shape is checked.
pub fn mint_tokens(denom: String, amount: u128, mint_to_address: String) -> (r: Result<
    OsmosisMsg,
    TokenFactoryError,
>)
    ensures
        amount == 0 ==> r matches Err(TokenFactoryError::ZeroAmount),
        amount > 0 && !denom_format_ok(denom@) ==> ({
            &&& r matches Err(TokenFactoryError::InvalidDenom { denom: d, message })
            &&& d@ == denom@
            &&& message@ == denom_error_message(denom@)
        }),
        amount > 0 && denom_format_ok(denom@) ==> ({
            &&& r matches Ok(OsmosisMsg::MintTokens { denom: d, amount: a, mint_to_address: m })
            &&& d@ == denom@
            &&& a == amount
            &&& m@ == mint_to_address@
        }),
{
    if amount == 0 {
        return Err(TokenFactoryError::ZeroAmount);
    }
    match validate_denom(denom.as_str()) {
        Ok(_) => (),
        Err(e) => {
            return Err(e);
        },
    }
    Ok(OsmosisMsg::mint_contract_tokens(denom, amount, mint_to_address))
}

/// The factory command burning tokens of an existing denomination: burning
/// from a foreign address and a zero amount are rejected, then the denom's
/// shape is checked.
pub fn burn_tokens(denom: String, amount: u128, burn_from_address: String) -> (r: Result<
    OsmosisMsg,
    TokenFactoryError,
>)
    ensures
        burn_from_address@.len() > 0 ==> ({
            &&& r matches Err(TokenFactoryError::BurnFromAddressNotSupported { address })
            &&& address@ == burn_from_address@
        }),
        burn_from_address@.len() == 0 && amount == 0 ==> r matches Err(
            TokenFactoryError::ZeroAmount,
        ),
        burn_from_address@.len() == 0 && amount > 0 && !denom_format_ok(denom@) ==> ({
            &&& r matches Err(TokenFactoryError::InvalidDenom { denom: d, message })
            &&& d@ == denom@
            &&& message@ == denom_error_message(denom@)
        }),
        burn_from_address@.len() == 0 && amount > 0 && denom_format_ok(denom@) ==> ({
            &&& r matches Ok(OsmosisMsg::BurnTokens {
                denom: d,
                amount: a,
                burn_from_address: b,
            })
            &&& d@ == denom@
            &&& a == amount
            &&& b@.len() == 0
        }),
{
    if !burn_from_address.as_str().is_empty() {
        return Err(TokenFactoryError::BurnFromAddressNotSupported { address: burn_from_address });
    }
    if amount == 0 {
        return Err(TokenFactoryError::ZeroAmount);
    }
    match validate_denom(denom.as_str()) {
        Ok(_) => (),
        Err(e) => {
            return Err(e);
        },
    }
    Ok(OsmosisMsg::burn_contract_tokens(denom, amount, burn_from_address))
}

/// The full denomination the factory mints for a creator and subdenom.
pub open spec fn full_denom_of(creator: Seq<char>, subdenom: Seq<char>) -> Seq<char> {
    "factory/"@ + creator + "/"@ + subdenom
}

/// The host's minimum checks on a full denomination: total length between
/// three and 128 characters, no slash inside the creator address, the
/// subdenom at most 44 and the creator at most 75 characters long.
pub open spec fn full_denom_valid(creator: Seq<char>, subdenom: Seq<char>) -> bool {
    &&& 3 <= full_denom_of(creator, subdenom).len() <= 128
    &&& find_char(creator, '/') < 0
    &&& subdenom.len() <= 44
    &&& creator.len() <= 75
}

impl OsmosisModule {
    /// Assembles `factory/{creator}/{subdenom}` and applies the host's
    /// minimum validation checks to it.
    pub fn build_denom(&self, creator: &str, subdenom: &str) -> (r: Result<String, ContractError>)
        ensures
            match r {
                Ok(full) => full_denom_valid(creator@, subdenom@) && full@ == full_denom_of(
                    creator@,
                    subdenom@,
                ),
                Err(e) => {
                    &&& !full_denom_valid(creator@, subdenom@)
                    &&& e matches ContractError::InvalidFullDenom { full_denom }
                    &&& full_denom@ == full_denom_of(creator@, subdenom@)
                },
            },
    {
        let prefix: String = "factory/".to_owned();
        let full: String = prefix.concat(creator).concat("/").concat(subdenom);
        proof {
            assert(full@ =~= full_denom_of(creator@, subdenom@));
        }
        let len = full.as_str().unicode_len();
        if len < 3 || len > 128 || str_contains_char(creator, '/') || subdenom.unicode_len() > 44
            || creator.unicode_len() > 75 {
            return Err(ContractError::InvalidFullDenom { full_denom: full });
        }
        Ok(full)
    }
}

} // verus!
