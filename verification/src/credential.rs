//! The credential verifier: a password checked against its Argon2i hash,
//! then the second factor, then the account's status.

use vstd::prelude::*;
use vstd::string::StringExecFns;
use crate::handlers::Error;
use crate::otp::{accepted, accepts};

verus! {

/// The length of a hash, in bytes.
pub const HASH_LENGTH: usize = 32;

/// The longest password or salt that Argon2 takes, in bytes.
pub const MAX_INPUT: usize = 0xffff_ffff;

/// The shortest salt that Argon2 takes, in bytes.
pub const MIN_SALT: usize = 8;

/// The Argon2i hash of 32 bytes of `password` with `salt`, without secret
/// key or associated data, as the `argon2rs` crate computes it.
pub uninterp spec fn argon2i_digest(
    passes: u32,
    lanes: u32,
    kib: u32,
    password: Seq<u8>,
    salt: Seq<u8>,
) -> Seq<u8>;

/// The cost parameters that `argon2rs` takes: at least one pass, between 1
/// and 2^24 - 1 lanes, and at least 8 KiB for each lane.
pub open spec fn params_accepted(passes: u32, lanes: u32, kib: u32) -> bool {
    1 <= passes && 1 <= lanes <= 0xff_ffff && kib >= 8 * lanes
}

/// The bytes of one lane of the block matrix: the blocks of 1 KiB that each
/// lane gets, a multiple of four.
pub open spec fn lane_bytes(lanes: u32, kib: u32) -> int {
    if lanes == 0 {
        0
    } else {
        (kib as int / (4 * lanes)) * 4096
    }
}

/// `argon2rs::Argon2::new` with the variant Argon2i, then `hash` into the
/// crate's default length of 32 bytes, with an empty key and no associated
/// data. `new` refuses the cost parameters exactly where `params_accepted`
/// says. `hash` panics on a salt of under 8 bytes and on inputs of 2^32
/// bytes or more, and it allocates each lane in one piece, which panics
/// where a lane is larger than can be addressed; `requires` leaves these
/// out. Whether the machine has the memory and the threads is no input.
#[verifier::external_body]
fn argon2i(passes: u32, lanes: u32, kib: u32, password: &[u8], salt: &[u8]) -> (r: Option<Vec<u8>>)
    requires
        lane_bytes(lanes, kib) <= usize::MAX / 2,
        password@.len() <= MAX_INPUT,
        MIN_SALT <= salt@.len() <= MAX_INPUT,
    ensures
        r is Some <==> params_accepted(passes, lanes, kib),
        r matches Some(hash) ==> hash@ == argon2i_digest(passes, lanes, kib, password@, salt@)
            && hash@.len() == HASH_LENGTH,
{
    match argon2rs::Argon2::new(passes, lanes, kib, argon2rs::Variant::Argon2i) {
        Ok(hasher) => {
            let mut out = vec![0u8; argon2rs::defaults::LENGTH];
            hasher.hash(&mut out, password, salt, &[], &[]);
            Some(out)
        },
        Err(_) => None,
    }
}

/// `argon2rs::verifier::constant_eq`: whether the two byte strings are
/// equal, found without stopping at the first difference.
#[verifier::external_body]
fn constant_eq(xs: &[u8], ys: &[u8]) -> (r: bool)
    ensures
        r == (xs@ == ys@),
{
    argon2rs::verifier::constant_eq(xs, ys)
}

/// The cost of a hash.
#[derive(Debug, PartialEq, Eq, Clone, Copy)]
pub struct HashParams {
    passes: u32,
    lanes: u32,
    kib: u32,
}

/// The cost parameters that this library works with: those `argon2rs`
/// takes, with lanes that the machine can address.
pub open spec fn params_in_range(passes: u32, lanes: u32, kib: u32) -> bool {
    params_accepted(passes, lanes, kib) && lane_bytes(lanes, kib) <= usize::MAX / 2
}

impl HashParams {
    #[verifier::type_invariant]
    spec fn well_formed(&self) -> bool {
        params_in_range(self.passes, self.lanes, self.kib)
    }

    pub closed spec fn spec_passes(&self) -> u32 {
        self.passes
    }

    pub closed spec fn spec_lanes(&self) -> u32 {
        self.lanes
    }

    pub closed spec fn spec_kib(&self) -> u32 {
        self.kib
    }

    /// Cost parameters; those out of range are refused as malformed `params`.
    pub fn new(passes: u32, lanes: u32, kib: u32) -> (r: Result<HashParams, Error>)
        ensures
            match r {
                Ok(p) => params_in_range(passes, lanes, kib) && p.spec_passes() == passes
                    && p.spec_lanes() == lanes && p.spec_kib() == kib,
                Err(e) => !params_in_range(passes, lanes, kib) && (e matches Error::ValidationError {
                    field,
                } && field@ == "params"@),
            },
    {
        if passes >= 1 && lanes >= 1 && lanes <= 0xff_ffff && kib >= 8 * lanes && (kib as u64 / (4
            * lanes as u64)) * 4096 <= (usize::MAX / 2) as u64 {
            Ok(HashParams { passes, lanes, kib })
        } else {
            Err(Error::ValidationError { field: String::from_str("params") })
        }
    }

    /// The number of passes.
    pub fn passes(&self) -> (r: u32)
        ensures
            r == self.spec_passes(),
    {
        self.passes
    }

    /// The number of lanes.
    pub fn lanes(&self) -> (r: u32)
        ensures
            r == self.spec_lanes(),
    {
        self.lanes
    }

    /// The memory, in KiB.
    pub fn kib(&self) -> (r: u32)
        ensures
            r == self.spec_kib(),
    {
        self.kib
    }
}

/// A stored secret: its hash, and the salt and cost it was hashed with.
#[derive(Debug, PartialEq, Eq)]
pub struct Credential {
    hash: Vec<u8>,
    salt: Vec<u8>,
    params: HashParams,
}

/// The hash of `secret` under a salt and a cost.
pub open spec fn hash_of(params: HashParams, salt: Seq<u8>, secret: Seq<u8>) -> Seq<u8> {
    argon2i_digest(params.spec_passes(), params.spec_lanes(), params.spec_kib(), secret, salt)
}

impl Credential {
    #[verifier::type_invariant]
    spec fn well_formed(&self) -> bool {
        MIN_SALT <= self.salt@.len() <= MAX_INPUT
    }

    pub closed spec fn spec_hash(&self) -> Seq<u8> {
        self.hash@
    }

    pub closed spec fn spec_salt(&self) -> Seq<u8> {
        self.salt@
    }

    pub closed spec fn spec_params(&self) -> HashParams {
        self.params
    }

    /// Whether `secret` is the secret of this credential: short enough to be
    /// hashed, and with a hash equal to the stored one.
    pub open spec fn opened_by(&self, secret: Seq<u8>) -> bool {
        secret.len() <= MAX_INPUT && hash_of(self.spec_params(), self.spec_salt(), secret)
            == self.spec_hash()
    }

    /// A credential as it is stored. A salt of under 8 bytes, or of 2^32
    /// bytes or more, is refused as a malformed `salt`.
    pub fn from_parts(hash: Vec<u8>, salt: Vec<u8>, params: HashParams) -> (r: Result<
        Credential,
        Error,
    >)
        ensures
            match r {
                Ok(c) => MIN_SALT <= salt@.len() <= MAX_INPUT && c.spec_hash() == hash@
                    && c.spec_salt() == salt@ && c.spec_params() == params,
                Err(e) => !(MIN_SALT <= salt@.len() <= MAX_INPUT) && (
                e matches Error::ValidationError { field } && field@ == "salt"@),
            },
    {
        if salt.len() < MIN_SALT || salt.len() > MAX_INPUT {
            Err(Error::ValidationError { field: String::from_str("salt") })
        } else {
            Ok(Credential { hash, salt, params })
        }
    }

    /// Hashes a new secret. A salt out of range is refused as a malformed
    /// `salt`, a secret of 2^32 bytes or more as a malformed `password`.
    pub fn derive(secret: &[u8], salt: Vec<u8>, params: HashParams) -> (r: Result<Credential, Error>)
        ensures
            match r {
                Ok(c) => MIN_SALT <= salt@.len() <= MAX_INPUT && secret@.len() <= MAX_INPUT
                    && c.spec_salt() == salt@ && c.spec_params() == params && c.spec_hash()
                    == hash_of(params, salt@, secret@) && c.opened_by(secret@),
                Err(e) => e matches Error::ValidationError { field } && if !(MIN_SALT
                    <= salt@.len() <= MAX_INPUT) {
                    field@ == "salt"@
                } else {
                    secret@.len() > MAX_INPUT && field@ == "password"@
                },
            },
    {
        proof {
            use_type_invariant(params);
        }
        if salt.len() < MIN_SALT || salt.len() > MAX_INPUT {
            return Err(Error::ValidationError { field: String::from_str("salt") });
        }
        if secret.len() > MAX_INPUT {
            return Err(Error::ValidationError { field: String::from_str("password") });
        }
        match argon2i(params.passes, params.lanes, params.kib, secret, salt.as_slice()) {
            Some(hash) => Ok(Credential { hash, salt, params }),
            None => Err(Error::ValidationError { field: String::from_str("password") }),
        }
    }

    /// The stored hash.
    pub fn hash(&self) -> (r: &Vec<u8>)
        ensures
            r@ == self.spec_hash(),
    {
        &self.hash
    }

    /// Checks a presented secret: hashes it with the stored salt and cost
    /// and compares the hashes without stopping at the first difference.
    pub fn matches(&self, secret: &[u8]) -> (r: bool)
        ensures
            r == self.opened_by(secret@),
    {
        proof {
            use_type_invariant(self);
            use_type_invariant(self.params);
        }
        if secret.len() > MAX_INPUT {
            return false;
        }
        match argon2i(
            self.params.passes,
            self.params.lanes,
            self.params.kib,
            secret,
            self.salt.as_slice(),
        ) {
            Some(hash) => constant_eq(hash.as_slice(), self.hash.as_slice()),
            None => false,
        }
    }
}

/// Whether an account may sign in.
#[derive(Debug, PartialEq, Eq, Clone, Copy)]
pub enum AccountStatus {
    Active,
    Disabled,
}

/// An account, as the identity store holds it.
#[derive(Debug)]
pub struct Account {
    pub id: String,
    pub credential: Credential,
    /// The secret of the second factor, where the account has one.
    pub second_factor: Option<Vec<u8>>,
    pub status: AccountStatus,
}

/// What the verifier answers: the account's identifier, or the first check
/// that failed. The password is checked first, then the second factor, and
/// the account's status last, so that only who holds the credentials learns
/// that an account is disabled.
pub open spec fn authentication(
    account: Option<Account>,
    password: Seq<u8>,
    code: Option<u32>,
    now: u64,
) -> Result<Seq<char>, Error> {
    match account {
        None => Err(Error::AccountNotFound),
        Some(a) => if !a.credential.opened_by(password) {
            Err(Error::BadCredential)
        } else if a.second_factor is Some && code is None {
            Err(Error::SecondFactorRequired)
        } else if a.second_factor is Some && !accepted(
            a.second_factor->Some_0@,
            code->Some_0,
            now,
        ) {
            Err(Error::BadSecondFactor)
        } else if a.status == AccountStatus::Disabled {
            Err(Error::AccountDisabled)
        } else {
            Ok(a.id@)
        },
    }
}

/// Verifies what an account holder presents: the password, and the
/// second-factor code where the account has a second factor. `account` is
/// what the identity store holds under the presented identifier.
pub fn verify(account: Option<&Account>, password: &[u8], code: Option<u32>, now: u64) -> (r: Result<
    String,
    Error,
>)
    ensures
        match r {
            Ok(id) => authentication(
                match account {
                    Some(a) => Some(*a),
                    None => None,
                },
                password@,
                code,
                now,
            ) == Ok::<Seq<char>, Error>(id@),
            Err(e) => authentication(
                match account {
                    Some(a) => Some(*a),
                    None => None,
                },
                password@,
                code,
                now,
            ) == Err::<Seq<char>, Error>(e),
        },
{
    let a = match account {
        None => {
            return Err(Error::AccountNotFound);
        },
        Some(a) => a,
    };
    if !a.credential.matches(password) {
        return Err(Error::BadCredential);
    }
    match &a.second_factor {
        Some(secret) => {
            match code {
                None => {
                    return Err(Error::SecondFactorRequired);
                },
                Some(c) => {
                    if !accepts(secret, c, now) {
                        return Err(Error::BadSecondFactor);
                    }
                },
            }
        },
        None => {},
    }
    match a.status {
        AccountStatus::Disabled => Err(Error::AccountDisabled),
        AccountStatus::Active => Ok(a.id.clone()),
    }
}

} // verus!
