//! Account management decisions: building account records (passwords and
//! salts are stored as digests, never in the clear), keying them in the
//! store, and interpreting what the store returned. The store itself is an
//! external collaborator driven by the caller.

use vstd::prelude::*;
use vstd::string::StringExecFns;
use vstd::string::StringSliceAdditionalSpecFns;

use crate::error::ErrorCode;
use crate::error::ErrorKind;

verus! {

/// The digest of a byte string under the fixed 256-bit hash.
pub uninterp spec fn sha256_of(data: Seq<u8>) -> Seq<u8>;

/// Relies on sha2's `Sha256::digest`: a 32-byte digest that depends on the
/// input bytes alone.
#[verifier::external_body]
fn sha256_digest(data: &[u8]) -> (r: Vec<u8>)
    ensures
        r@ == sha256_of(data@),
        r@.len() == 32,
{
    <sha2::Sha256 as sha2::Digest>::digest(data).to_vec()
}

/// A stored account record: the name, and the digests of password and
/// salt.
#[derive(Debug)]
pub struct UserInfo {
    pub name: String,
    pub password_sha256: Vec<u8>,
    pub salt_sha256: Vec<u8>,
}

impl UserInfo {
    /// Both digests are full 256-bit values.
    pub open spec fn wf(&self) -> bool {
        self.password_sha256@.len() == 32 && self.salt_sha256@.len() == 32
    }

    /// A fresh record: password and salt are digested immediately.
    pub fn create(name: &str, password: &str, salt: &str) -> (r: UserInfo)
        ensures
            r.wf(),
            r.name@ == name@,
            r.password_sha256@ == sha256_of(password.spec_bytes()),
            r.salt_sha256@ == sha256_of(salt.spec_bytes()),
    {
        UserInfo {
            name: name.to_owned(),
            password_sha256: sha256_digest(password.as_bytes()),
            salt_sha256: sha256_digest(salt.as_bytes()),
        }
    }
}

/// The store key of an account: the reserved prefix plus the name.
pub fn prepend(username: &str) -> (r: String)
    ensures
        r@ == "__fd_users/"@ + username@,
{
    let mut key = String::from_str("__fd_users/");
    key.append(username);
    key
}

/// The account manager: decision logic around a key-value store handle.
/// The handle is only driven by the surrounding (asynchronous) layer; the
/// decisions below are pure.
pub struct UserMgr<KV> {
    pub kv_api: KV,
}

impl<KV> UserMgr<KV> {
    pub fn new(kv_api: KV) -> (r: Self)
        ensures
            r.kv_api == kv_api,
    {
        UserMgr { kv_api }
    }
}


/// The decimal digit character for a value below ten.
pub open spec fn spec_digit(d: int) -> char {
    if d == 0 {
        '0'
    } else if d == 1 {
        '1'
    } else if d == 2 {
        '2'
    } else if d == 3 {
        '3'
    } else if d == 4 {
        '4'
    } else if d == 5 {
        '5'
    } else if d == 6 {
        '6'
    } else if d == 7 {
        '7'
    } else if d == 8 {
        '8'
    } else {
        '9'
    }
}

/// The decimal rendering of a non-negative number, most significant
/// digit first.
pub open spec fn spec_decimal(n: int) -> Seq<char>
    decreases n,
{
    if n < 0 {
        Seq::empty()
    } else if n < 10 {
        seq![spec_digit(n)]
    } else {
        spec_decimal(n / 10) + seq![spec_digit(n % 10)]
    }
}

/// The one-character string of a decimal digit.
fn digit_str(d: u64) -> (r: &'static str)
    requires
        d < 10,
    ensures
        r@ == seq![spec_digit(d as int)],
{
    if d == 0 {
        proof {
            reveal_strlit("0");
            assert("0"@ =~= seq![spec_digit(0int)]);
        }
        "0"
    } else if d == 1 {
        proof {
            reveal_strlit("1");
            assert("1"@ =~= seq![spec_digit(1int)]);
        }
        "1"
    } else if d == 2 {
        proof {
            reveal_strlit("2");
            assert("2"@ =~= seq![spec_digit(2int)]);
        }
        "2"
    } else if d == 3 {
        proof {
            reveal_strlit("3");
            assert("3"@ =~= seq![spec_digit(3int)]);
        }
        "3"
    } else if d == 4 {
        proof {
            reveal_strlit("4");
            assert("4"@ =~= seq![spec_digit(4int)]);
        }
        "4"
    } else if d == 5 {
        proof {
            reveal_strlit("5");
            assert("5"@ =~= seq![spec_digit(5int)]);
        }
        "5"
    } else if d == 6 {
        proof {
            reveal_strlit("6");
            assert("6"@ =~= seq![spec_digit(6int)]);
        }
        "6"
    } else if d == 7 {
        proof {
            reveal_strlit("7");
            assert("7"@ =~= seq![spec_digit(7int)]);
        }
        "7"
    } else if d == 8 {
        proof {
            reveal_strlit("8");
            assert("8"@ =~= seq![spec_digit(8int)]);
        }
        "8"
    } else {
        proof {
            reveal_strlit("9");
            assert("9"@ =~= seq![spec_digit(9int)]);
        }
        "9"
    }
}

/// Appends the decimal rendering of a number.
fn append_decimal(s: &mut String, n: u64)
    ensures
        final (s)@ == old(s)@ + spec_decimal(n as int),
    decreases n,
{
    if n < 10 {
        s.append(digit_str(n));
    } else {
        append_decimal(s, n / 10);
        s.append(digit_str(n % 10));
        proof {
            assert(final (s)@ =~= old(s)@ + spec_decimal(n as int));
        }
    }
}

/// Interprets an insert-if-absent outcome (previous value, written value):
/// a clean insert yields the new sequence number, an existing record is a
/// duplicate-user error, and any other combination cannot come from a
/// correct store.
pub fn add_user_result(prev: Option<(u64, Vec<u8>)>, result: Option<(u64, Vec<u8>)>) -> (r: Result<
    u64,
    ErrorCode,
>)
    ensures
        match r {
            Ok(s) => prev is None && (result matches Some(p) && p.0 == s),
            Err(e) => ((prev matches Some(p) && result is None && e.kind
                == ErrorKind::UserAlreadyExists && e.message@ == "user already exists, seq ["@
                + spec_decimal(p.0 as int) + "]"@)) || (prev is Some && result is Some && e.kind
                == ErrorKind::UnknownException) || (prev is None && result is None && e.kind
                == ErrorKind::UnknownException),
        },
{
    match (prev, result) {
        (Option::None, Option::Some((s, _))) => Ok(s),
        (Option::Some((s, _)), Option::None) => {
            let mut m = String::from_str("user already exists, seq [");
            append_decimal(&mut m, s);
            m.append("]");
            proof {
                assert(m@ =~= "user already exists, seq ["@ + spec_decimal(s as int) + "]"@);
            }
            Err(ErrorCode::new(ErrorKind::UserAlreadyExists, m))
        },
        _ => Err(
            ErrorCode::new(ErrorKind::UnknownException, String::from_str("upsert result not expected")),
        ),
    }
}

/// Selects the stored record for a name: present and matching the
/// requested sequence number (when one is requested), else unknown-user.
pub fn get_user_match(username: &str, seq: Option<u64>, value: Option<(u64, Vec<u8>)>) -> (r:
    Result<(u64, Vec<u8>), ErrorCode>)
    ensures
        match r {
            Ok(p) => (value matches Some(v) && v.0 == p.0 && v.1 == p.1) && (match seq {
                Option::Some(s) => s == p.0,
                Option::None => true,
            }),
            Err(e) => e.kind == ErrorKind::UnknownUser && e.message@ == "unknown user "@
                + username@ && (match value {
                Option::Some(v) => (seq matches Some(s) && s != v.0),
                Option::None => true,
            }),
        },
{
    match value {
        Option::Some((s, val)) => {
            match seq {
                Option::None => Ok((s, val)),
                Option::Some(want) => {
                    if want == s {
                        Ok((s, val))
                    } else {
                        Err(unknown_user_error(username))
                    }
                },
            }
        },
        Option::None => Err(unknown_user_error(username)),
    }
}

/// Collects decoded records, failing on the first record the surrounding
/// layer could not decode.
pub fn collect_users(values: Vec<(u64, Option<UserInfo>)>) -> (r: Result<
    Vec<(u64, UserInfo)>,
    ErrorCode,
>)
    ensures
        match r {
            Ok(out) => {
                &&& out@.len() == values@.len()
                &&& forall|i: int|
                    0 <= i < out@.len() ==> (#[trigger] values@[i]).1 is Some
                &&& forall|i: int|
                    0 <= i < out@.len() ==> (#[trigger] out@[i]).0 == values@[i].0 && (
                    values@[i].1 matches Some(u) && out@[i].1 == u)
            },
            Err(e) => e.kind == ErrorKind::IllegalUserInfoFormat && (exists|i: int|
                0 <= i < values@.len() && (#[trigger] values@[i]).1 is None),
        },
{
    let n = values.len();
    let mut i: usize = 0;
    while i < n
        invariant
            n == values@.len(),
            i <= n,
            forall|t: int| 0 <= t < i ==> (#[trigger] values@[t]).1 is Some,
        decreases n - i,
    {
        if values[i].1.is_none() {
            return Err(
                ErrorCode::new(
                    ErrorKind::IllegalUserInfoFormat,
                    String::from_str("A stored account record could not be decoded"),
                ),
            );
        }
        i += 1;
    }
    let ghost origin = values@;
    let mut rest = values;
    let mut out: Vec<(u64, UserInfo)> = Vec::new();
    while rest.len() > 0
        invariant
            origin.len() == out@.len() + rest@.len(),
            rest@ =~= origin.skip(out@.len() as int),
            forall|t: int| 0 <= t < origin.len() ==> (#[trigger] origin[t]).1 is Some,
            forall|t: int| 0 <= t < out@.len() ==> (#[trigger] origin[t]).1 is Some,
            forall|t: int|
                0 <= t < out@.len() ==> (#[trigger] out@[t]).0 == origin[t].0 && (origin[t].1
                    matches Some(u) && out@[t].1 == u),
        decreases rest@.len(),
    {
        let ghost gi = out@.len() as int;
        let (s, u) = rest.remove(0);
        proof {
            assert(origin.skip(gi)[0] == origin[gi]);
            assert(rest@ =~= origin.skip(gi + 1));
        }
        match u {
            Option::Some(info) => {
                out.push((s, info));
            },
            Option::None => {
                proof {
                    assert(origin[gi].1 is Some);
                    assert(false);
                }
                return Err(
                    ErrorCode::new(
                        ErrorKind::IllegalUserInfoFormat,
                        String::from_str("A stored account record could not be decoded"),
                    ),
                );
            },
        }
    }
    proof {
        assert(origin.skip(out@.len() as int).len() == 0);
    }
    Ok(out)
}


/// Collects the outcomes of a multi-name lookup: an absent name stays
/// absent, a present record must decode, and the first undecodable record
/// fails the whole call.
pub fn collect_user_lookups(values: Vec<Option<(u64, Option<UserInfo>)>>) -> (r: Result<
    Vec<Option<(u64, UserInfo)>>,
    ErrorCode,
>)
    ensures
        match r {
            Ok(out) => {
                &&& out@.len() == values@.len()
                &&& forall|i: int|
                    0 <= i < out@.len() ==> (((#[trigger] values@[i]) is None ==> out@[i] is None)
                        && (values@[i] matches Some(p) ==> (p.1 matches Some(u) && out@[i]
                        matches Some(q) && q.0 == p.0 && q.1 == u)))
            },
            Err(e) => e.kind == ErrorKind::IllegalUserInfoFormat && (exists|i: int|
                0 <= i < values@.len() && ((#[trigger] values@[i]) matches Some(p) && p.1
                    is None)),
        },
{
    let n = values.len();
    let mut i: usize = 0;
    while i < n
        invariant
            n == values@.len(),
            i <= n,
            forall|t: int|
                0 <= t < i ==> ((#[trigger] values@[t]) matches Some(p) ==> p.1 is Some),
        decreases n - i,
    {
        match &values[i] {
            Option::Some((_, u)) => {
                if u.is_none() {
                    proof {
                        assert((values@[i as int] matches Some(p) && p.1 is None));
                    }
                    return Err(
                        ErrorCode::new(
                            ErrorKind::IllegalUserInfoFormat,
                            String::from_str("A stored account record could not be decoded"),
                        ),
                    );
                }
            },
            Option::None => {},
        }
        i += 1;
    }
    let ghost origin = values@;
    let mut rest = values;
    let mut out: Vec<Option<(u64, UserInfo)>> = Vec::new();
    while rest.len() > 0
        invariant
            origin.len() == out@.len() + rest@.len(),
            rest@ =~= origin.skip(out@.len() as int),
            forall|t: int|
                0 <= t < origin.len() ==> ((#[trigger] origin[t]) matches Some(p) ==> p.1
                    is Some),
            forall|t: int|
                0 <= t < out@.len() ==> (((#[trigger] origin[t]) is None ==> out@[t] is None) && (
                origin[t] matches Some(p) ==> (p.1 matches Some(u) && out@[t] matches Some(q)
                    && q.0 == p.0 && q.1 == u))),
        decreases rest@.len(),
    {
        let ghost gi = out@.len() as int;
        let v = rest.remove(0);
        proof {
            assert(origin.skip(gi)[0] == origin[gi]);
            assert(rest@ =~= origin.skip(gi + 1));
        }
        match v {
            Option::Some((s, u)) => {
                match u {
                    Option::Some(info) => {
                        out.push(Option::Some((s, info)));
                    },
                    Option::None => {
                        proof {
                            assert((origin[gi] matches Some(p) && p.1 is Some));
                            assert(false);
                        }
                        return Err(
                            ErrorCode::new(
                                ErrorKind::IllegalUserInfoFormat,
                                String::from_str(
                                    "A stored account record could not be decoded",
                                ),
                            ),
                        );
                    },
                }
            },
            Option::None => {
                out.push(Option::None);
            },
        }
    }
    proof {
        assert(origin.skip(out@.len() as int).len() == 0);
    }
    Ok(out)
}

/// The replacement record for an update: fresh digests where a new
/// password or salt was supplied, the existing digests elsewhere, under
/// the requested name.
pub fn update_user_compute(
    username: &str,
    existing: UserInfo,
    new_password: Option<&str>,
    new_salt: Option<&str>,
) -> (r: UserInfo)
    ensures
        existing.wf() ==> r.wf(),
        r.name@ == username@,
        (match new_password {
            Option::Some(p) => r.password_sha256@ == sha256_of(p.spec_bytes()),
            Option::None => r.password_sha256 == existing.password_sha256,
        }),
        (match new_salt {
            Option::Some(s) => r.salt_sha256@ == sha256_of(s.spec_bytes()),
            Option::None => r.salt_sha256 == existing.salt_sha256,
        }),
{
    let password_sha256 = match new_password {
        Option::Some(p) => sha256_digest(p.as_bytes()),
        Option::None => existing.password_sha256,
    };
    let salt_sha256 = match new_salt {
        Option::Some(s) => sha256_digest(s.as_bytes()),
        Option::None => existing.salt_sha256,
    };
    UserInfo { name: username.to_owned(), password_sha256, salt_sha256 }
}

/// Whether an update call has anything to write: with neither a new
/// password nor a new salt it returns the caller's sequence unchanged.
pub fn update_user_is_noop(new_password: &Option<String>, new_salt: &Option<String>) -> (r: bool)
    ensures
        r == (new_password is None && new_salt is None),
{
    new_password.is_none() && new_salt.is_none()
}

/// Interprets a delete outcome: something was removed, or the user was
/// unknown.
pub fn drop_user_result(username: &str, removed: bool) -> (r: Result<(), ErrorCode>)
    ensures
        match r {
            Ok(_) => removed,
            Err(e) => !removed && e.kind == ErrorKind::UnknownUser && e.message@
                == "unknown user "@ + username@,
        },
{
    if removed {
        Ok(())
    } else {
        Err(unknown_user_error(username))
    }
}

/// The unknown-user error, naming the offender.
fn unknown_user_error(username: &str) -> (e: ErrorCode)
    ensures
        e.kind == ErrorKind::UnknownUser,
        e.message@ == "unknown user "@ + username@,
{
    let mut m = String::from_str("unknown user ");
    m.append(username);
    ErrorCode::new(ErrorKind::UnknownUser, m)
}

} // verus!
