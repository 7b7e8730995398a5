use vstd::prelude::*;

use crate::error::EError;

verus! {

/// An authenticated user: the identity verified at the transport boundary.
#[derive(Debug, Clone, Copy, PartialEq, Eq, Structural)]
pub struct AuthUser {
    pub user_id: i32,
}

/// An optionally authenticated user: `None` is an anonymous request.
#[derive(Debug, Clone, Copy)]
pub struct OptionalAuthUser(pub Option<AuthUser>);

impl OptionalAuthUser {
    /// The identity, if one was verified.
    pub fn into_option(self) -> (r: Option<AuthUser>)
        ensures
            r == self.0,
    {
        self.0
    }
}

/// The viewer identity of an optionally authenticated request.
pub open spec fn sp_viewer(o: OptionalAuthUser) -> Option<i32> {
    match o.0 {
        None => None,
        Some(u) => Some(u.user_id),
    }
}

/// The authorization header scheme, as bytes: `"Bearer "`.
pub open spec fn sp_bearer_prefix() -> Seq<u8> {
    seq![66u8, 101u8, 97u8, 114u8, 101u8, 114u8, 32u8]
}

/// Strips the `Bearer ` scheme from an authorization header, handed over as
/// bytes; a header under any other scheme is `Unauthorized`.
pub fn bearer_token(header: &Vec<u8>) -> (r: Result<Vec<u8>, EError>)
    ensures
        r is Ok <==> (header@.len() >= 7 && header@.subrange(0, 7) == sp_bearer_prefix()),
        r matches Ok(t) ==> t@ == header@.skip(7),
        r matches Err(e) ==> e is Unauthorized,
{
    let scheme: [u8; 7] = [66u8, 101u8, 97u8, 114u8, 101u8, 114u8, 32u8];
    if header.len() < 7 {
        return Err(
            EError::Unauthorized(
                String::from_str("Authorization header is using the wrong scheme"),
            ),
        );
    }
    let mut i: usize = 0;
    while i < 7
        invariant
            i <= 7,
            header@.len() >= 7,
            scheme@ == sp_bearer_prefix(),
            forall|k: int| 0 <= k < i ==> header@[k] == sp_bearer_prefix()[k],
        decreases 7 - i,
    {
        if header[i] != scheme[i] {
            proof {
                assert(header@.subrange(0, 7)[i as int] != sp_bearer_prefix()[i as int]);
            }
            return Err(
                EError::Unauthorized(
                    String::from_str("Authorization header is using the wrong scheme"),
                ),
            );
        }
        i += 1;
    }
    proof {
        assert(header@.subrange(0, 7) =~= sp_bearer_prefix());
    }
    let mut token: Vec<u8> = Vec::new();
    let mut j: usize = 7;
    while j < header.len()
        invariant
            7 <= j <= header@.len(),
            token@ == header@.subrange(7, j as int),
        decreases header@.len() - j,
    {
        token.push(header[j]);
        proof {
            assert(header@.subrange(7, j + 1 as int) =~= header@.subrange(7, j as int).push(
                header@[j as int],
            ));
        }
        j += 1;
    }
    proof {
        assert(header@.subrange(7, header@.len() as int) =~= header@.skip(7));
    }
    Ok(token)
}

impl AuthUser {
    /// Validates decoded token claims: the signing algorithm must be HS256
    /// and the expiry must not lie in the past, measured against the
    /// caller's clock reading `now`.
    pub fn from_claims(user_id: i32, exp: i64, alg_is_hs256: bool, now: i64) -> (r: Result<
        AuthUser,
        EError,
    >)
        ensures
            r is Ok <==> (alg_is_hs256 && exp >= now),
            r matches Ok(u) ==> u.user_id == user_id,
            r matches Err(e) ==> e is Unauthorized,
    {
        if !alg_is_hs256 {
            return Err(EError::Unauthorized(String::from_str("JWT is using the wrong algorithm")));
        }
        if exp < now {
            return Err(EError::Unauthorized(String::from_str("JWT is expired")));
        }
        Ok(AuthUser { user_id })
    }
}

} // verus!
