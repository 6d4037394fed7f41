use vstd::prelude::*;

verus! {

/// How long an issued token stays valid, in seconds.
pub const TOKEN_VALIDITY_SECS: usize = 1800;

/// The clock, in whole seconds since the Unix epoch.
///
/// Reads `chrono::Utc::now().timestamp()`, which panics on a system clock
/// set before the epoch. Nothing is claimed of the value.
#[verifier::external_body]
pub(crate) fn unix_now() -> (r: usize) {
    chrono::Utc::now().timestamp() as usize
}

/// The signed payload of a token.
#[derive(Debug)]
pub struct Claims {
    /// Username
    pub sub: String,
    /// Expiration
    pub exp: usize,
}

impl Clone for Claims {
    fn clone(&self) -> (r: Self)
        ensures
            r == *self,
    {
        Claims { sub: self.sub.clone(), exp: self.exp }
    }
}

impl Claims {
    /// The expiry of a token issued at `now`: half an hour later, wrapping
    /// at the machine's word size.
    pub open spec fn expiry_after(now: usize) -> usize {
        if now + TOKEN_VALIDITY_SECS <= usize::MAX {
            (now + TOKEN_VALIDITY_SECS) as usize
        } else {
            (now + TOKEN_VALIDITY_SECS - usize::MAX - 1) as usize
        }
    }

    /// Whether a token bearing these claims is past its validity at `now`.
    pub open spec fn expired_at(self, now: usize) -> bool {
        self.exp < now
    }

    /// Claims for `username`, issued at the second `now`.
    pub fn issued_at(username: String, now: usize) -> (r: Self)
        ensures
            r.sub == username,
            r.exp == Self::expiry_after(now),
    {
        Claims { sub: username, exp: now.wrapping_add(TOKEN_VALIDITY_SECS) }
    }

    /// Claims for `username`, issued now.
    pub fn new(username: String) -> (r: Self)
        ensures
            r.sub == username,
    {
        Claims::issued_at(username, unix_now())
    }

    pub fn is_expired_at(&self, now: usize) -> (r: bool)
        ensures
            r == self.expired_at(now),
    {
        self.exp < now
    }
}

/// A token is past its validity at every moment later than half an hour
/// after it was issued; in particular thirty-one minutes after.
pub proof fn lemma_validity_window(username: String, issued: usize, now: usize)
    requires
        issued + TOKEN_VALIDITY_SECS <= usize::MAX,
    ensures
        (Claims { sub: username, exp: Claims::expiry_after(issued) }).expired_at(now) <==> now
            > issued + TOKEN_VALIDITY_SECS,
        now >= issued + 31 * 60 ==> (Claims {
            sub: username,
            exp: Claims::expiry_after(issued),
        }).expired_at(now),
{
}

} // verus!
