use crate::auth::claims::{unix_now, Claims};
use crate::auth::errors::AuthError;
use crate::auth::jwt::{signed, JwtProcessor};
use crate::auth::password::{digest_matches, hash_password, password_bytes, verify_password};
use crate::dto::user::{UserCreateDTO, UserDTO, UserLoginEmailDTO, UserLoginUsernameDTO};
use crate::entities::user::User;
use crate::errors::CoreError;
use crate::repositories::fresh_id;
use crate::repositories::user::{email_taken, username_taken, UserRepo};
use crate::services::require_found;
use vstd::prelude::*;

verus! {

/// The outcome of a login attempt: the user, when one was found and the
/// password was verified against its digest. Every other case is the same
/// failure.
pub open spec fn verdict(found: Option<User>, verified: bool) -> Result<User, CoreError> {
    match found {
        Some(user) => if verified {
            Ok(user)
        } else {
            Err(CoreError::AuthError(AuthError::WrongCredentials))
        },
        None => Err(CoreError::AuthError(AuthError::WrongCredentials)),
    }
}

/// Some stored user named `username` has a digest that accepts `password`.
pub open spec fn username_admits(rows: Map<u128, User>, username: Seq<char>, password: Seq<char>) -> bool {
    exists|id: u128|
        rows.contains_key(id) && (#[trigger] rows[id]).username@ == username && digest_matches(
            password_bytes(password),
            rows[id].password@,
        )
}

/// Some stored user with the address `email` has a digest that accepts
/// `password`.
pub open spec fn email_admits(rows: Map<u128, User>, email: Seq<char>, password: Seq<char>) -> bool {
    exists|id: u128|
        rows.contains_key(id) && (#[trigger] rows[id]).email@ == email && digest_matches(
            password_bytes(password),
            rows[id].password@,
        )
}

/// `token` is what `processor` signs for the subject `sub` with an expiry
/// half an hour after some moment.
pub open spec fn issued_to(processor: JwtProcessor, sub: Seq<char>, token: Seq<char>) -> bool {
    exists|now: usize|
        signed(sub, #[trigger] Claims::expiry_after(now), processor.encoding_key()) == Some(token)
}

/// `processor` cannot sign for the subject `sub` at some moment.
pub open spec fn refused_to(processor: JwtProcessor, sub: Seq<char>) -> bool {
    exists|now: usize|
        signed(sub, #[trigger] Claims::expiry_after(now), processor.encoding_key()) is None
}

/// `processor` cannot sign for the name of a stored user with the address
/// `email` whose digest accepts `password`.
pub open spec fn refused_by_email(
    rows: Map<u128, User>,
    email: Seq<char>,
    password: Seq<char>,
    processor: JwtProcessor,
) -> bool {
    exists|id: u128|
        rows.contains_key(id) && (#[trigger] rows[id]).email@ == email && digest_matches(
            password_bytes(password),
            rows[id].password@,
        ) && refused_to(processor, rows[id].username@)
}

/// `token` is issued to the name of a stored user with the address `email`
/// whose digest accepts `password`.
pub open spec fn issued_by_email(
    rows: Map<u128, User>,
    email: Seq<char>,
    password: Seq<char>,
    processor: JwtProcessor,
    token: Seq<char>,
) -> bool {
    exists|id: u128|
        rows.contains_key(id) && (#[trigger] rows[id]).email@ == email && digest_matches(
            password_bytes(password),
            rows[id].password@,
        ) && issued_to(processor, rows[id].username@, token)
}

/// Decides a login attempt from what the lookup found and what the
/// verification of the password answered.
pub fn login_verdict(found: Option<User>, verified: bool) -> (r: Result<User, CoreError>)
    ensures
        r == verdict(found, verified),
{
    match found {
        Some(user) => {
            if verified {
                Ok(user)
            } else {
                Err(CoreError::AuthError(AuthError::WrongCredentials))
            }
        },
        None => Err(CoreError::AuthError(AuthError::WrongCredentials)),
    }
}

/// A login with an unknown identifier and a login with a wrong password
/// fail alike: nothing in the failure tells which of the two it was.
pub proof fn lemma_login_failures_alike(user: User, verified: bool)
    ensures
        verdict(None, verified) == verdict(Some(user), false),
        verdict(None, verified) == Err::<User, CoreError>(
            CoreError::AuthError(AuthError::WrongCredentials),
        ),
{
}

/// Checks `password` against the digest of the user that a lookup found.
pub fn authenticate(found: Option<User>, password: String) -> (r: Result<User, CoreError>)
    ensures
        r == verdict(
            found,
            found matches Some(user) && digest_matches(
                password_bytes(password@),
                user.password@,
            ),
        ),
{
    match found {
        None => login_verdict(None, false),
        Some(user) => {
            let verified = verify_password(password, user.password.clone()).is_ok();
            login_verdict(Some(user), verified)
        },
    }
}

/// The claims a token for `user` carries when it is issued at the second
/// `now`: the subject is the user's name, whichever way the user was found,
/// and the token expires half an hour later.
pub fn login_claims(user: &User, now: usize) -> (c: Claims)
    ensures
        c.sub == user.username,
        c.exp == Claims::expiry_after(now),
{
    Claims::issued_at(user.username.clone(), now)
}

/// What a login is worth once the user is admitted: the signed token, or
/// the failure that signing reported.
pub open spec fn sealed(signed: Result<String, AuthError>) -> Result<String, CoreError> {
    match signed {
        Ok(token) => Ok(token),
        Err(e) => Err(CoreError::AuthError(e)),
    }
}

/// Hands the token of an admitted user on; a failure to sign is reported as
/// the signing reported it.
pub fn token_outcome(signed: Result<String, AuthError>) -> (r: Result<String, CoreError>)
    ensures
        r == sealed(signed),
{
    match signed {
        Ok(token) => Ok(token),
        Err(e) => Err(CoreError::AuthError(e)),
    }
}

/// The record of a new user: what was asked for, under the identifier `id`
/// and with the digest `digest` in the place of the password.
pub fn new_user(id: u128, data: UserCreateDTO, digest: String) -> (r: User)
    ensures
        r == (User { id, username: data.username, email: data.email, password: digest }),
{
    User { id, username: data.username, email: data.email, password: digest }
}

/// Refuses with `taken` when a lookup found a user.
pub fn ensure_unused(found: &Option<User>, taken: AuthError) -> (r: Result<(), CoreError>)
    ensures
        r == if found is Some {
            Err::<(), CoreError>(CoreError::AuthError(taken))
        } else {
            Ok::<(), CoreError>(())
        },
{
    match found {
        Some(_) => Err(CoreError::AuthError(taken)),
        None => Ok(()),
    }
}

/// The rules of accounts: names and addresses are unique, and a failed
/// login does not tell why it failed.
#[derive(Clone)]
pub struct UserService<R: UserRepo> {
    repo: R,
    jwt_processor: JwtProcessor,
}

impl<R: UserRepo> UserService<R> {
    /// The stored users by identifier.
    pub closed spec fn rows(&self) -> Map<u128, User> {
        self.repo.rows()
    }

    /// The processor that signs the tokens of this service.
    pub closed spec fn processor(&self) -> JwtProcessor {
        self.jwt_processor
    }

    pub fn new(repo: R, jwt_processor: JwtProcessor) -> (r: Self)
        ensures
            r.rows() == repo.rows(),
            r.processor() == jwt_processor,
    {
        Self { repo, jwt_processor }
    }

    /// Stores a new user under a digest of its password. A name or an
    /// address that is in use refuses the request before anything is
    /// written.
    pub fn register(&mut self, data: UserCreateDTO) -> (r: Result<UserDTO, CoreError>)
        ensures
            username_taken(old(self).rows(), data.username@) || email_taken(
                old(self).rows(),
                data.email@,
            ) ==> r is Err && final(self).rows() == old(self).rows(),
            r matches Err(e) ==> {
                ||| e is Database
                ||| e == CoreError::AuthError(AuthError::UsernameOccupied) && username_taken(
                    old(self).rows(),
                    data.username@,
                )
                ||| e == CoreError::AuthError(AuthError::EmailExists) && email_taken(
                    old(self).rows(),
                    data.email@,
                ) && !username_taken(old(self).rows(), data.username@)
                ||| e == CoreError::ServerError && !username_taken(
                    old(self).rows(),
                    data.username@,
                ) && !email_taken(old(self).rows(), data.email@)
            },
            r matches Err(e) ==> e is Database || final(self).rows() == old(self).rows(),
            final(self).processor() == old(self).processor(),
            r matches Ok(dto) ==> {
                &&& dto.username == data.username
                &&& dto.email == data.email
                &&& !old(self).rows().contains_key(dto.id)
                &&& digest_matches(
                    password_bytes(data.password@),
                    final(self).rows()[dto.id].password@,
                )
                &&& final(self).rows().contains_key(dto.id)
                &&& UserDTO::of(final(self).rows()[dto.id]) == dto
                &&& final(self).rows() == old(self).rows().insert(
                    dto.id,
                    final(self).rows()[dto.id],
                )
            },
    {
        let by_name = match self.repo.find_one_by_username(data.username.clone()) {
            Err(e) => return Err(e),
            Ok(found) => found,
        };
        match ensure_unused(&by_name, AuthError::UsernameOccupied) {
            Err(e) => return Err(e),
            Ok(()) => {},
        }
        let by_email = match self.repo.find_one_by_email(data.email.clone()) {
            Err(e) => return Err(e),
            Ok(found) => found,
        };
        match ensure_unused(&by_email, AuthError::EmailExists) {
            Err(e) => return Err(e),
            Ok(()) => {},
        }
        let password = match hash_password(data.password.as_str().as_bytes()) {
            Err(_) => return Err(CoreError::ServerError),
            Ok(password) => password,
        };
        let id = fresh_id();
        let user = new_user(id, data, password);
        match self.repo.create(user) {
            Err(e) => return Err(e),
            Ok(()) => {},
        }
        self.find_one(id)
    }

    pub fn find_one(&self, id: u128) -> (r: Result<UserDTO, CoreError>)
        ensures
            !self.rows().contains_key(id) ==> r is Err,
            r matches Err(e) ==> e is Database || (e == CoreError::NotFound
                && !self.rows().contains_key(id)),
            r matches Ok(dto) ==> self.rows().contains_key(id) && dto == UserDTO::of(
                self.rows()[id],
            ) && dto.id == id,
    {
        let found = match self.repo.find_one(id) {
            Err(e) => return Err(e),
            Ok(found) => found,
        };
        match require_found(found) {
            Err(e) => Err(e),
            Ok(user) => Ok(UserDTO::from(user)),
        }
    }

    pub fn find_one_by_username(&self, username: String) -> (r: Result<UserDTO, CoreError>)
        ensures
            !username_taken(self.rows(), username@) ==> r is Err,
            r matches Err(e) ==> e is Database || (e == CoreError::NotFound && !username_taken(
                self.rows(),
                username@,
            )),
            r matches Ok(dto) ==> self.rows().contains_key(dto.id) && dto == UserDTO::of(
                self.rows()[dto.id],
            ) && dto.username@ == username@,
    {
        let found = match self.repo.find_one_by_username(username) {
            Err(e) => return Err(e),
            Ok(found) => found,
        };
        match require_found(found) {
            Err(e) => Err(e),
            Ok(user) => Ok(UserDTO::from(user)),
        }
    }

    /// A token for the user named `data.username`. Whether the name is
    /// unknown or the password is wrong, the failure is the same.
    pub fn login_by_username(&self, data: UserLoginUsernameDTO) -> (r: Result<String, CoreError>)
        ensures
            !username_admits(self.rows(), data.username@, data.password@) ==> r is Err,
            r is Ok ==> username_admits(self.rows(), data.username@, data.password@),
            r matches Ok(token) ==> issued_to(self.processor(), data.username@, token@),
            r matches Err(e) ==> {
                ||| e is Database
                ||| e == CoreError::AuthError(AuthError::WrongCredentials)
                ||| e == CoreError::AuthError(AuthError::TokenCreation) && username_admits(
                    self.rows(),
                    data.username@,
                    data.password@,
                ) && refused_to(self.processor(), data.username@)
            },
    {
        let found = match self.repo.find_one_by_username(data.username.clone()) {
            Err(e) => return Err(e),
            Ok(found) => found,
        };
        let user = match authenticate(found, data.password) {
            Err(e) => return Err(e),
            Ok(user) => user,
        };
        let claims = login_claims(&user, unix_now());
        token_outcome(self.jwt_processor.create_token(&claims))
    }

    /// A token for the user with the address `data.email`; its subject is
    /// that user's name. Whether the address is unknown or the password is
    /// wrong, the failure is the same.
    pub fn login_by_email(&self, data: UserLoginEmailDTO) -> (r: Result<String, CoreError>)
        ensures
            !email_admits(self.rows(), data.email@, data.password@) ==> r is Err,
            r is Ok ==> email_admits(self.rows(), data.email@, data.password@),
            r matches Ok(token) ==> issued_by_email(
                self.rows(),
                data.email@,
                data.password@,
                self.processor(),
                token@,
            ),
            r matches Err(e) ==> {
                ||| e is Database
                ||| e == CoreError::AuthError(AuthError::WrongCredentials)
                ||| e == CoreError::AuthError(AuthError::TokenCreation) && refused_by_email(
                    self.rows(),
                    data.email@,
                    data.password@,
                    self.processor(),
                )
            },
    {
        let found = match self.repo.find_one_by_email(data.email.clone()) {
            Err(e) => return Err(e),
            Ok(found) => found,
        };
        let user = match authenticate(found, data.password) {
            Err(e) => return Err(e),
            Ok(user) => user,
        };
        let claims = login_claims(&user, unix_now());
        token_outcome(self.jwt_processor.create_token(&claims))
    }
}

} // verus!
