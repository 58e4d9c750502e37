//! The account model and the registration rule: which providers and
//! profiles a user can have, and when a registration is accepted.

use crate::hash::bcrypt_verifies;
use crate::response::Error;
use crate::response::RequestError;
use crate::validate::email_ok;
use crate::validate::password_ok;
use crate::validate::validate_email;
use crate::validate::validate_passowrd;
use vstd::prelude::*;
use vstd::string::StringExecFns;

verus! {

/// How a user authenticates.
#[derive(Clone, Copy, Debug, PartialEq, Eq, Structural)]
pub enum AuthProvider {
    /// By password.
    Password,
    /// Through a Google account.
    Google,
}

impl AuthProvider {
    /// Is this the password provider?
    pub fn is_password(&self) -> (r: bool)
        ensures
            r == (self is Password),
    {
        match self {
            AuthProvider::Password => true,
            _ => false,
        }
    }

    /// Is this the Google provider?
    pub fn is_google(&self) -> (r: bool)
        ensures
            r == (self is Google),
    {
        match self {
            AuthProvider::Google => true,
            _ => false,
        }
    }
}

/// The side of the marketplace a profile belongs to.
#[derive(Clone, Copy, Debug, PartialEq, Eq, Hash, Structural)]
pub enum ProfileType {
    /// A buying profile.
    Buyer,
    /// A selling profile.
    Seller,
}

impl ProfileType {
    /// Is this a buying profile?
    pub fn is_buyer(&self) -> (r: bool)
        ensures
            r == (self is Buyer),
    {
        match self {
            ProfileType::Buyer => true,
            _ => false,
        }
    }

    /// Is this a selling profile?
    pub fn is_seller(&self) -> (r: bool)
        ensures
            r == (self is Seller),
    {
        match self {
            ProfileType::Seller => true,
            _ => false,
        }
    }
}

/// A user account: identity, providers, free-form metadata, and the
/// credentials.  Credentials hold hashed secrets only and are not for
/// display or transport.
#[derive(Clone, Debug)]
pub struct User {
    /// The store-assigned identifier, absent until the user is saved.
    pub id: Option<String>,
    /// The user's email address.
    pub email: String,
    /// The authentication providers enabled for the user.
    pub providers: Vec<AuthProvider>,
    /// Free-form metadata, as key-value pairs.
    pub meta: Vec<(String, String)>,
    /// The credential entries, by name; a password credential holds
    /// the bcrypt hash, never the password itself.
    pub credentials: Vec<(String, String)>,
}

impl User {
    /// A fresh, unsaved user with the given email and nothing else.
    pub fn new(email: String) -> (r: User)
        ensures
            r.email == email,
            r.id is None,
            r.providers@ == Seq::<AuthProvider>::empty(),
            r.meta@ == Seq::<(String, String)>::empty(),
            r.credentials@ == Seq::<(String, String)>::empty(),
    {
        User { id: None, email, providers: Vec::new(), meta: Vec::new(), credentials: Vec::new() }
    }

    /// The user with a password credential added; everything else is
    /// kept.
    pub fn with_password(self, password: String) -> (r: User)
        ensures
            r.email == self.email,
            r.id == self.id,
            r.providers == self.providers,
            r.meta == self.meta,
            r.credentials@.len() == self.credentials@.len() + 1,
            r.credentials@.last().0@ == "password"@,
            r.credentials@.last().1 == password,
            forall|i: int|
                0 <= i < self.credentials@.len() ==> r.credentials@[i]
                    == #[trigger] self.credentials@[i],
    {
        let mut user = self;
        user.credentials.push((String::from_str("password"), password));
        user
    }
}

/// Everything registration can refuse with.
#[derive(Debug)]
pub enum AccountError {
    /// A user with the same email already exists.
    UserAlreadyExist,
    /// An internal step failed; the message names it.
    InternalServerError(String),
}

impl Error for AccountError {
    open spec fn spec_code(&self) -> int {
        match self {
            AccountError::UserAlreadyExist => 4001,
            AccountError::InternalServerError(_) => 200,
        }
    }

    open spec fn spec_message(&self) -> Seq<char> {
        match self {
            AccountError::UserAlreadyExist => "UserAlreadyExist"@,
            AccountError::InternalServerError(_) => "InternalServerError"@,
        }
    }

    fn error_code(&self) -> (c: u16) {
        match self {
            AccountError::UserAlreadyExist => 4001,
            AccountError::InternalServerError(_) => 200,
        }
    }

    fn message(&self) -> (m: String) {
        match self {
            AccountError::UserAlreadyExist => String::from_str("UserAlreadyExist"),
            AccountError::InternalServerError(_) => String::from_str("InternalServerError"),
        }
    }
}

/// The admission rule of a registration request: the password is
/// checked first, then the email, each refusal naming its reason; only
/// well-formed requests go through.
pub fn validate_registration(email: &str, password: &str) -> (r: Result<
    (),
    RequestError<AccountError>,
>)
    ensures
        r is Ok <==> password_ok(password@) && email_ok(email@),
        match r {
            Ok(()) => true,
            Err(e) => match e {
                RequestError::BadRequest(m) => (!password_ok(password@) && m@
                    == "invalid_password"@) || (password_ok(password@) && !email_ok(email@) && m@
                    == "invalid_email"@),
                _ => false,
            },
        },
{
    if !validate_passowrd(password) {
        return Err(RequestError::BadRequest(String::from_str("invalid_password")));
    }
    if !validate_email(email) {
        return Err(RequestError::BadRequest(String::from_str("invalid_email")));
    }
    Ok(())
}

/// The registration rule: an email that is already taken is refused;
/// otherwise the password is hashed and a fresh user carrying the
/// hashed credential is produced, ready to be saved.  `existing` is
/// whatever the store holds for the email.
pub fn register(existing: Option<User>, email: String, password: String) -> (r: Result<
    User,
    AccountError,
>)
    ensures
        existing is Some ==> r == Err::<User, AccountError>(AccountError::UserAlreadyExist),
        existing is None ==> match r {
            Ok(u) => u.email == email && u.id is None && u.credentials@.len() == 1
                && u.credentials@[0].0@ == "password"@ && bcrypt_verifies(
                password@,
                u.credentials@[0].1@,
            ),
            Err(e) => e is InternalServerError,
        },
{
    if existing.is_some() {
        return Err(AccountError::UserAlreadyExist);
    }
    let hashed = match crate::hash::make(password.as_str()) {
        Ok(h) => h,
        Err(_) => {
            return Err(
                AccountError::InternalServerError(String::from_str("password hashing failed")),
            );
        },
    };
    Ok(User::new(email).with_password(hashed))
}

} // verus!
