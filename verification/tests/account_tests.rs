use cachekit::hash;
use cachekit::register;
use cachekit::validate_registration;
use cachekit::validate_email;
use cachekit::validate_passowrd;
use cachekit::AccountError;
use cachekit::ApiError;
use cachekit::AuthProvider;
use cachekit::Error;
use cachekit::ProfileType;
use cachekit::RequestError;
use cachekit::User;

#[test]
fn test_auth_provider_predicates() {
    assert!(AuthProvider::Password.is_password());
    assert!(!AuthProvider::Password.is_google());
    assert!(AuthProvider::Google.is_google());
    assert!(!AuthProvider::Google.is_password());
}

#[test]
fn test_profile_type_predicates() {
    assert!(ProfileType::Buyer.is_buyer());
    assert!(!ProfileType::Buyer.is_seller());
    assert!(ProfileType::Seller.is_seller());
    assert!(!ProfileType::Seller.is_buyer());
}

#[test]
fn test_user_new_and_with_password() {
    let u = User::new("acme@gmail.com".to_string()).with_password("secret".to_string());
    assert_eq!(u.email, "acme@gmail.com");
    assert!(u.id.is_none());
    assert!(u.providers.is_empty());
    assert!(u.meta.is_empty());
    assert_eq!(u.credentials.len(), 1);
    assert_eq!(u.credentials[0].0, "password");
    assert_eq!(u.credentials[0].1, "secret");
}

#[test]
fn test_register_failed_email_exist() {
    let existing = User::new("acme@gmail.com".to_string());
    let r = register(
        Some(existing),
        "acme@gmail.com".to_string(),
        "password".to_string(),
    );
    assert!(matches!(r, Err(AccountError::UserAlreadyExist)));
}

#[test]
fn test_register_hashes_password() {
    let r = register(None, "acme@gmail.com".to_string(), "password".to_string()).unwrap();
    assert_eq!(r.email, "acme@gmail.com");
    assert_eq!(r.credentials.len(), 1);
    assert_eq!(r.credentials[0].0, "password");
    // the stored credential is a hash that verifies, not the password
    assert_ne!(r.credentials[0].1, "password");
    assert!(hash::check("password", &r.credentials[0].1));
    assert!(!hash::check("wrong", &r.credentials[0].1));
}

#[test]
fn test_validate_email_accepts() {
    assert!(validate_email("acme@gmail.com"));
    assert!(validate_email("a@b.co"));
    assert!(validate_email("first.last+tag%x@sub.domain-name.org"));
    assert!(validate_email("a@b.cd.ef"));
    assert!(validate_email("1@2.ab"));
}

#[test]
fn test_validate_email_rejects() {
    assert!(!validate_email(""));
    assert!(!validate_email("plainaddress"));
    assert!(!validate_email("@x.com"));
    assert!(!validate_email("a@b"));
    assert!(!validate_email("a@b.c"));
    assert!(!validate_email("a@b.c2"));
    assert!(!validate_email("a b@x.com"));
    assert!(!validate_email("a@b c.com"));
    assert!(!validate_email("a@.com"));
    assert!(!validate_email("two@at@x.com"));
    assert!(!validate_email("a@x.com "));
}

#[test]
fn test_validate_passowrd_accepts() {
    assert!(validate_passowrd("password"));
    assert!(validate_passowrd("p@ss_w0rd-$+!*"));
    assert!(validate_passowrd("1234567890"));
}

#[test]
fn test_validate_passowrd_rejects() {
    assert!(!validate_passowrd(""));
    assert!(!validate_passowrd("pass word"));
    assert!(!validate_passowrd("pass#word"));
    assert!(!validate_passowrd("naïve"));
}

#[test]
fn test_validate_registration_order_and_reasons() {
    // the password is judged first, and each refusal names its reason
    let r = validate_registration("not an email", "");
    match r {
        Err(RequestError::BadRequest(m)) => assert_eq!(m, "invalid_password"),
        _ => panic!("expected a bad request"),
    }
    let r = validate_registration("not an email", "password");
    match r {
        Err(RequestError::BadRequest(m)) => assert_eq!(m, "invalid_email"),
        _ => panic!("expected a bad request"),
    }
    assert!(validate_registration("acme@gmail.com", "password").is_ok());
    // the refusal renders exactly as the response reports it
    let e = RequestError::<AccountError>::BadRequest("invalid_password".to_string());
    assert_eq!(e.error_code(), 400);
    assert_eq!(e.message(), "BadRequest:invalid_password");
}

#[test]
fn test_request_error_codes() {
    assert_eq!(RequestError::<AccountError>::Unauthorized.error_code(), 401);
    assert_eq!(
        RequestError::<AccountError>::BadRequest("invalid_password".to_string()).error_code(),
        400
    );
    assert_eq!(
        RequestError::<AccountError>::InternalServerError("boom".to_string()).error_code(),
        500
    );
    assert_eq!(
        RequestError::ServiceError(AccountError::UserAlreadyExist).error_code(),
        200
    );
}

#[test]
fn test_request_error_messages() {
    assert_eq!(
        RequestError::<AccountError>::Unauthorized.message(),
        "Unauthorized"
    );
    assert_eq!(
        RequestError::<AccountError>::BadRequest("invalid_password".to_string()).message(),
        "BadRequest:invalid_password"
    );
    assert_eq!(
        RequestError::<AccountError>::InternalServerError("boom".to_string()).message(),
        "InternalServerError"
    );
    assert_eq!(
        RequestError::ServiceError(AccountError::UserAlreadyExist).message(),
        "UserAlreadyExist"
    );
}

#[test]
fn test_account_error_codes() {
    assert_eq!(AccountError::UserAlreadyExist.error_code(), 4001);
    assert_eq!(
        AccountError::InternalServerError("x".to_string()).error_code(),
        200
    );
}

#[test]
fn test_api_error_records_code_and_message() {
    let e = ApiError::new(AccountError::UserAlreadyExist);
    assert_eq!(e.code(), 4001);
    assert_eq!(e.message(), "UserAlreadyExist");
}
