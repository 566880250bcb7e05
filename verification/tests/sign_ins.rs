use ledger_core::model::{LedgerError, Role, User};
use ledger_core::sign_in::{SignIn, call};

fn sample_user() -> User {
    User { id: 1, client_id: 1, role: Role::Admin }
}

#[test]
fn it_can_sign_in() {
    let password = "password".to_string();
    let password_hash = bcrypt::hash(&password, 4).unwrap();
    let user = sample_user();

    let sign_in = SignIn { email: "sam@sample.com".to_string(), password };

    let result = call(Some((user, password_hash)), &sign_in);

    assert!(result.is_ok());

    let returned_user = result.unwrap();

    assert_eq!(returned_user, user);
}

#[test]
fn it_cant_sign_in_with_wrong_password() {
    let password = "password".to_string();
    let password_hash = bcrypt::hash(&password, 4).unwrap();
    let user = sample_user();

    let sign_in = SignIn { email: "sam@sample.com".to_string(), password: "other".to_owned() };

    let result = call(Some((user, password_hash)), &sign_in);

    assert!(result.is_err());
}

#[test]
fn unknown_address_fails_the_same_way() {
    let sign_in = SignIn { email: "sam@sample.com".to_string(), password: "password".to_owned() };

    let result = call(None, &sign_in);

    assert_eq!(result.unwrap_err(), LedgerError::Unauthorized);
}
