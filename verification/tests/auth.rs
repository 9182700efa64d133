use std::sync::Arc;

use tailcall::auth::{
    Auth, AuthContext, AuthError, AuthVerifier, Basic, GlobalAuthContext, Jwt, Provider,
    Verification,
};

fn basic() -> Provider {
    Provider::Basic(Basic { htpasswd: "testuser1:$apr1$e3dp9qh2$fFIfHU9bilvVZBl8TxKzL/".to_string() })
}

fn jwt() -> Provider {
    Provider::Jwt(Jwt { issuer: Some("me".to_string()), audiences: vec![], optional_kid: false })
}

fn basic_or_jwt() -> Auth {
    Auth::Or(Box::new(Auth::Provider(basic())), Box::new(Auth::Provider(jwt())))
}

fn context() -> AuthContext {
    AuthContext::from_global(&Arc::new(GlobalAuthContext::new(Some(basic_or_jwt()))))
}

#[test]
fn missing_credentials_are_refused() {
    let mut ctx = context();
    let outcomes = vec![
        Verification::fail(AuthError::Missing),
        Verification::fail(AuthError::Missing),
    ];
    assert_eq!(ctx.validate(&outcomes), Verification::fail(AuthError::Missing));
}

#[test]
fn wrong_password_is_invalid() {
    let mut ctx = context();
    let outcomes = vec![
        Verification::fail(AuthError::Invalid),
        Verification::fail(AuthError::Missing),
    ];
    assert_eq!(ctx.validate(&outcomes), Verification::fail(AuthError::Invalid));
}

#[test]
fn either_provider_admits() {
    let mut ctx = context();
    let outcomes = vec![Verification::fail(AuthError::Missing), Verification::succeed()];
    assert_eq!(ctx.validate(&outcomes), Verification::succeed());
}

#[test]
fn verdict_is_settled_once() {
    let mut ctx = context();
    let first = vec![Verification::succeed(), Verification::fail(AuthError::Missing)];
    assert_eq!(ctx.validate(&first), Verification::succeed());
    let second = vec![
        Verification::fail(AuthError::Invalid),
        Verification::fail(AuthError::Invalid),
    ];
    assert_eq!(ctx.validate(&second), Verification::succeed());
    assert_eq!(ctx.cached_verdict(), Some(Verification::succeed()));
    assert_eq!(ctx.validate(&vec![]), Verification::succeed());
}

#[test]
fn no_auth_admits_everything() {
    let mut ctx = AuthContext::from_global(&Arc::new(GlobalAuthContext::new(None)));
    assert_eq!(ctx.outcome_count(), Some(0));
    assert_eq!(ctx.validate(&vec![]), Verification::succeed());
    let mut ctx = AuthContext::default();
    assert_eq!(ctx.validate(&vec![]), Verification::succeed());
}

#[test]
fn and_needs_both() {
    let auth = Auth::And(Box::new(Auth::Provider(basic())), Box::new(Auth::Provider(jwt())));
    let verifier = AuthVerifier::from(auth);
    assert_eq!(verifier.provider_count(), Some(2));
    assert_eq!(
        verifier.verify(&vec![Verification::succeed(), Verification::fail(AuthError::ValidationCheckFailed)]),
        Verification::fail(AuthError::ValidationCheckFailed)
    );
    assert_eq!(
        verifier.verify(&vec![
            Verification::fail(AuthError::Invalid),
            Verification::fail(AuthError::ValidationCheckFailed)
        ]),
        Verification::fail(AuthError::Invalid)
    );
    assert_eq!(
        verifier.verify(&vec![Verification::succeed(), Verification::succeed()]),
        Verification::succeed()
    );
}

#[test]
fn nested_verifier_reads_outcomes_left_to_right() {
    let auth = Auth::Or(
        Box::new(Auth::And(Box::new(Auth::Provider(basic())), Box::new(Auth::Provider(jwt())))),
        Box::new(Auth::Provider(basic())),
    );
    let verifier = AuthVerifier::from(auth);
    assert_eq!(verifier.provider_count(), Some(3));
    assert_eq!(
        verifier.verify(&vec![
            Verification::succeed(),
            Verification::fail(AuthError::Missing),
            Verification::fail(AuthError::ValidationCheckFailed)
        ]),
        Verification::fail(AuthError::ValidationCheckFailed)
    );
    assert_eq!(
        verifier.verify(&vec![
            Verification::fail(AuthError::Missing),
            Verification::succeed(),
            Verification::succeed()
        ]),
        Verification::succeed()
    );
}

#[test]
fn or_and_and_are_symmetric() {
    let all = [
        Verification::succeed(),
        Verification::fail(AuthError::Missing),
        Verification::fail(AuthError::ValidationCheckFailed),
        Verification::fail(AuthError::Invalid),
    ];
    for a in all {
        for b in all {
            assert_eq!(a.or(b), b.or(a));
            assert_eq!(a.and(b), b.and(a));
        }
    }
}
