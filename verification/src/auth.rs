//! Authentication: the configured providers, how their verdicts combine,
//! and the per-request context that settles a request's verdict once.
use vstd::prelude::*;
use std::sync::Arc;

verus! {

/// Why a request was refused. The order is one of severity: a combined
/// failure reports the most severe of its causes.
#[derive(Debug, Clone, Copy, PartialEq, Eq, Structural)]
pub enum AuthError {
    /// No credentials were found.
    Missing,
    /// The credentials could not be checked.
    ValidationCheckFailed,
    /// The credentials are wrong.
    Invalid,
}

pub open spec fn severity(e: AuthError) -> int {
    match e {
        AuthError::Missing => 0,
        AuthError::ValidationCheckFailed => 1,
        AuthError::Invalid => 2,
    }
}

/// The more severe of two errors.
pub open spec fn max_error(a: AuthError, b: AuthError) -> AuthError {
    if severity(a) > severity(b) {
        a
    } else {
        b
    }
}

/// The more severe of two errors.
pub fn more_severe(a: AuthError, b: AuthError) -> (r: AuthError)
    ensures
        r == max_error(a, b),
{
    let sa: u8 = match a {
        AuthError::Missing => 0,
        AuthError::ValidationCheckFailed => 1,
        AuthError::Invalid => 2,
    };
    let sb: u8 = match b {
        AuthError::Missing => 0,
        AuthError::ValidationCheckFailed => 1,
        AuthError::Invalid => 2,
    };
    if sa > sb {
        a
    } else {
        b
    }
}

/// The verdict on a request.
#[derive(Debug, Clone, Copy, PartialEq, Eq, Structural)]
pub enum Verification {
    Succeed,
    Fail(AuthError),
}

/// Either verdict may admit the request; if both refuse, the more severe
/// error stands.
pub open spec fn or_model(a: Verification, b: Verification) -> Verification {
    match (a, b) {
        (Verification::Fail(x), Verification::Fail(y)) => Verification::Fail(max_error(x, y)),
        _ => Verification::Succeed,
    }
}

/// Both verdicts must admit the request; the refusal, or the more severe of
/// two, stands.
pub open spec fn and_model(a: Verification, b: Verification) -> Verification {
    match (a, b) {
        (Verification::Succeed, _) => b,
        (Verification::Fail(x), Verification::Succeed) => Verification::Fail(x),
        (Verification::Fail(x), Verification::Fail(y)) => Verification::Fail(max_error(x, y)),
    }
}

impl Verification {
    pub fn succeed() -> (r: Verification)
        ensures
            r == Verification::Succeed,
    {
        Verification::Succeed
    }

    pub fn fail(error: AuthError) -> (r: Verification)
        ensures
            r == Verification::Fail(error),
    {
        Verification::Fail(error)
    }

    /// Admits when either verdict admits.
    pub fn or(&self, other: Verification) -> (r: Verification)
        ensures
            r == or_model(*self, other),
    {
        match self {
            Verification::Succeed => Verification::Succeed,
            Verification::Fail(this) => match other {
                Verification::Succeed => Verification::Succeed,
                Verification::Fail(that) => Verification::Fail(more_severe(*this, that)),
            },
        }
    }

    /// Admits when both verdicts admit.
    pub fn and(&self, other: Verification) -> (r: Verification)
        ensures
            r == and_model(*self, other),
    {
        match self {
            Verification::Succeed => other,
            Verification::Fail(this) => match other {
                Verification::Succeed => Verification::Fail(*this),
                Verification::Fail(that) => Verification::Fail(more_severe(*this, that)),
            },
        }
    }
}

/// Basic authentication against an htpasswd file's content.
#[derive(Debug, PartialEq, Eq)]
pub struct Basic {
    pub htpasswd: String,
}

/// Authentication by JSON web token.
#[derive(Debug, PartialEq, Eq)]
pub struct Jwt {
    pub issuer: Option<String>,
    pub audiences: Vec<String>,
    pub optional_kid: bool,
}

/// One configured way to authenticate.
#[derive(Debug, PartialEq, Eq)]
pub enum Provider {
    Basic(Basic),
    Jwt(Jwt),
}

/// The configured authentication: a provider, or two combined.
#[derive(Debug, PartialEq, Eq)]
pub enum Auth {
    Provider(Provider),
    And(Box<Auth>, Box<Auth>),
    Or(Box<Auth>, Box<Auth>),
}

/// The verifier built from an `Auth`: one check per provider, combined as
/// the configuration combines them.
#[derive(Debug, PartialEq, Eq)]
pub enum AuthVerifier {
    Single(Provider),
    And(Box<AuthVerifier>, Box<AuthVerifier>),
    Or(Box<AuthVerifier>, Box<AuthVerifier>),
}

/// The verifier of a configuration: the same tree.
pub open spec fn verifier_of(auth: Auth) -> AuthVerifier
    decreases auth,
{
    match auth {
        Auth::Provider(p) => AuthVerifier::Single(p),
        Auth::And(l, r) => AuthVerifier::And(Box::new(verifier_of(*l)), Box::new(verifier_of(*r))),
        Auth::Or(l, r) => AuthVerifier::Or(Box::new(verifier_of(*l)), Box::new(verifier_of(*r))),
    }
}

/// The number of providers in a verifier.
pub open spec fn provider_count(v: AuthVerifier) -> nat
    decreases v,
{
    match v {
        AuthVerifier::Single(_) => 1,
        AuthVerifier::And(l, r) => provider_count(*l) + provider_count(*r),
        AuthVerifier::Or(l, r) => provider_count(*l) + provider_count(*r),
    }
}

/// The verdict of a verifier, given the verdict of each of its providers'
/// own checks, from left to right.
pub open spec fn verify_model(v: AuthVerifier, outcomes: Seq<Verification>) -> Verification
    decreases v,
{
    match v {
        AuthVerifier::Single(_) => outcomes[0],
        AuthVerifier::And(l, r) => and_model(
            verify_model(*l, outcomes.take(provider_count(*l) as int)),
            verify_model(*r, outcomes.skip(provider_count(*l) as int)),
        ),
        AuthVerifier::Or(l, r) => or_model(
            verify_model(*l, outcomes.take(provider_count(*l) as int)),
            verify_model(*r, outcomes.skip(provider_count(*l) as int)),
        ),
    }
}

fn verifier_from(auth: Auth) -> (r: AuthVerifier)
    ensures
        r == verifier_of(auth),
    decreases auth,
{
    match auth {
        Auth::Provider(p) => AuthVerifier::Single(p),
        Auth::And(l, r) => AuthVerifier::And(Box::new(verifier_from(*l)), Box::new(verifier_from(*r))),
        Auth::Or(l, r) => AuthVerifier::Or(Box::new(verifier_from(*l)), Box::new(verifier_from(*r))),
    }
}

impl From<Auth> for AuthVerifier {
    fn from(auth: Auth) -> (r: AuthVerifier) {
        verifier_from(auth)
    }
}

impl vstd::std_specs::convert::FromSpecImpl<Auth> for AuthVerifier {
    open spec fn obeys_from_spec() -> bool {
        true
    }

    open spec fn from_spec(v: Auth) -> AuthVerifier {
        verifier_of(v)
    }
}

impl AuthVerifier {
    /// The number of providers, or `None` where it does not fit in `usize`.
    pub fn provider_count(&self) -> (r: Option<usize>)
        ensures
            match r {
                Some(n) => n == provider_count(*self),
                None => provider_count(*self) > usize::MAX,
            },
        decreases self,
    {
        match self {
            AuthVerifier::Single(_) => Some(1),
            AuthVerifier::And(l, r) | AuthVerifier::Or(l, r) => match (
                l.provider_count(),
                r.provider_count(),
            ) {
                (Some(a), Some(b)) => a.checked_add(b),
                _ => None,
            },
        }
    }

    fn verify_from(&self, outcomes: &Vec<Verification>, start: usize) -> (r: (Verification, usize))
        requires
            start + provider_count(*self) <= outcomes@.len(),
        ensures
            r.1 == start + provider_count(*self),
            r.0 == verify_model(*self, outcomes@.subrange(start as int, r.1 as int)),
        decreases self,
    {
        match self {
            AuthVerifier::Single(_) => {
                let n = outcomes.len();
                assert(start < n);
                (outcomes[start], start + 1)
            },
            AuthVerifier::And(l, r) => {
                let (a, mid) = l.verify_from(outcomes, start);
                let (b, end) = r.verify_from(outcomes, mid);
                proof {
                    let s = outcomes@.subrange(start as int, end as int);
                    assert(s.take(provider_count(**l) as int) =~= outcomes@.subrange(
                        start as int,
                        mid as int,
                    ));
                    assert(s.skip(provider_count(**l) as int) =~= outcomes@.subrange(
                        mid as int,
                        end as int,
                    ));
                }
                (a.and(b), end)
            },
            AuthVerifier::Or(l, r) => {
                let (a, mid) = l.verify_from(outcomes, start);
                let (b, end) = r.verify_from(outcomes, mid);
                proof {
                    let s = outcomes@.subrange(start as int, end as int);
                    assert(s.take(provider_count(**l) as int) =~= outcomes@.subrange(
                        start as int,
                        mid as int,
                    ));
                    assert(s.skip(provider_count(**l) as int) =~= outcomes@.subrange(
                        mid as int,
                        end as int,
                    ));
                }
                (a.or(b), end)
            },
        }
    }

    /// The verdict of the verifier, given the verdict of each provider's
    /// own check, from left to right.
    pub fn verify(&self, outcomes: &Vec<Verification>) -> (r: Verification)
        requires
            outcomes@.len() == provider_count(*self),
        ensures
            r == verify_model(*self, outcomes@),
    {
        let (v, _) = self.verify_from(outcomes, 0);
        assert(outcomes@.subrange(0, outcomes@.len() as int) =~= outcomes@);
        v
    }
}


/// The authentication shared by all requests.
pub struct GlobalAuthContext {
    verifier: Option<AuthVerifier>,
}

/// The number of provider verdicts that a context's check takes.
pub open spec fn expected_outcomes(v: Option<AuthVerifier>) -> nat {
    match v {
        Some(v) => provider_count(v),
        None => 0,
    }
}

/// The verdict of the global context: that of its verifier, or success
/// where no authentication is configured.
pub open spec fn global_validate_model(v: Option<AuthVerifier>, outcomes: Seq<Verification>) -> Verification {
    match v {
        Some(v) => verify_model(v, outcomes),
        None => Verification::Succeed,
    }
}

impl GlobalAuthContext {
    /// The context's verifier.
    pub closed spec fn verifier_model(&self) -> Option<AuthVerifier> {
        self.verifier
    }

    /// The context for the configured authentication, if any.
    pub fn new(auth: Option<Auth>) -> (r: GlobalAuthContext)
        ensures
            r.verifier_model() == match auth {
                Some(a) => Some(verifier_of(a)),
                None => None::<AuthVerifier>,
            },
    {
        GlobalAuthContext {
            verifier: match auth {
                Some(a) => Some(verifier_from(a)),
                None => None,
            },
        }
    }

    /// The number of provider verdicts that `validate` takes, or `None`
    /// where it does not fit in `usize`.
    pub fn outcome_count(&self) -> (r: Option<usize>)
        ensures
            match r {
                Some(n) => n == expected_outcomes(self.verifier_model()),
                None => expected_outcomes(self.verifier_model()) > usize::MAX,
            },
    {
        match &self.verifier {
            Some(v) => v.provider_count(),
            None => Some(0),
        }
    }

    /// The verdict on a request, given the verdict of each provider's own
    /// check on it, from left to right.
    fn validate(&self, outcomes: &Vec<Verification>) -> (r: Verification)
        requires
            outcomes@.len() == expected_outcomes(self.verifier_model()),
        ensures
            r == global_validate_model(self.verifier_model(), outcomes@),
    {
        match &self.verifier {
            Some(v) => v.verify(outcomes),
            None => Verification::succeed(),
        }
    }
}

impl Default for GlobalAuthContext {
    /// A context with no authentication configured.
    fn default() -> (r: GlobalAuthContext)
        ensures
            r.verifier_model() is None,
    {
        GlobalAuthContext { verifier: None }
    }
}

/// Another handle on the same shared value, as `Arc::clone` gives.
#[verifier::external_body]
fn share<T>(a: &Arc<T>) -> (r: Arc<T>)
    ensures
        *r == **a,
{
    Arc::clone(a)
}

/// The authentication state of one request: the shared context, and the
/// verdict once it is settled.
pub struct AuthContext {
    auth_result: Option<Verification>,
    global_ctx: Arc<GlobalAuthContext>,
}

impl AuthContext {
    /// The settled verdict, if any.
    pub closed spec fn cached(&self) -> Option<Verification> {
        self.auth_result
    }

    /// The shared context's verifier.
    pub closed spec fn global_verifier(&self) -> Option<AuthVerifier> {
        self.global_ctx.verifier_model()
    }

    /// A request's context over the shared one, with no verdict yet.
    pub fn from_global(global_ctx: &Arc<GlobalAuthContext>) -> (r: AuthContext)
        ensures
            r.cached() is None,
            r.global_verifier() == global_ctx.verifier_model(),
    {
        AuthContext { auth_result: None, global_ctx: share(global_ctx) }
    }

    /// The number of provider verdicts that `validate` takes.
    pub fn outcome_count(&self) -> (r: Option<usize>)
        ensures
            match r {
                Some(n) => n == expected_outcomes(self.global_verifier()),
                None => expected_outcomes(self.global_verifier()) > usize::MAX,
            },
    {
        self.global_ctx.outcome_count()
    }

    /// The settled verdict, if the request has one.
    pub fn cached_verdict(&self) -> (r: Option<Verification>)
        ensures
            r == self.cached(),
    {
        self.auth_result
    }

    /// The verdict on the request: the settled one if there is one, else
    /// the shared context's verdict from the providers' verdicts, which is
    /// then kept. Once a verdict is settled, `outcomes` is not read.
    pub fn validate(&mut self, outcomes: &Vec<Verification>) -> (r: Verification)
        requires
            old(self).cached() is None ==> outcomes@.len() == expected_outcomes(
                old(self).global_verifier(),
            ),
        ensures
            r == context_validate_model(old(self).cached(), old(self).global_verifier(), outcomes@),
            final(self).cached() == Some(r),
            final(self).global_verifier() == old(self).global_verifier(),
    {
        if let Some(result) = self.auth_result {
            return result;
        }
        let result = self.global_ctx.validate(outcomes);
        self.auth_result = Some(result);
        result
    }
}

impl Default for AuthContext {
    /// A context over a shared context with no authentication configured.
    fn default() -> (r: AuthContext)
        ensures
            r.cached() is None,
            r.global_verifier() is None,
    {
        AuthContext { auth_result: None, global_ctx: Arc::new(GlobalAuthContext::default()) }
    }
}

/// The verdict of a request's context: the settled one, or else the
/// shared context's.
pub open spec fn context_validate_model(
    cached: Option<Verification>,
    verifier: Option<AuthVerifier>,
    outcomes: Seq<Verification>,
) -> Verification {
    match cached {
        Some(v) => v,
        None => global_validate_model(verifier, outcomes),
    }
}

/// Once a request's context has given a verdict, it gives the same one
/// again, whatever the providers would say the second time.
pub proof fn law_verdict_settles(
    cached: Option<Verification>,
    verifier: Option<AuthVerifier>,
    first: Seq<Verification>,
    second: Seq<Verification>,
)
    ensures
        context_validate_model(
            Some(context_validate_model(cached, verifier, first)),
            verifier,
            second,
        ) == context_validate_model(cached, verifier, first),
{
}

/// With no authentication configured, every request is admitted.
pub proof fn law_no_auth_admits(outcomes: Seq<Verification>)
    ensures
        global_validate_model(None, outcomes) == Verification::Succeed,
{
}

/// `or` does not depend on the order of its verdicts.
pub proof fn law_or_commutative(a: Verification, b: Verification)
    ensures
        or_model(a, b) == or_model(b, a),
{
}

/// `and` does not depend on the order of its verdicts.
pub proof fn law_and_commutative(a: Verification, b: Verification)
    ensures
        and_model(a, b) == and_model(b, a),
{
}

/// `or` does not depend on how its verdicts are grouped.
pub proof fn law_or_associative(a: Verification, b: Verification, c: Verification)
    ensures
        or_model(or_model(a, b), c) == or_model(a, or_model(b, c)),
{
}

/// `and` does not depend on how its verdicts are grouped.
pub proof fn law_and_associative(a: Verification, b: Verification, c: Verification)
    ensures
        and_model(and_model(a, b), c) == and_model(a, and_model(b, c)),
{
}

/// A success decides `or`, and leaves `and` to the other verdict; a
/// missing-credentials failure leaves `or` to the other verdict.
pub proof fn law_identities(a: Verification)
    ensures
        or_model(Verification::Succeed, a) == Verification::Succeed,
        and_model(Verification::Succeed, a) == a,
        or_model(Verification::Fail(AuthError::Missing), a) == a,
{
}

/// `or` admits exactly when one of its verdicts admits; `and` exactly when
/// both do.
pub proof fn law_admission(a: Verification, b: Verification)
    ensures
        (or_model(a, b) == Verification::Succeed) <==> (a == Verification::Succeed || b
            == Verification::Succeed),
        (and_model(a, b) == Verification::Succeed) <==> (a == Verification::Succeed && b
            == Verification::Succeed),
{
}

} // verus!
