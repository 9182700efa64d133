//! Validation outcomes: a success, or a list of causes, each with the trail
//! of names that led to it.
use vstd::prelude::*;

verus! {

/// What a cause is, as plain text: its message and its trail of names,
/// outermost first.
pub struct CauseModel {
    pub message: Seq<char>,
    pub trace: Seq<Seq<char>>,
}

/// One reason why a validation failed.
#[derive(Debug, PartialEq, Eq)]
pub struct Cause {
    pub message: String,
    pub trace: Vec<String>,
}

/// The text of each string in a vector.
pub open spec fn strings_model(v: Seq<String>) -> Seq<Seq<char>> {
    v.map_values(|s: String| s@)
}

impl View for Cause {
    type V = CauseModel;

    open spec fn view(&self) -> CauseModel {
        CauseModel { message: self.message@, trace: strings_model(self.trace@) }
    }
}

/// A failure with `message` and an empty trail.
pub open spec fn fail_model(message: Seq<char>) -> Seq<CauseModel> {
    seq![CauseModel { message, trace: seq![] }]
}

/// Each cause with `name` put in front of its trail.
pub open spec fn trace_model(causes: Seq<CauseModel>, name: Seq<char>) -> Seq<CauseModel> {
    causes.map_values(|c: CauseModel| CauseModel { message: c.message, trace: seq![name] + c.trace })
}

/// The outcome of a validation that produces no value: it succeeded when it
/// holds no cause.
#[derive(Debug, PartialEq, Eq)]
pub struct Valid {
    causes: Vec<Cause>,
}

impl View for Valid {
    type V = Seq<CauseModel>;

    closed spec fn view(&self) -> Seq<CauseModel> {
        self.causes@.map_values(|c: Cause| c@)
    }
}

/// A copy of each string in `v`.
pub fn clone_strings(v: &Vec<String>) -> (r: Vec<String>)
    ensures
        strings_model(r@) == strings_model(v@),
{
    let mut r: Vec<String> = Vec::new();
    let mut i: usize = 0;
    while i < v.len()
        invariant
            i <= v.len(),
            r@.len() == i,
            forall|j: int| 0 <= j < i ==> #[trigger] r@[j]@ == v@[j]@,
        decreases v.len() - i,
    {
        r.push(v[i].clone());
        i = i + 1;
    }
    assert(strings_model(r@) =~= strings_model(v@));
    r
}

impl Valid {
    /// A success.
    pub fn succeed() -> (r: Valid)
        ensures
            r@ == Seq::<CauseModel>::empty(),
    {
        let r = Valid { causes: Vec::new() };
        assert(r@ =~= Seq::<CauseModel>::empty());
        r
    }

    /// A failure with one cause, `message`, and an empty trail.
    pub fn fail(message: &str) -> (r: Valid)
        ensures
            r@ == fail_model(message@),
    {
        let mut causes: Vec<Cause> = Vec::new();
        causes.push(Cause { message: String::from_str(message), trace: Vec::new() });
        let r = Valid { causes };
        assert(r@[0].trace =~= Seq::<Seq<char>>::empty());
        assert(r@ =~= fail_model(message@));
        r
    }

    /// Whether the validation succeeded.
    pub fn is_succeed(&self) -> (r: bool)
        ensures
            r == (self@.len() == 0),
    {
        self.causes.len() == 0
    }

    /// The causes of the failure, in order; none on success.
    pub fn causes(&self) -> (r: &Vec<Cause>)
        ensures
            r@.map_values(|c: Cause| c@) == self@,
    {
        &self.causes
    }

    /// Puts `name` in front of the trail of every cause.
    pub fn trace(self, name: &str) -> (r: Valid)
        ensures
            r@ == trace_model(self@, name@),
    {
        let mut out: Vec<Cause> = Vec::new();
        let mut i: usize = 0;
        while i < self.causes.len()
            invariant
                i <= self.causes@.len(),
                out@.len() == i,
                forall|j: int| 0 <= j < i ==> #[trigger] out@[j]@ == (CauseModel {
                    message: self.causes@[j]@.message,
                    trace: seq![name@] + self.causes@[j]@.trace,
                }),
            decreases self.causes@.len() - i,
        {
            let c = &self.causes[i];
            let mut t: Vec<String> = Vec::new();
            t.push(String::from_str(name));
            let rest = clone_strings(&c.trace);
            let mut k: usize = 0;
            while k < rest.len()
                invariant
                    k <= rest@.len(),
                    t@.len() == k + 1,
                    t@[0]@ == name@,
                    forall|m: int| 0 <= m < k ==> #[trigger] t@[m + 1]@ == rest@[m]@,
                decreases rest@.len() - k,
            {
                t.push(rest[k].clone());
                k = k + 1;
            }
            assert(strings_model(t@) =~= seq![name@] + strings_model(c.trace@)) by {
                assert(strings_model(rest@) == strings_model(c.trace@));
                assert(strings_model(rest@).len() == rest@.len());
                assert(strings_model(c.trace@).len() == c.trace@.len());
                assert forall|m: int| 0 <= m < t@.len() implies #[trigger] strings_model(t@)[m]
                    == (seq![name@] + strings_model(c.trace@))[m] by {
                    if m > 0 {
                        assert(t@[(m - 1) + 1]@ == rest@[m - 1]@);
                        assert(strings_model(rest@)[m - 1] == rest@[m - 1]@);
                        assert(strings_model(c.trace@)[m - 1] == c.trace@[m - 1]@);
                    }
                }
            }
            out.push(Cause { message: c.message.clone(), trace: t });
            i = i + 1;
        }
        let r = Valid { causes: out };
        assert(r@ =~= trace_model(self@, name@));
        r
    }

    /// The causes of `self` followed by those of `other`.
    pub fn combine(self, other: Valid) -> (r: Valid)
        ensures
            r@ == self@ + other@,
    {
        let mut causes = self.causes;
        let mut more = other.causes;
        let ghost a = causes@;
        let ghost b = more@;
        causes.append(&mut more);
        let r = Valid { causes };
        assert(r@ =~= self@ + other@);
        r
    }
}


/// Tracing a combined outcome traces each part: combining and tracing
/// commute.
pub proof fn law_trace_combine(a: Seq<CauseModel>, b: Seq<CauseModel>, name: Seq<char>)
    ensures
        trace_model(a + b, name) == trace_model(a, name) + trace_model(b, name),
{
    assert(trace_model(a + b, name) =~= trace_model(a, name) + trace_model(b, name));
}

/// Tracing keeps the number of causes and their messages, so a success
/// stays a success and a failure a failure.
pub proof fn law_trace_keeps_causes(a: Seq<CauseModel>, name: Seq<char>)
    ensures
        trace_model(a, name).len() == a.len(),
        forall|i: int| 0 <= i < a.len() ==> #[trigger] trace_model(a, name)[i].message == a[i].message,
{
}

/// Tracing by `outer` after `inner` puts `outer` first in every trail.
pub proof fn law_trace_twice(a: Seq<CauseModel>, inner: Seq<char>, outer: Seq<char>)
    ensures
        forall|i: int|
            0 <= i < a.len() ==> #[trigger] trace_model(trace_model(a, inner), outer)[i].trace
                == seq![outer, inner] + a[i].trace,
{
    assert forall|i: int| 0 <= i < a.len() implies #[trigger] trace_model(
        trace_model(a, inner),
        outer,
    )[i].trace == seq![outer, inner] + a[i].trace by {
        assert(seq![outer] + (seq![inner] + a[i].trace) =~= seq![outer, inner] + a[i].trace);
    }
}

} // verus!
