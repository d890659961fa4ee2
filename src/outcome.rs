//! Probe outcomes, and the classification of one probe's reply.
use vstd::prelude::*;
use vstd::string::StringExecFns;
use crate::endpoint::Endpoint;
use crate::text::{decimal, decimal_string};

verus! {

/// What one probe yields. Exactly one of `response_time` and `error` is
/// present once the probe has settled (see `is_settled`).
#[derive(Debug)]
pub struct TestResult {
    pub name: String,
    pub url: String,
    /// Round-trip time in nanoseconds, when the probe succeeded.
    pub response_time: Option<u128>,
    /// Description of the failure, when the probe failed.
    pub error: Option<String>,
}

impl TestResult {
    /// Exactly one of a latency and an error is present.
    pub open spec fn is_settled(&self) -> bool {
        self.response_time.is_some() != self.error.is_some()
    }

    /// A result for the endpoint `name` at `url` that holds neither a latency
    /// nor an error yet.
    pub fn new(name: String, url: String) -> (r: TestResult)
        ensures
            r.name == name,
            r.url == url,
            r.response_time.is_none(),
            r.error.is_none(),
    {
        TestResult { name, url, response_time: None, error: None }
    }

    /// This result with the measured latency `nanos` attached.
    pub fn with_success(self, nanos: u128) -> (r: TestResult)
        ensures
            r.name == self.name,
            r.url == self.url,
            r.response_time == Some(nanos),
            r.error == self.error,
    {
        let mut r = self;
        r.response_time = Some(nanos);
        r
    }

    /// This result with the failure description `error` attached.
    pub fn with_error(self, error: String) -> (r: TestResult)
        ensures
            r.name == self.name,
            r.url == self.url,
            r.response_time == self.response_time,
            r.error == Some(error),
    {
        let mut r = self;
        r.error = Some(error);
        r
    }
}

/// How one request settled, as observed at the transport.
pub enum ProbeReply {
    /// A response arrived with HTTP status `code` after `elapsed_nanos`.
    Status { code: u16, elapsed_nanos: u128 },
    /// The transport failed (connect, DNS, TLS, timeout); `message` describes it.
    Transport { message: String },
}

/// HTTP status codes of the success class (2xx).
pub open spec fn is_success_status(code: u16) -> bool {
    200 <= code && code <= 299
}

/// The error text of a response whose status is `code`.
pub open spec fn status_error_text(code: u16) -> Seq<char> {
    "HTTP "@ + decimal(code as nat)
}

/// The error text for a response with a non-success status `code`.
pub fn status_error(code: u16) -> (r: String)
    ensures
        r@ == status_error_text(code),
{
    let mut r = String::from_str("HTTP ");
    let digits = decimal_string(code as u128);
    r.append(digits.as_str());
    r
}

/// The outcome of probing `endpoint` when the request settled as `reply`: a
/// 2xx status gives the latency, another status gives "HTTP <code>", and a
/// transport failure gives its description.
pub fn probe_outcome(endpoint: &Endpoint, reply: ProbeReply) -> (r: TestResult)
    ensures
        r.name@ == endpoint.name@,
        r.url@ == endpoint.url@,
        r.is_settled(),
        match reply {
            ProbeReply::Status { code, elapsed_nanos } => if is_success_status(code) {
                r.response_time == Some(elapsed_nanos) && r.error.is_none()
            } else {
                r.response_time.is_none() && (r.error matches Some(e) && e@
                    == status_error_text(code))
            },
            ProbeReply::Transport { message } => r.response_time.is_none() && r.error
                == Some(message),
        },
{
    let fresh = TestResult::new(endpoint.name.clone(), endpoint.url.clone());
    match reply {
        ProbeReply::Status { code, elapsed_nanos } => {
            if 200 <= code && code <= 299 {
                fresh.with_success(elapsed_nanos)
            } else {
                fresh.with_error(status_error(code))
            }
        },
        ProbeReply::Transport { message } => fresh.with_error(message),
    }
}

/// The outcomes present in `joined`, in order; absent entries (tasks that
/// could not complete) are left out.
pub open spec fn completed(joined: Seq<Option<TestResult>>) -> Seq<TestResult>
    decreases joined.len(),
{
    if joined.len() == 0 {
        Seq::empty()
    } else {
        match joined.last() {
            Some(r) => completed(joined.drop_last()).push(r),
            None => completed(joined.drop_last()),
        }
    }
}

/// Gathers the outcomes of the probe tasks, one entry per task in `joined`,
/// leaving out the tasks that could not complete rather than failing the batch.
pub fn collect_outcomes(joined: Vec<Option<TestResult>>) -> (r: Vec<TestResult>)
    ensures
        r@ == completed(joined@),
        (forall|k: int| 0 <= k < joined@.len() && (#[trigger] joined@[k]) is Some
            ==> joined@[k]->0.is_settled()) ==> forall|k: int| 0 <= k < r@.len()
            ==> (#[trigger] r@[k]).is_settled(),
{
    proof {
        if forall|k: int| 0 <= k < joined@.len() && (#[trigger] joined@[k]) is Some
            ==> joined@[k]->0.is_settled() {
            lemma_completed_settled(joined@);
        }
    }
    let ghost all = joined@;
    let n = joined.len();
    let mut rest = joined;
    let mut r: Vec<TestResult> = Vec::new();
    let mut i: usize = 0;
    assert(all.subrange(0, 0) =~= Seq::<Option<TestResult>>::empty());
    while i < n
        invariant
            n == all.len(),
            i <= n,
            rest@ == all.subrange(i as int, n as int),
            r@ == completed(all.subrange(0, i as int)),
        decreases n - i,
    {
        let entry = rest.remove(0);
        proof {
            assert(entry == all[i as int]);
            assert(all.subrange(0, i + 1).drop_last() =~= all.subrange(0, i as int));
            assert(rest@ =~= all.subrange(i + 1, n as int));
        }
        match entry {
            Some(outcome) => r.push(outcome),
            None => {},
        }
        i = i + 1;
    }
    assert(all.subrange(0, n as int) =~= all);
    r
}

/// Gathering keeps outcomes as they are: when every completed task's outcome
/// holds exactly one of a latency and an error, so does every gathered one.
pub proof fn lemma_completed_settled(joined: Seq<Option<TestResult>>)
    requires
        forall|k: int| 0 <= k < joined.len() && (#[trigger] joined[k]) is Some ==> joined[k]->0.is_settled(),
    ensures
        forall|k: int| 0 <= k < completed(joined).len() ==> (#[trigger] completed(joined)[k]).is_settled(),
    decreases joined.len(),
{
    if joined.len() > 0 {
        let pre = joined.drop_last();
        assert forall|k: int| 0 <= k < pre.len() && (#[trigger] pre[k]) is Some implies pre[k]->0.is_settled() by {
            assert(pre[k] == joined[k]);
        }
        lemma_completed_settled(pre);
        let c = completed(joined);
        let cp = completed(pre);
        assert forall|k: int| 0 <= k < c.len() implies (#[trigger] c[k]).is_settled() by {
            if k < cp.len() {
                assert(c[k] == cp[k]);
            }
        }
    } else {
        assert(completed(joined).len() == 0);
    }
}

} // verus!
