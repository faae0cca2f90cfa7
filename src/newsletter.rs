//! Outgoing mail: the confirmation message sent to a new subscriber, and the
//! policy of a newsletter run over the confirmed subscribers.
use vstd::prelude::*;
use crate::auth::{header_error_text, AuthError, AuthHeaderError};
use crate::domain::{is_valid_email, valid_email};

verus! {

/// The public base URL of the service, used to build links in emails.
pub struct ApplicationBaseUrl(pub String);

/// Query parameters of a confirmation request.
pub struct Parameters {
    pub subscription_token: String,
}

/// One message for the email gateway.
pub struct Email {
    pub subject: String,
    pub html_body: String,
    pub text_body: String,
}

pub open spec fn confirmation_link(base_url: Seq<char>, token: Seq<char>) -> Seq<char> {
    base_url + "/subscriptions/confirm?subscription_token="@ + token
}

/// The welcome message that carries the confirmation link for `token`.
pub fn confirmation_email(base_url: &ApplicationBaseUrl, token: &str) -> (r: Email)
    ensures
        r.subject@ == "Welcome!"@,
        r.text_body@ == "Welcome to our newsletter!\nVisit "@ + confirmation_link(base_url.0@, token@)
            + " to confirm your subscription."@,
        r.html_body@ == "Welcome to our newsletter!<br />Click <a href=\""@ + confirmation_link(
            base_url.0@,
            token@,
        ) + "\">here</a> to confirm your subscription."@,
{
    let mut link = base_url.0.clone();
    link.append("/subscriptions/confirm?subscription_token=");
    link.append(token);
    let mut text_body = String::from_str("Welcome to our newsletter!\nVisit ");
    text_body.append(link.as_str());
    text_body.append(" to confirm your subscription.");
    let mut html_body = String::from_str("Welcome to our newsletter!<br />Click <a href=\"");
    html_body.append(link.as_str());
    html_body.append("\">here</a> to confirm your subscription.");
    Email { subject: String::from_str("Welcome!"), html_body, text_body }
}

/// A newsletter issue as the operator submits it.
pub struct BodyData {
    pub title: String,
    pub content: Content,
}

pub struct Content {
    pub html: String,
    pub text: String,
}

/// Failure of the publishing endpoint.
pub enum PublishError {
    /// Credentials missing or refused; the message says why.
    AuthError(String),
    /// Anything else; the message is the internal cause chain.
    UnexpectedError(String),
}

impl PublishError {
    pub fn status_code(&self) -> (r: u16)
        ensures
            r == (if self is AuthError { 401u16 } else { 500u16 }),
    {
        match self {
            PublishError::AuthError(_) => 401,
            PublishError::UnexpectedError(_) => 500,
        }
    }

    /// What the caller is told; the internal cause never reaches it.
    pub fn message(&self) -> (r: String)
        ensures
            self is AuthError ==> r@ == "Authorization failed."@,
            self is UnexpectedError ==> r@ == "Unexpected internal server error."@,
    {
        match self {
            PublishError::AuthError(_) => String::from_str("Authorization failed."),
            PublishError::UnexpectedError(_) => String::from_str("Unexpected internal server error."),
        }
    }

    /// The `WWW-Authenticate` challenge that a refusal carries.
    pub fn www_authenticate(&self) -> (r: Option<String>)
        ensures
            self is AuthError ==> (r matches Some(v) && v@ == "Basic realm=\"publish\""@),
            self is UnexpectedError ==> r is None,
    {
        match self {
            PublishError::AuthError(_) => Some(String::from_str("Basic realm=\"publish\"")),
            PublishError::UnexpectedError(_) => None,
        }
    }

    pub fn from_header_error(e: AuthHeaderError) -> (r: PublishError)
        ensures
            r matches PublishError::AuthError(m) && m@ == header_error_text(e),
    {
        PublishError::AuthError(e.message())
    }

    /// A refused credential check is an authentication failure; a failed one
    /// is unexpected.
    pub fn from_auth_error(e: AuthError) -> (r: PublishError)
        ensures
            e == AuthError::InvalidCredentials ==> (r matches PublishError::AuthError(m) && m@
                == "Authentication failed."@),
            e == AuthError::UnexpectedError ==> (r matches PublishError::UnexpectedError(m) && m@
                == "Failed to validate credentials."@),
    {
        match e {
            AuthError::InvalidCredentials => PublishError::AuthError(String::from_str("Authentication failed.")),
            AuthError::UnexpectedError => PublishError::UnexpectedError(String::from_str("Failed to validate credentials.")),
        }
    }
}

/// The addresses that a run sends to: the valid ones, in order. The others
/// are skipped.
pub open spec fn valid_recipients(emails: Seq<Seq<char>>) -> Seq<Seq<char>> {
    emails.filter(|e: Seq<char>| valid_email(e))
}

/// The abstract state of a run: who is to be sent to, how many sends
/// succeeded, and whether a send failed.
pub ghost struct RunState {
    pub recipients: Seq<Seq<char>>,
    pub sent: nat,
    pub failed: bool,
}

pub open spec fn run_finished(st: RunState) -> bool {
    st.failed || st.sent >= st.recipients.len()
}

/// The effect of one gateway outcome: a delivery moves on to the next
/// recipient, a failure stops the run for good.
pub open spec fn run_step(st: RunState, delivered: bool) -> RunState {
    if run_finished(st) {
        st
    } else if delivered {
        RunState { sent: st.sent + 1, ..st }
    } else {
        RunState { failed: true, ..st }
    }
}

/// The state after a sequence of gateway outcomes, one per send.
pub open spec fn run_all(st: RunState, outcomes: Seq<bool>) -> RunState
    decreases outcomes.len(),
{
    if outcomes.len() == 0 {
        st
    } else {
        run_all(run_step(st, outcomes[0]), outcomes.drop_first())
    }
}

#[derive(Clone, Copy, Debug, PartialEq, Eq, Structural)]
pub enum RunStatus {
    InProgress,
    Completed,
    Aborted,
}

/// A newsletter run: recipients are taken one at a time, strictly in order.
pub struct PublishRun {
    recipients: Vec<String>,
    sent: usize,
    failed: bool,
    skipped: usize,
}

impl View for PublishRun {
    type V = RunState;

    closed spec fn view(&self) -> RunState {
        RunState {
            recipients: self.recipients@.map_values(|e: String| e@),
            sent: self.sent as nat,
            failed: self.failed,
        }
    }
}

impl PublishRun {
    pub closed spec fn wf(&self) -> bool {
        self.sent <= self.recipients@.len()
    }

    /// Starts a run over the stored addresses of the confirmed subscribers.
    /// An address that is no longer valid is skipped; it does not stop the run.
    pub fn new(emails: &Vec<String>) -> (r: PublishRun)
        ensures
            r.wf(),
            r@ == (RunState {
                recipients: valid_recipients(emails@.map_values(|e: String| e@)),
                sent: 0,
                failed: false,
            }),
            r.skipped_spec() + r@.recipients.len() == emails@.len(),
    {
        let mut recipients: Vec<String> = Vec::new();
        let mut skipped: usize = 0;
        let mut i: usize = 0;
        while i < emails.len()
            invariant
                i <= emails@.len(),
                skipped + recipients@.len() == i,
                recipients@.map_values(|e: String| e@) == valid_recipients(
                    emails@.subrange(0, i as int).map_values(|e: String| e@),
                ),
            decreases emails@.len() - i,
        {
            proof {
                reveal(Seq::filter);
                let all = emails@.subrange(0, i + 1).map_values(|e: String| e@);
                assert(all.drop_last() =~= emails@.subrange(0, i as int).map_values(|e: String| e@));
                assert(all.last() == emails@[i as int]@);
            }
            if is_valid_email(emails[i].as_str()) {
                let ghost prev = recipients@;
                recipients.push(emails[i].clone());
                proof {
                    assert(recipients@.map_values(|e: String| e@) =~= prev.map_values(
                        |e: String| e@,
                    ).push(emails@[i as int]@));
                }
            } else {
                skipped = skipped + 1;
            }
            i = i + 1;
        }
        proof {
            assert(emails@.subrange(0, i as int) =~= emails@);
            assert(recipients@.map_values(|e: String| e@).len() == recipients@.len());
        }
        PublishRun { recipients, sent: 0, failed: false, skipped }
    }

    pub closed spec fn skipped_spec(&self) -> nat {
        self.skipped as nat
    }

    /// How many stored addresses were skipped as invalid.
    pub fn skipped(&self) -> (r: usize)
        ensures
            r == self.skipped_spec(),
    {
        self.skipped
    }

    /// Number of successful sends so far.
    pub fn sent(&self) -> (r: usize)
        ensures
            r == self@.sent,
    {
        self.sent
    }

    /// The next address to send to; `None` once the run has finished.
    pub fn next_recipient(&self) -> (r: Option<String>)
        requires
            self.wf(),
        ensures
            r is None <==> run_finished(self@),
            r matches Some(e) ==> e@ == self@.recipients[self@.sent as int],
    {
        if self.failed || self.sent >= self.recipients.len() {
            None
        } else {
            Some(self.recipients[self.sent].clone())
        }
    }

    /// Records what the gateway answered for the current recipient.
    pub fn record_delivery(&mut self, delivered: bool)
        requires
            old(self).wf(),
        ensures
            final(self).wf(),
            final(self)@ == run_step(old(self)@, delivered),
            final(self).skipped_spec() == old(self).skipped_spec(),
    {
        if self.failed || self.sent >= self.recipients.len() {
            return;
        }
        if delivered {
            self.sent = self.sent + 1;
        } else {
            self.failed = true;
        }
    }

    pub fn status(&self) -> (r: RunStatus)
        ensures
            r == (if self@.failed {
                RunStatus::Aborted
            } else if self@.sent >= self@.recipients.len() {
                RunStatus::Completed
            } else {
                RunStatus::InProgress
            }),
    {
        if self.failed {
            RunStatus::Aborted
        } else if self.sent >= self.recipients.len() {
            RunStatus::Completed
        } else {
            RunStatus::InProgress
        }
    }
}

/// When every send succeeds, a run sends exactly once to each valid
/// recipient: after as many successful outcomes as there are recipients
/// left, all of them have been sent to and the run has not failed.
pub proof fn lemma_all_delivered(st: RunState, outcomes: Seq<bool>)
    requires
        !st.failed,
        st.sent <= st.recipients.len(),
        outcomes.len() >= st.recipients.len() - st.sent,
        forall|i: int| 0 <= i < outcomes.len() ==> #[trigger] outcomes[i],
    ensures
        run_all(st, outcomes).sent == st.recipients.len(),
        !run_all(st, outcomes).failed,
        run_all(st, outcomes).recipients == st.recipients,
    decreases outcomes.len(),
{
    if outcomes.len() > 0 {
        let next = run_step(st, outcomes[0]);
        assert forall|i: int| 0 <= i < outcomes.drop_first().len() implies #[trigger] outcomes.drop_first()[i] by {
            assert(outcomes.drop_first()[i] == outcomes[i + 1]);
        }
        lemma_all_delivered(next, outcomes.drop_first());
    }
}

/// The first failed send aborts the run: if the sends to the next `k`
/// recipients succeed and the one after fails, exactly those `k` were sent
/// to, the run has failed, and no later outcome changes anything.
pub proof fn lemma_first_failure_aborts(st: RunState, outcomes: Seq<bool>, k: int)
    requires
        !st.failed,
        0 <= k < outcomes.len(),
        st.sent + k < st.recipients.len(),
        !outcomes[k],
        forall|i: int| 0 <= i < k ==> #[trigger] outcomes[i],
    ensures
        run_all(st, outcomes) == (RunState { sent: st.sent + k as nat, failed: true, ..st }),
    decreases k,
{
    let next = run_step(st, outcomes[0]);
    if k == 0 {
        lemma_finished_stays(next, outcomes.drop_first());
    } else {
        assert forall|i: int| 0 <= i < k - 1 implies #[trigger] outcomes.drop_first()[i] by {
            assert(outcomes.drop_first()[i] == outcomes[i + 1]);
        }
        lemma_first_failure_aborts(next, outcomes.drop_first(), k - 1);
    }
}

/// A finished run ignores any further outcome.
pub proof fn lemma_finished_stays(st: RunState, outcomes: Seq<bool>)
    requires
        run_finished(st),
    ensures
        run_all(st, outcomes) == st,
    decreases outcomes.len(),
{
    if outcomes.len() > 0 {
        lemma_finished_stays(run_step(st, outcomes[0]), outcomes.drop_first());
    }
}

} // verus!
