//! Where rejected messages go.
//!
//! SQS has no reject verb: deleting a message removes it for good and never routes it
//! through the queue's redrive policy. A rejected record is therefore sent to the
//! dead-letter queue and only then deleted from its source. A run without such a queue has to
//! be allowed explicitly: its rejected records are deleted and lost.
use vstd::prelude::*;
use vstd::string::*;

use crate::arn::{names_queue, parse_queue_arn};
use crate::redrive::{dead_letter_arn_from_redrive_policy, policy_target};
use crate::text::ends_with;

verus! {

/// The settings of the SQS side of a run.
#[derive(Debug, PartialEq, Eq)]
pub struct SqsParams {
    pub queue_url: String,
    pub dead_letter_queue_url: Option<String>,
    pub allow_no_dlq: bool,
    pub prefetch: usize,
    pub visibility_timeout: i32,
    pub wait_time: i32,
    pub max_messages: i32,
}

/// A resolved dead-letter destination.
#[derive(Debug, PartialEq, Eq)]
pub struct DeadLetter {
    pub url: String,
    /// FIFO queues require a message group (and a deduplication id) on every send.
    pub fifo: bool,
}

pub open spec fn is_fifo_url(url: Seq<char>) -> bool {
    ".fifo"@.is_suffix_of(url)
}

impl DeadLetter {
    /// The destination has this URL, and is FIFO exactly if the URL says so.
    pub open spec fn is_at(self, url: Seq<char>) -> bool {
        self.url@ == url && self.fifo == is_fifo_url(url)
    }

    pub fn from_url(url: String) -> (dead_letter: Self)
        ensures
            dead_letter.url == url,
            dead_letter.is_at(url@),
            dead_letter.fifo <==> ".fifo"@.is_suffix_of(url@),
    {
        let fifo = ends_with(url.as_str(), ".fifo");
        DeadLetter { url, fifo }
    }
}

impl Clone for DeadLetter {
    fn clone(&self) -> (copy: Self)
        ensures
            copy == *self,
    {
        DeadLetter { url: self.url.clone(), fifo: self.fifo }
    }
}

/// What the resolution of the dead-letter queue has just learnt.
#[derive(Debug, PartialEq, Eq)]
pub enum ResolveEvent {
    /// Nothing yet.
    Begin,
    /// The `RedrivePolicy` attribute of the source queue, if it has one.
    Policy(Option<String>),
    /// The URL that the queue `arn` was found under, if the reply held one.
    Url { arn: String, url: Option<String> },
}

/// Why no dead-letter queue could be resolved.
#[derive(Debug, PartialEq, Eq)]
pub enum ResolveError {
    /// The redrive policy names no dead-letter target.
    NoTarget { policy: String },
    /// The dead-letter target is not the ARN of a queue.
    BadTarget { arn: String },
    /// The queue exists, but no URL came back for it.
    NoUrl { arn: String },
}

impl ResolveError {
    pub open spec fn message_text(self) -> Seq<char> {
        match self {
            ResolveError::NoTarget { policy } => "RedrivePolicy has no deadLetterTargetArn: "@
                + policy@,
            ResolveError::BadTarget { arn } => "unparseable deadLetterTargetArn: "@ + arn@,
            ResolveError::NoUrl { arn } => "GetQueueUrl returned no URL for "@ + arn@,
        }
    }

    pub fn message(&self) -> (message: String)
        ensures
            message@ == self.message_text(),
    {
        match self {
            ResolveError::NoTarget { policy } => {
                "RedrivePolicy has no deadLetterTargetArn: ".to_string().concat(policy.as_str())
            },
            ResolveError::BadTarget { arn } => {
                "unparseable deadLetterTargetArn: ".to_string().concat(arn.as_str())
            },
            ResolveError::NoUrl { arn } => {
                "GetQueueUrl returned no URL for ".to_string().concat(arn.as_str())
            },
        }
    }
}

/// What the resolution of the dead-letter queue does next.
#[derive(Debug, PartialEq, Eq)]
pub enum ResolveStep {
    /// Ask for the `RedrivePolicy` attribute of the source queue.
    FetchPolicy,
    /// Ask for the URL of the queue `name` of `account`, whose ARN is `arn`.
    FetchUrl { arn: String, account: String, name: String },
    /// Done, with a destination or without one.
    Resolved(Option<DeadLetter>),
    Failed(ResolveError),
}

/// The step after a redrive policy whose dead-letter target is `target`.
pub open spec fn is_step_after_target(
    policy: Seq<char>,
    target: Option<Seq<char>>,
    step: ResolveStep,
) -> bool {
    match target {
        None => step matches ResolveStep::Failed(ResolveError::NoTarget { policy: p }) && p@
            == policy,
        Some(t) => match step {
            ResolveStep::FetchUrl { arn, account, name } => arn@ == t && names_queue(
                t,
                account@,
                name@,
            ),
            ResolveStep::Failed(ResolveError::BadTarget { arn }) => arn@ == t && forall|
                account: Seq<char>,
                name: Seq<char>,
            |
                !names_queue(t, account, name),
            _ => false,
        },
    }
}

/// The step that follows `event`.
pub open spec fn is_resolve_step(
    params: SqsParams,
    event: ResolveEvent,
    step: ResolveStep,
) -> bool {
    match event {
        ResolveEvent::Begin => match params.dead_letter_queue_url {
            Some(url) if url@.len() > 0 => step matches ResolveStep::Resolved(Some(dl))
                && dl.is_at(url@),
            _ => step is FetchPolicy,
        },
        ResolveEvent::Policy(None) => step == ResolveStep::Resolved(None),
        ResolveEvent::Policy(Some(policy)) => is_step_after_target(
            policy@,
            policy_target(policy@),
            step,
        ),
        ResolveEvent::Url { arn, url: None } => step == ResolveStep::Failed(
            ResolveError::NoUrl { arn },
        ),
        ResolveEvent::Url { arn, url: Some(url) } => step matches ResolveStep::Resolved(Some(dl))
            && dl.is_at(url@),
    }
}

/// Continues with the dead-letter target that a redrive policy was found to name.
pub fn resolve_target(policy: String, target: Option<String>) -> (step: ResolveStep)
    ensures
        is_step_after_target(policy@, crate::redrive::text_view(target), step),
{
    match target {
        None => ResolveStep::Failed(ResolveError::NoTarget { policy }),
        Some(arn) => match parse_queue_arn(arn.as_str()) {
            Some((account, name)) => ResolveStep::FetchUrl { arn, account, name },
            None => ResolveStep::Failed(ResolveError::BadTarget { arn }),
        },
    }
}

/// Resolves the dead-letter queue, one reply at a time: an explicit URL that is not empty,
/// else the target of the source queue's redrive policy. A source queue without a policy
/// resolves to no destination.
pub fn resolve_dead_letter(params: &SqsParams, event: ResolveEvent) -> (step: ResolveStep)
    ensures
        is_resolve_step(*params, event, step),
{
    match event {
        ResolveEvent::Begin => {
            match &params.dead_letter_queue_url {
                Some(url) => {
                    if url.as_str().is_empty() {
                        ResolveStep::FetchPolicy
                    } else {
                        ResolveStep::Resolved(Some(DeadLetter::from_url(url.clone())))
                    }
                },
                None => ResolveStep::FetchPolicy,
            }
        },
        ResolveEvent::Policy(None) => ResolveStep::Resolved(None),
        ResolveEvent::Policy(Some(policy)) => {
            let target = dead_letter_arn_from_redrive_policy(policy.as_str());
            resolve_target(policy, target)
        },
        ResolveEvent::Url { arn, url: None } => {
            ResolveStep::Failed(ResolveError::NoUrl { arn })
        },
        ResolveEvent::Url { arn: _, url: Some(url) } => {
            ResolveStep::Resolved(Some(DeadLetter::from_url(url)))
        },
    }
}

/// A resolution makes at most two calls, in this order: it asks for the policy only at the
/// beginning, and for a URL only after a policy. Every reply to the second call ends it.
pub proof fn law_resolution_ends(params: SqsParams, event: ResolveEvent, step: ResolveStep)
    requires
        is_resolve_step(params, event, step),
    ensures
        step is FetchPolicy ==> event is Begin,
        step is FetchUrl ==> event is Policy,
        event is Url ==> step is Resolved || step is Failed,
{
}

/// An explicit dead-letter URL is used as it is, without a single call.
pub proof fn law_explicit_url_wins(params: SqsParams, url: String, step: ResolveStep)
    requires
        params.dead_letter_queue_url == Some(url),
        url@.len() > 0,
        is_resolve_step(params, ResolveEvent::Begin, step),
    ensures
        step matches ResolveStep::Resolved(Some(dl)) && dl.is_at(url@),
{
}

/// Why a run must not start.
#[derive(Debug, PartialEq, Eq)]
pub struct NoDeadLetterQueue {
    pub queue_url: String,
}

impl NoDeadLetterQueue {
    pub open spec fn message_text(self) -> Seq<char> {
        "no dead-letter queue: "@ + self.queue_url@
            + " has no RedrivePolicy and --dead-letter-queue-url (SENZING_SQS_DEAD_LETTER_QUEUE_URL) is unset. Rejected records would be silently destroyed. Attach a redrive policy, pass --dead-letter-queue-url, or pass --allow-no-dlq to accept the loss."@
    }

    pub fn message(&self) -> (message: String)
        ensures
            message@ == self.message_text(),
    {
        let mut message = "no dead-letter queue: ".to_string();
        message.append(self.queue_url.as_str());
        message.append(
            " has no RedrivePolicy and --dead-letter-queue-url (SENZING_SQS_DEAD_LETTER_QUEUE_URL) is unset. Rejected records would be silently destroyed. Attach a redrive policy, pass --dead-letter-queue-url, or pass --allow-no-dlq to accept the loss.",
        );
        message
    }
}

/// Decides at startup where rejected records go: to the resolved queue; nowhere, if there
/// is none and the loss was accepted; else the run is refused, because bad records would
/// be silently destroyed.
pub fn dead_letter_at_startup(
    params: &SqsParams,
    resolved: Option<DeadLetter>,
) -> (decision: Result<Option<DeadLetter>, NoDeadLetterQueue>)
    ensures
        decision is Err <==> resolved is None && !params.allow_no_dlq,
        decision matches Ok(destination) ==> destination == resolved,
        decision matches Err(refusal) ==> refusal.queue_url == params.queue_url,
{
    match resolved {
        Some(dead_letter) => Ok(Some(dead_letter)),
        None => if params.allow_no_dlq {
            Ok(None)
        } else {
            Err(NoDeadLetterQueue { queue_url: params.queue_url.clone() })
        },
    }
}

/// A destination at a URL has that URL, and is FIFO exactly if the URL ends in `.fifo`.
pub proof fn law_fifo_queues_end_in_fifo(dead_letter: DeadLetter, url: Seq<char>)
    requires
        dead_letter.is_at(url),
    ensures
        dead_letter.url@ == url,
        dead_letter.fifo <==> url.len() >= 5 && url.skip(url.len() - 5) == seq![
            '.',
            'f',
            'i',
            'f',
            'o',
        ],
{
    reveal_strlit(".fifo");
    assert(".fifo"@ =~= seq!['.', 'f', 'i', 'f', 'o']);
    if url.len() >= 5 {
        assert(url.skip(url.len() - 5) =~= url.subrange(url.len() - 5, url.len() as int));
    }
}

/// How a resolution begins: with an explicit URL that is not empty it is over, and else the
/// policy of the source queue is asked for.
pub proof fn law_resolution_begins_with_the_explicit_url(params: SqsParams, step: ResolveStep)
    requires
        is_resolve_step(params, ResolveEvent::Begin, step),
    ensures
        match params.dead_letter_queue_url {
            Some(url) => if url@.len() > 0 {
                step matches ResolveStep::Resolved(Some(dl)) && dl.url@ == url@ && (dl.fifo
                    <==> ".fifo"@.is_suffix_of(url@))
            } else {
                step is FetchPolicy
            },
            None => step is FetchPolicy,
        },
{
}

/// What a policy leads to. Without one there is no destination. With one, a target that is the
/// ARN of a queue has the URL of that queue asked for, by its own account and name; a target
/// that is not, or none at all, is an error that names it.
pub proof fn law_policy_leads_to_its_target(
    params: SqsParams,
    policy: Option<String>,
    step: ResolveStep,
)
    requires
        is_resolve_step(params, ResolveEvent::Policy(policy), step),
    ensures
        policy is None ==> (step matches ResolveStep::Resolved(dl) && dl is None),
        policy matches Some(p) ==> match policy_target(p@) {
            None => step matches ResolveStep::Failed(ResolveError::NoTarget { policy: named })
                && named@ == p@,
            Some(target) => {
                ||| step matches ResolveStep::FetchUrl { arn, account, name } && arn@ == target
                    && names_queue(target, account@, name@)
                ||| step matches ResolveStep::Failed(ResolveError::BadTarget { arn }) && arn@
                    == target && forall|account: Seq<char>, name: Seq<char>|
                    !names_queue(target, account, name)
            },
        },
{
}

/// What the URL of the target leads to: a destination at that URL, or an error that names the
/// target if the reply held none.
pub proof fn law_url_is_the_destination(
    params: SqsParams,
    arn: String,
    url: Option<String>,
    step: ResolveStep,
)
    requires
        is_resolve_step(params, ResolveEvent::Url { arn, url }, step),
    ensures
        url matches Some(u) ==> (step matches ResolveStep::Resolved(Some(dl)) && dl.url@ == u@ && (
        dl.fifo <==> ".fifo"@.is_suffix_of(u@))),
        url is None ==> (step matches ResolveStep::Failed(ResolveError::NoUrl { arn: named })
            && named == arn),
{
}

/// What the errors say.
pub proof fn law_resolve_errors_say(error: ResolveError, refusal: NoDeadLetterQueue)
    ensures
        match error {
            ResolveError::NoTarget { policy } => error.message_text()
                == "RedrivePolicy has no deadLetterTargetArn: "@ + policy@,
            ResolveError::BadTarget { arn } => error.message_text()
                == "unparseable deadLetterTargetArn: "@ + arn@,
            ResolveError::NoUrl { arn } => error.message_text()
                == "GetQueueUrl returned no URL for "@ + arn@,
        },
        refusal.message_text() == "no dead-letter queue: "@ + refusal.queue_url@
            + " has no RedrivePolicy and --dead-letter-queue-url (SENZING_SQS_DEAD_LETTER_QUEUE_URL) is unset. Rejected records would be silently destroyed. Attach a redrive policy, pass --dead-letter-queue-url, or pass --allow-no-dlq to accept the loss."@,
{
}

} // verus!
