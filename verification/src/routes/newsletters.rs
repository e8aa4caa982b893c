//! Sending an issue at once, without the delivery queue.

use crate::database::{confirmed_emails, texts, Database};
use crate::domain::{is_valid_email, SubscriberEmail};
use crate::email_client::{DeliveryError, EmailGateway, EmailGatewayView, EmailView};
use crate::http::Response;
use crate::utils::{empty_ok, ok};
use vstd::prelude::*;
use vstd::string::StringExecFns;

verus! {

pub struct BodyData {
    pub title: String,
    pub content: Content,
}

pub struct Content {
    pub html: String,
    pub text: String,
}

/// Why an issue could not be sent out.
#[derive(Debug, Clone, PartialEq, Eq)]
pub enum PublishFailure {
    /// The gateway did not take the message for `recipient`. Nothing was
    /// sent to those that come after.
    SendFailed { recipient: String, error: DeliveryError },
}

#[derive(Debug, Clone, PartialEq, Eq)]
pub enum PublishError {
    UnexpectedError(PublishFailure),
}

impl PublishError {
    pub fn status_code(&self) -> (code: u16)
        ensures
            code == 500,
    {
        match self {
            PublishError::UnexpectedError(_) => 500,
        }
    }

    /// What the error says of itself: whom the issue could not be sent to.
    pub fn message(&self) -> (text: String)
        ensures
            self matches PublishError::UnexpectedError(
                PublishFailure::SendFailed { recipient, .. },
            ) && text@ == "Failed to send newsletter issue to "@ + recipient@,
    {
        match self {
            PublishError::UnexpectedError(PublishFailure::SendFailed { recipient, .. }) => {
                String::from_str("Failed to send newsletter issue to ").concat(recipient.as_str())
            },
        }
    }
}

/// Whether `i` is the position of the first valid address among
/// `recipients`.
pub open spec fn is_first_valid(recipients: Seq<Seq<char>>, i: int) -> bool {
    &&& 0 <= i < recipients.len()
    &&& is_valid_email(recipients[i])
    &&& forall|j: int| 0 <= j < i ==> !is_valid_email(#[trigger] recipients[j])
}

/// The messages that carry `body` to the valid addresses among
/// `recipients`, in order.
pub open spec fn issue_messages(recipients: Seq<Seq<char>>, body: BodyData) -> Seq<EmailView>
    decreases recipients.len(),
{
    if recipients.len() == 0 {
        Seq::empty()
    } else {
        let earlier = issue_messages(recipients.drop_last(), body);
        if is_valid_email(recipients.last()) {
            earlier.push(
                EmailView {
                    recipient: recipients.last(),
                    subject: body.title@,
                    html_content: body.content.html@,
                    text_content: body.content.text@,
                },
            )
        } else {
            earlier
        }
    }
}

/// Sends an issue at once to every confirmed subscriber with a valid
/// address, and stops at the first send that fails, naming its recipient. With a gateway that
/// accepts messages each of them gets one; with one that does not, nothing
/// is sent and the command fails unless there was nobody to send to.
pub fn publish_newsletters(body: BodyData, pool: &Database, email_client: &mut EmailGateway) -> (answer:
    Result<Response, PublishError>)
    ensures
        final(email_client)@ == (EmailGatewayView {
            delivered: if old(email_client)@.available {
                old(email_client)@.delivered + issue_messages(
                    confirmed_emails(pool@.subscriptions),
                    body,
                )
            } else {
                old(email_client)@.delivered
            },
            ..old(email_client)@
        }),
        match answer {
            Ok(response) => response@ == empty_ok() && (old(email_client)@.available
                || issue_messages(confirmed_emails(pool@.subscriptions), body).len() == 0),
            Err(reason) => {
                &&& reason matches PublishError::UnexpectedError(
                    PublishFailure::SendFailed { recipient, error },
                )
                &&& error == DeliveryError::GatewayUnavailable
                &&& exists|i: int|
                    is_first_valid(confirmed_emails(pool@.subscriptions), i) && recipient@
                        == confirmed_emails(pool@.subscriptions)[i]
                &&& !old(email_client)@.available
                &&& issue_messages(confirmed_emails(pool@.subscriptions), body).len() > 0
            },
        },
{
    let subscribers = pool.confirmed_subscribers();
    let ghost recipients = texts(subscribers@);
    let ghost start = email_client@;
    let mut i: usize = 0;
    assert(recipients.take(0) =~= Seq::empty());
    assert(start.delivered + Seq::<EmailView>::empty() =~= start.delivered);
    while i < subscribers.len()
        invariant
            i <= subscribers.len(),
            recipients == texts(subscribers@),
            recipients == confirmed_emails(pool@.subscriptions),
            start == old(email_client)@,
            email_client@.available == start.available,
            start.available ==> email_client@.delivered == start.delivered + issue_messages(
                recipients.take(i as int),
                body,
            ),
            !start.available ==> email_client@ == start && issue_messages(
                recipients.take(i as int),
                body,
            ).len() == 0,
            !start.available ==> forall|j: int|
                0 <= j < i ==> !is_valid_email(#[trigger] recipients[j]),
        decreases subscribers.len() - i,
    {
        let ghost seen = recipients.take(i as int);
        proof {
            assert(recipients.take(i + 1).drop_last() =~= seen);
            assert(recipients.take(i + 1).last() == recipients[i as int]);
            lemma_messages_grow(recipients, i as int, body);
        }
        match SubscriberEmail::parse(subscribers[i].clone()) {
            Ok(subscriber_email) => {
                let ghost before = email_client@;
                match email_client.send_email(
                    &subscriber_email,
                    body.title.as_str(),
                    body.content.html.as_str(),
                    body.content.text.as_str(),
                ) {
                    Ok(()) => {
                        proof {
                            let sent = issue_messages(seen, body);
                            let message = EmailView {
                                recipient: recipients[i as int],
                                subject: body.title@,
                                html_content: body.content.html@,
                                text_content: body.content.text@,
                            };
                            assert((start.delivered + sent).push(message) =~= start.delivered
                                + sent.push(message));
                        }
                    },
                    Err(error) => {
                        proof {
                            assert(recipients.take(recipients.len() as int) =~= recipients);
                            lemma_messages_monotone(recipients, i + 1, body);
                            assert(is_first_valid(recipients, i as int));
                        }
                        return Err(
                            PublishError::UnexpectedError(
                                PublishFailure::SendFailed {
                                    recipient: subscribers[i].clone(),
                                    error,
                                },
                            ),
                        );
                    },
                }
            },
            Err(_) => {},
        }
        i += 1;
    }
    assert(recipients.take(i as int) =~= recipients);
    Ok(ok())
}

/// One more recipient adds at most one message.
proof fn lemma_messages_grow(recipients: Seq<Seq<char>>, i: int, body: BodyData)
    requires
        0 <= i < recipients.len(),
    ensures
        issue_messages(recipients.take(i + 1), body).len() >= issue_messages(
            recipients.take(i),
            body,
        ).len(),
        is_valid_email(recipients[i]) ==> issue_messages(recipients.take(i + 1), body).len()
            > issue_messages(recipients.take(i), body).len(),
{
    assert(recipients.take(i + 1).drop_last() =~= recipients.take(i));
    assert(recipients.take(i + 1).last() == recipients[i]);
}

/// The messages for a longer list are no fewer.
proof fn lemma_messages_monotone(recipients: Seq<Seq<char>>, i: int, body: BodyData)
    requires
        0 <= i <= recipients.len(),
    ensures
        issue_messages(recipients.take(i), body).len() <= issue_messages(recipients, body).len(),
    decreases recipients.len() - i,
{
    if i < recipients.len() {
        lemma_messages_grow(recipients, i, body);
        lemma_messages_monotone(recipients, i + 1, body);
    } else {
        assert(recipients.take(i) =~= recipients);
    }
}

} // verus!
