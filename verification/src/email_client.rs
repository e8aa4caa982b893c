//! The email gateway: the request that asks it to send a message, and a
//! gateway that keeps what it is given, which the delivery worker is proved
//! against.

use crate::domain::SubscriberEmail;
use vstd::prelude::*;
use vstd::string::StringExecFns;

verus! {

/// One message, as it is handed to the email gateway.
#[derive(Debug, PartialEq, Eq)]
pub struct Email {
    pub recipient: String,
    pub subject: String,
    pub html_content: String,
    pub text_content: String,
}

pub struct EmailView {
    pub recipient: Seq<char>,
    pub subject: Seq<char>,
    pub html_content: Seq<char>,
    pub text_content: Seq<char>,
}

impl View for Email {
    type V = EmailView;

    open spec fn view(&self) -> EmailView {
        EmailView {
            recipient: self.recipient@,
            subject: self.subject@,
            html_content: self.html_content@,
            text_content: self.text_content@,
        }
    }
}

impl Email {
    pub fn duplicate(&self) -> (copy: Email)
        ensures
            copy@ == self@,
    {
        Email {
            recipient: self.recipient.clone(),
            subject: self.subject.clone(),
            html_content: self.html_content.clone(),
            text_content: self.text_content.clone(),
        }
    }
}

/// The request that asks the email API to send one message: where it is
/// posted, the two headers that go with it, and the fields of its body.
#[derive(Debug, PartialEq, Eq)]
pub struct SendEmailRequest {
    pub url: String,
    pub requested_with: String,
    pub authorization: String,
    pub from: String,
    pub to: String,
    pub subject: String,
    pub text: String,
    pub html: String,
}

pub struct SendEmailRequestView {
    pub url: Seq<char>,
    pub requested_with: Seq<char>,
    pub authorization: Seq<char>,
    pub from: Seq<char>,
    pub to: Seq<char>,
    pub subject: Seq<char>,
    pub text: Seq<char>,
    pub html: Seq<char>,
}

impl View for SendEmailRequest {
    type V = SendEmailRequestView;

    open spec fn view(&self) -> SendEmailRequestView {
        SendEmailRequestView {
            url: self.url@,
            requested_with: self.requested_with@,
            authorization: self.authorization@,
            from: self.from@,
            to: self.to@,
            subject: self.subject@,
            text: self.text@,
            html: self.html@,
        }
    }
}

/// The account at the email API that messages are sent from.
pub struct EmailClient {
    base_url: String,
    sender: SubscriberEmail,
    authorization_token: String,
    timeout_milliseconds: u64,
}

pub struct EmailClientView {
    pub base_url: Seq<char>,
    pub sender: Seq<char>,
    pub authorization_token: Seq<char>,
    pub timeout_milliseconds: u64,
}

impl View for EmailClient {
    type V = EmailClientView;

    closed spec fn view(&self) -> EmailClientView {
        EmailClientView {
            base_url: self.base_url@,
            sender: self.sender@,
            authorization_token: self.authorization_token@,
            timeout_milliseconds: self.timeout_milliseconds,
        }
    }
}

impl EmailClientView {
    /// The request that sends `email` from this account.
    pub open spec fn request(self, email: EmailView) -> SendEmailRequestView {
        SendEmailRequestView {
            url: self.base_url + "/email"@,
            requested_with: "XMLHttpRequest"@,
            authorization: "Bearer "@ + self.authorization_token,
            from: self.sender,
            to: email.recipient,
            subject: email.subject,
            text: email.text_content,
            html: email.html_content,
        }
    }
}

impl EmailClient {
    pub fn new(
        base_url: String,
        sender: SubscriberEmail,
        authorization_token: String,
        timeout_milliseconds: u64,
    ) -> (client: EmailClient)
        ensures
            client@ == (EmailClientView {
                base_url: base_url@,
                sender: sender@,
                authorization_token: authorization_token@,
                timeout_milliseconds,
            }),
    {
        EmailClient { base_url, sender, authorization_token, timeout_milliseconds }
    }

    /// How long a send may take before it counts as failed, in milliseconds.
    pub fn timeout_milliseconds(&self) -> (milliseconds: u64)
        ensures
            milliseconds == self@.timeout_milliseconds,
    {
        self.timeout_milliseconds
    }

    /// Builds the request that sends one message to `recipient`.
    pub fn send_email_request(
        &self,
        recipient: &SubscriberEmail,
        subject: &str,
        html_content: &str,
        text_content: &str,
    ) -> (request: SendEmailRequest)
        ensures
            request@ == self@.request(
                EmailView {
                    recipient: recipient@,
                    subject: subject@,
                    html_content: html_content@,
                    text_content: text_content@,
                },
            ),
    {
        SendEmailRequest {
            url: self.base_url.clone().concat("/email"),
            requested_with: String::from_str("XMLHttpRequest"),
            authorization: String::from_str("Bearer ").concat(self.authorization_token.as_str()),
            from: String::from_str(self.sender.as_str()),
            to: String::from_str(recipient.as_str()),
            subject: String::from_str(subject),
            text: String::from_str(text_content),
            html: String::from_str(html_content),
        }
    }
}

/// A send that the gateway did not carry out. It may succeed when tried
/// again.
#[derive(Debug, Clone, Copy, PartialEq, Eq, Structural)]
pub enum DeliveryError {
    /// The gateway could not be reached or answered with an error.
    GatewayUnavailable,
}

/// The content of an [`EmailGateway`]: whether it accepts messages, and the
/// messages it has accepted, oldest first.
pub struct EmailGatewayView {
    pub available: bool,
    pub delivered: Seq<EmailView>,
}

/// The views of a list of messages, in order.
pub open spec fn emails_view(emails: Seq<Email>) -> Seq<EmailView> {
    Seq::new(emails.len(), |i: int| emails[i]@)
}

/// An email gateway that keeps what it is given. While it is unavailable
/// every send fails and nothing is kept.
pub struct EmailGateway {
    available: bool,
    delivered: Vec<Email>,
}

impl View for EmailGateway {
    type V = EmailGatewayView;

    closed spec fn view(&self) -> EmailGatewayView {
        EmailGatewayView { available: self.available, delivered: emails_view(self.delivered@) }
    }
}

impl EmailGatewayView {
    /// The gateway after it was asked to send `email`.
    pub open spec fn send(self, email: EmailView) -> EmailGatewayView {
        if self.available {
            EmailGatewayView { delivered: self.delivered.push(email), ..self }
        } else {
            self
        }
    }
}

impl EmailGateway {
    /// A gateway that accepts messages and has accepted none yet.
    pub fn new() -> (gateway: EmailGateway)
        ensures
            gateway@ == (EmailGatewayView { available: true, delivered: Seq::empty() }),
    {
        let gateway = EmailGateway { available: true, delivered: Vec::new() };
        assert(gateway@.delivered =~= Seq::empty());
        gateway
    }

    /// Makes the gateway accept messages, or fail every send.
    pub fn set_available(&mut self, available: bool)
        ensures
            final(self)@ == (EmailGatewayView { available, ..old(self)@ }),
    {
        self.available = available;
    }

    /// Asks the gateway to send one message. It is kept exactly when the
    /// gateway is available.
    pub fn send_email(
        &mut self,
        recipient: &SubscriberEmail,
        subject: &str,
        html_content: &str,
        text_content: &str,
    ) -> (sent: Result<(), DeliveryError>)
        ensures
            sent is Ok <==> old(self)@.available,
            sent is Err ==> sent == Err::<(), DeliveryError>(DeliveryError::GatewayUnavailable),
            final(self)@ == old(self)@.send(
                EmailView {
                    recipient: recipient@,
                    subject: subject@,
                    html_content: html_content@,
                    text_content: text_content@,
                },
            ),
    {
        if !self.available {
            return Err(DeliveryError::GatewayUnavailable);
        }
        self.delivered.push(
            Email {
                recipient: String::from_str(recipient.as_str()),
                subject: String::from_str(subject),
                html_content: String::from_str(html_content),
                text_content: String::from_str(text_content),
            },
        );
        assert(self@.delivered =~= old(self)@.delivered.push(
            EmailView {
                recipient: recipient@,
                subject: subject@,
                html_content: html_content@,
                text_content: text_content@,
            },
        ));
        Ok(())
    }

    /// How many messages the gateway has accepted.
    pub fn delivered_count(&self) -> (count: usize)
        ensures
            count == self@.delivered.len(),
    {
        self.delivered.len()
    }

    /// The `index`-th message that the gateway accepted.
    pub fn delivered(&self, index: usize) -> (email: Option<Email>)
        ensures
            match email {
                Some(email) => index < self@.delivered.len() && email@ == self@.delivered[index as int],
                None => index >= self@.delivered.len(),
            },
    {
        if index < self.delivered.len() {
            Some(self.delivered[index].duplicate())
        } else {
            None
        }
    }
}

} // verus!
