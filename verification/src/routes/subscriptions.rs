//! Subscribing: the form, the confirmation token and the confirmation
//! email.

use crate::database::{Database, DatabaseView, PersistenceError};
use crate::domain::{
    is_alphanumeric, is_valid_email, is_valid_name, NewSubscriber, SubscriberEmail, SubscriberName,
};
use crate::email_client::{
    DeliveryError, Email, EmailGateway, EmailGatewayView, EmailView,
};
use crate::http::{Response, ResponseView};
use crate::startup::ApplicationBaseUrl;
use crate::unique_id::{is_version_4, new_v4};
use crate::utils::{empty_ok, ok};
use vstd::prelude::*;
use vstd::string::StringExecFns;

verus! {

pub struct FormData {
    pub email: String,
    pub name: String,
}

impl NewSubscriber {
    /// Validates a subscription form: the name first, then the address.
    pub fn try_from(value: FormData) -> (parsed: Result<NewSubscriber, String>)
        ensures
            match parsed {
                Ok(subscriber) => {
                    &&& is_valid_name(value.name@)
                    &&& is_valid_email(value.email@)
                    &&& subscriber.name@ == value.name@
                    &&& subscriber.email@ == value.email@
                },
                Err(message) => message@ == rejection(value)->0,
            },
            parsed is Err <==> rejection(value) is Some,
    {
        let name = match SubscriberName::parse(value.name) {
            Ok(name) => name,
            Err(message) => {
                return Err(message);
            },
        };
        let email = match SubscriberEmail::parse(value.email) {
            Ok(email) => email,
            Err(message) => {
                return Err(message);
            },
        };
        Ok(NewSubscriber { email, name })
    }
}

/// Why a subscription form is rejected, if it is.
pub open spec fn rejection(form: FormData) -> Option<Seq<char>> {
    if !is_valid_name(form.name@) {
        Some(form.name@ + " is not a valid subscriber name."@)
    } else if !is_valid_email(form.email@) {
        Some(form.email@ + " is not a valid subscriber email."@)
    } else {
        None
    }
}

/// What went wrong with a subscription, short of a rejected form.
#[derive(Debug, Clone, Copy, PartialEq, Eq, Structural)]
pub enum SubscribeFailure {
    /// The subscription could not be stored.
    StoreRefused(PersistenceError),
    /// The confirmation email could not be sent.
    EmailNotSent(DeliveryError),
}

#[derive(Debug, PartialEq, Eq)]
pub enum SubscribeError {
    ValidationError(String),
    UnexpectedError(SubscribeFailure),
}

impl SubscribeError {
    pub fn status_code(&self) -> (code: u16)
        ensures
            code == match self {
                SubscribeError::ValidationError(_) => 400u16,
                SubscribeError::UnexpectedError(_) => 500u16,
            },
    {
        match self {
            SubscribeError::ValidationError(_) => 400,
            SubscribeError::UnexpectedError(_) => 500,
        }
    }
}

/// A failure to store a subscription token.
pub struct StoreTokenError(pub PersistenceError);

impl StoreTokenError {
    pub fn message(&self) -> (text: &'static str)
        ensures
            text@
                == "A database error was encountered while trying to store a subscription token."@,
    {
        "A database error was encountered while trying to store a subscription token."
    }
}

/// The length of a subscription token, in characters.
pub const TOKEN_LENGTH: usize = 25;

/// Whether `s` has the shape of a subscription token: [`TOKEN_LENGTH`]
/// ASCII letters and digits.
pub open spec fn is_token(s: Seq<char>) -> bool {
    &&& s.len() == TOKEN_LENGTH
    &&& forall|i: int| 0 <= i < s.len() ==> is_alphanumeric(#[trigger] s[i])
}

/// Draws a random ASCII letter or digit.
///
/// Calls `Rng::sample` with `rand::distributions::Alphanumeric` on the
/// thread's random number generator. The contract claims what holds of every
/// draw: the byte is one of `a-z`, `A-Z` and `0-9`.
#[verifier::external_body]
fn sample_alphanumeric() -> (byte: u8)
    ensures
        is_alphanumeric(byte as char),
{
    rand::Rng::sample(&mut rand::thread_rng(), rand::distributions::Alphanumeric)
}

/// Collects characters into a string.
///
/// Calls `String::from_iter` on the characters, which gives the string that
/// holds them in order.
#[verifier::external_body]
fn string_from_chars(chars: &Vec<char>) -> (s: String)
    ensures
        s@ == chars@,
{
    String::from_iter(chars.iter())
}

/// Generate a random 25-characters-long case-sensitive subscription token.
pub fn generate_subscription_token() -> (token: String)
    ensures
        is_token(token@),
{
    let mut chars: Vec<char> = Vec::new();
    while chars.len() < TOKEN_LENGTH
        invariant
            chars.len() <= TOKEN_LENGTH,
            forall|i: int| 0 <= i < chars.len() ==> is_alphanumeric(#[trigger] chars[i]),
        decreases TOKEN_LENGTH - chars.len(),
    {
        let byte = sample_alphanumeric();
        chars.push(byte as char);
    }
    string_from_chars(&chars)
}

/// The link that confirms a subscription.
pub open spec fn confirmation_link(base_url: Seq<char>, token: Seq<char>) -> Seq<char> {
    base_url + "/subscriptions/confirm?subscription_token="@ + token
}

/// The email that asks a new subscriber to confirm.
pub open spec fn confirmation_email(
    recipient: Seq<char>,
    base_url: Seq<char>,
    token: Seq<char>,
) -> EmailView {
    let link = confirmation_link(base_url, token);
    EmailView {
        recipient,
        subject: "Welcome!"@,
        html_content: "Welcome to our newsletter!<br>Click <a href=\""@ + link
            + "\">here</a> to confirm your subscription."@,
        text_content: "Welcome to our newsletter!\nVisit "@ + link
            + " to confirm your subscription."@,
    }
}

/// Writes the email that asks `recipient` to confirm.
pub fn build_confirmation_email(
    recipient: &SubscriberEmail,
    base_url: &str,
    subscription_token: &str,
) -> (email: Email)
    ensures
        email@ == confirmation_email(recipient@, base_url@, subscription_token@),
{
    let confirmation_link = String::from_str(base_url).concat(
        "/subscriptions/confirm?subscription_token=",
    ).concat(subscription_token);
    let html_body = String::from_str("Welcome to our newsletter!<br>Click <a href=\"").concat(
        confirmation_link.as_str(),
    ).concat("\">here</a> to confirm your subscription.");
    let text_body = String::from_str("Welcome to our newsletter!\nVisit ").concat(
        confirmation_link.as_str(),
    ).concat(" to confirm your subscription.");
    Email {
        recipient: String::from_str(recipient.as_str()),
        subject: String::from_str("Welcome!"),
        html_content: html_body,
        text_content: text_body,
    }
}

/// Sends the email that asks `subscriber` to confirm.
pub fn send_confirmation_email(
    email_client: &mut EmailGateway,
    subscriber: NewSubscriber,
    base_url: &str,
    subscription_token: &str,
) -> (sent: Result<(), DeliveryError>)
    ensures
        sent is Ok <==> old(email_client)@.available,
        final(email_client)@ == old(email_client)@.send(
            confirmation_email(subscriber.email@, base_url@, subscription_token@),
        ),
{
    let email = build_confirmation_email(&subscriber.email, base_url, subscription_token);
    email_client.send_email(
        &subscriber.email,
        email.subject.as_str(),
        email.html_content.as_str(),
        email.text_content.as_str(),
    )
}

/// The mathematical content of a [`SubscribeError`].
pub enum SubscribeErrorView {
    ValidationError(Seq<char>),
    UnexpectedError(SubscribeFailure),
}

/// The store, the gateway and the answer after a subscription request.
pub struct SubscribeEffect {
    pub db: DatabaseView,
    pub gateway: EmailGatewayView,
    pub answer: Result<ResponseView, SubscribeErrorView>,
}

/// What a subscription request does, `id` and `token` being what was drawn
/// for it. A form that is rejected is answered with the reason and nothing
/// else happens. Otherwise the subscription is stored, pending
/// confirmation, together with its token, and then the confirmation email
/// is sent; the answer is the empty 200 when the gateway accepted it. A
/// store that refuses leaves everything as it was. A gateway that fails
/// leaves the subscription stored.
pub open spec fn subscribe_effect(
    db: DatabaseView,
    gateway: EmailGatewayView,
    form: FormData,
    base_url: Seq<char>,
    id: u128,
    token: Seq<char>,
) -> SubscribeEffect {
    match rejection(form) {
        Some(message) => SubscribeEffect {
            db,
            gateway,
            answer: Err(SubscribeErrorView::ValidationError(message)),
        },
        None => if db.has_subscription(id) || db.has_token(token) {
            SubscribeEffect {
                db,
                gateway,
                answer: Err(
                    SubscribeErrorView::UnexpectedError(
                        SubscribeFailure::StoreRefused(PersistenceError::DuplicateKey),
                    ),
                ),
            }
        } else {
            SubscribeEffect {
                db: db.register(id, form.email@, form.name@, token),
                gateway: gateway.send(confirmation_email(form.email@, base_url, token)),
                answer: if gateway.available {
                    Ok(empty_ok())
                } else {
                    Err(
                        SubscribeErrorView::UnexpectedError(
                            SubscribeFailure::EmailNotSent(DeliveryError::GatewayUnavailable),
                        ),
                    )
                },
            }
        },
    }
}

/// The effect that an answer and the states after it amount to.
pub open spec fn subscribed(
    db: DatabaseView,
    gateway: EmailGatewayView,
    answer: Result<Response, SubscribeError>,
) -> SubscribeEffect {
    SubscribeEffect {
        db,
        gateway,
        answer: match answer {
            Ok(response) => Ok(response@),
            Err(SubscribeError::ValidationError(message)) => Err(
                SubscribeErrorView::ValidationError(message@),
            ),
            Err(SubscribeError::UnexpectedError(failure)) => Err(
                SubscribeErrorView::UnexpectedError(failure),
            ),
        },
    }
}

/// Handles a subscription request: validates the form, stores the
/// subscription under a fresh identifier with a fresh token, and sends the
/// confirmation email. A valid form is never answered with a validation
/// error.
pub fn subscribe(
    form: FormData,
    connection_pool: &mut Database,
    email_client: &mut EmailGateway,
    base_url: &ApplicationBaseUrl,
) -> (answer: Result<Response, SubscribeError>)
    requires
        old(connection_pool)@.wf(),
    ensures
        final(connection_pool)@.wf(),
        rejection(form) is None ==> !(answer matches Err(SubscribeError::ValidationError(_))),
        exists|id: u128, token: Seq<char>|
            is_version_4(id) && is_token(token) && subscribed(
                final(connection_pool)@,
                final(email_client)@,
                answer,
            ) == #[trigger] subscribe_effect(
                old(connection_pool)@,
                old(email_client)@,
                form,
                base_url.0@,
                id,
                token,
            ),
{
    let id = new_v4();
    let subscription_token = generate_subscription_token();
    subscribe_with(form, connection_pool, email_client, base_url, id, subscription_token)
}

/// Handles a subscription request as [`subscribe`] does, with `id` as the
/// identifier and `subscription_token` as the token of the new subscription.
pub fn subscribe_with(
    form: FormData,
    connection_pool: &mut Database,
    email_client: &mut EmailGateway,
    base_url: &ApplicationBaseUrl,
    id: u128,
    subscription_token: String,
) -> (answer: Result<Response, SubscribeError>)
    requires
        old(connection_pool)@.wf(),
    ensures
        final(connection_pool)@.wf(),
        rejection(form) is None ==> !(answer matches Err(SubscribeError::ValidationError(_))),
        subscribed(final(connection_pool)@, final(email_client)@, answer) == subscribe_effect(
            old(connection_pool)@,
            old(email_client)@,
            form,
            base_url.0@,
            id,
            subscription_token@,
        ),
{
    let subscriber = match NewSubscriber::try_from(form) {
        Ok(subscriber) => subscriber,
        Err(message) => {
            return Err(SubscribeError::ValidationError(message));
        },
    };
    match connection_pool.register_subscription(
        id,
        String::from_str(subscriber.email.as_str()),
        String::from_str(subscriber.name.as_str()),
        subscription_token.clone(),
    ) {
        Ok(()) => {},
        Err(reason) => {
            return Err(SubscribeError::UnexpectedError(SubscribeFailure::StoreRefused(reason)));
        },
    }
    match send_confirmation_email(
        email_client,
        subscriber,
        base_url.0.as_str(),
        subscription_token.as_str(),
    ) {
        Ok(()) => Ok(ok()),
        Err(error) => Err(SubscribeError::UnexpectedError(SubscribeFailure::EmailNotSent(error))),
    }
}

} // verus!
