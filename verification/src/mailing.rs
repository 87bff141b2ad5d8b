//! From an accepted form to the message that is relayed, and from each
//! outcome to the reply that the client gets.

use crate::config::{Config, ConfigView};
use crate::form::{
    email_well_formed, field_name, invalid_fields, sanitized, Field, FormData, FormView,
};
use crate::limiter::{Origin, RateLimiter};
use crate::quota::{decide, Decision};
use crate::store::consumed;
use vstd::prelude::*;
use vstd::string::StringExecFns;

verus! {

/// Status of a reply to a relayed message.
pub const STATUS_OK: u16 = 200;

/// Status of a reply to a form that failed its checks.
pub const STATUS_BAD_REQUEST: u16 = 400;

/// Status of a reply to a client that has used up its quota.
pub const STATUS_TOO_MANY_REQUESTS: u16 = 429;

/// Status of a reply when the mail transport failed.
pub const STATUS_SERVER_ERROR: u16 = 500;

/// What a reply carries.
#[derive(Debug)]
pub enum ReplyBody {
    /// Plain text.
    Text(String),
    /// One message per field that failed its check, sent as a JSON array.
    FieldErrors(Vec<String>),
}

/// The reply to one request: a status code and a body.
#[derive(Debug)]
pub struct Reply {
    pub status: u16,
    pub body: ReplyBody,
}

/// The message to hand to the mail transport.
#[derive(Debug)]
pub struct Outgoing {
    pub from: String,
    pub reply_to: String,
    pub to: String,
    pub subject: String,
    pub body: String,
}

/// An address that the mail library does not take as a mailbox.
#[derive(Clone, Copy, Debug, PartialEq, Eq, Structural)]
pub enum AddressFault {
    /// The cleaned email address of the form.
    Sender,
    /// The forward address of the settings.
    Recipient,
}

/// What to do with a submission. Every submission ends in a reply: either the
/// one given here, or the one that follows the attempt to send.
#[derive(Debug)]
pub enum RelayStep {
    /// Answer with this reply; nothing is sent.
    Reject(Reply),
    /// Hand this message to the mail transport.
    Send(Outgoing),
}

/// The mathematical content of a [`ReplyBody`].
pub enum ReplyBodyView {
    Text(Seq<char>),
    FieldErrors(Seq<Seq<char>>),
}

/// The mathematical content of a [`Reply`].
pub struct ReplyView {
    pub status: u16,
    pub body: ReplyBodyView,
}

/// The mathematical content of an [`Outgoing`].
pub struct OutgoingView {
    pub from: Seq<char>,
    pub reply_to: Seq<char>,
    pub to: Seq<char>,
    pub subject: Seq<char>,
    pub body: Seq<char>,
}

/// The mathematical content of a [`RelayStep`].
pub enum RelayStepView {
    Reject(ReplyView),
    Send(OutgoingView),
}

/// The contents of a list of strings.
pub open spec fn texts(list: Seq<String>) -> Seq<Seq<char>> {
    Seq::new(list.len(), |i: int| list[i]@)
}

impl View for ReplyBody {
    type V = ReplyBodyView;

    open spec fn view(&self) -> ReplyBodyView {
        match self {
            ReplyBody::Text(text) => ReplyBodyView::Text(text@),
            ReplyBody::FieldErrors(list) => ReplyBodyView::FieldErrors(texts(list@)),
        }
    }
}

impl View for Reply {
    type V = ReplyView;

    open spec fn view(&self) -> ReplyView {
        ReplyView { status: self.status, body: self.body@ }
    }
}

impl View for Outgoing {
    type V = OutgoingView;

    open spec fn view(&self) -> OutgoingView {
        OutgoingView {
            from: self.from@,
            reply_to: self.reply_to@,
            to: self.to@,
            subject: self.subject@,
            body: self.body@,
        }
    }
}

impl View for RelayStep {
    type V = RelayStepView;

    open spec fn view(&self) -> RelayStepView {
        match self {
            RelayStep::Reject(reply) => RelayStepView::Reject(reply@),
            RelayStep::Send(mail) => RelayStepView::Send(mail@),
        }
    }
}

/// Whether `lettre` parses `address` as a mailbox.
pub uninterp spec fn mailbox_well_formed(address: Seq<char>) -> bool;

/// Calls the `FromStr` impl of `lettre::message::Mailbox` and tells whether it
/// returned a mailbox. The parser reads an address with an optional display
/// name; its verdict depends on `address` alone, and nothing more is claimed.
#[verifier::external_body]
fn check_mailbox(address: &str) -> (ok: bool)
    ensures
        ok == mailbox_well_formed(address@),
{
    address.parse::<lettre::message::Mailbox>().is_ok()
}

/// The language assumed when a form names none.
pub open spec fn unknown_language() -> Seq<char> {
    "UNKNOWN LANGUAGE"@
}

/// The start of the subject line for `language`, to be followed by the
/// country; `None` for a language that has no subject line of its own.
pub open spec fn subject_prefix(language: Seq<char>) -> Option<Seq<char>> {
    if language == "English"@ {
        Some("Answer to your question in English from "@)
    } else if language == "Español"@ {
        Some("Respuesta a su pregunta en español desde "@)
    } else if language == "Français"@ {
        Some("Répondez à votre question en français de "@)
    } else if language == "Português"@ {
        Some("Responda a sua pergunta em português da "@)
    } else if language == "Italiano"@ {
        Some("Rispondi alla tua domanda in italiano dal "@)
    } else if language == "Deutsch"@ {
        Some("Antworten zu Ihrer Frage auf Deutsch von "@)
    } else if language == unknown_language() {
        Some("Unable to detwermine language, the listener is from "@)
    } else {
        None
    }
}

/// The subject line for a form with this language and country.
pub open spec fn subject_for(language: Option<Seq<char>>, country: Seq<char>) -> Seq<char> {
    let language = match language {
        Some(language) => language,
        None => unknown_language(),
    };
    match subject_prefix(language) {
        Some(prefix) => prefix + country,
        None => "Unable to determine language and location"@,
    }
}

/// The message reported for a field that failed its check.
pub open spec fn field_message(field: Field) -> Seq<char> {
    "Invalid input in the "@ + field_name(field) + " field"@
}

/// The messages reported for `fields`, one each and in the same order.
pub open spec fn field_messages(fields: Seq<Field>) -> Seq<Seq<char>> {
    Seq::new(fields.len(), |i: int| field_message(fields[i]))
}

/// The text of the relayed message.
pub open spec fn body_text(form: FormView) -> Seq<char> {
    "Name: "@ + form.name + "\n\nLocation: "@ + form.country + "\n\nEmail: "@ + form.email
        + "\n\nMessage: "@ + form.message
}

/// The message that relays `form` to the forward address of `config`.
pub open spec fn composed(config: ConfigView, form: FormView) -> OutgoingView {
    OutgoingView {
        from: form.email,
        reply_to: form.email,
        to: config.forward_address,
        subject: subject_for(form.language, form.country),
        body: body_text(form),
    }
}

/// The reply to a form of which `fields` failed their checks.
pub open spec fn rejection(fields: Seq<Field>) -> ReplyView {
    ReplyView {
        status: STATUS_BAD_REQUEST,
        body: ReplyBodyView::FieldErrors(field_messages(fields)),
    }
}

/// The reply to a client that has used up its quota.
pub open spec fn quota_reply() -> ReplyView {
    ReplyView { status: STATUS_TOO_MANY_REQUESTS, body: ReplyBodyView::Text("Too many requests"@) }
}

/// The reply to a message that could not be sent because of `cause`.
pub open spec fn failure_reply(cause: Seq<char>) -> ReplyView {
    ReplyView {
        status: STATUS_SERVER_ERROR,
        body: ReplyBodyView::Text("Failed to send message: "@ + cause),
    }
}

/// The reply once the transport has reported `outcome`.
pub open spec fn delivery_reply_for(outcome: Result<(), String>) -> ReplyView {
    match outcome {
        Ok(_) => ReplyView {
            status: STATUS_OK,
            body: ReplyBodyView::Text("Message sent successfully"@),
        },
        Err(cause) => failure_reply(cause@),
    }
}

/// What the reply says of a forward address that is no mailbox.
pub open spec fn bad_forward_address() -> Seq<char> {
    "the forward address is not a valid mailbox"@
}

/// The reply when the message cannot be built because of an address. A
/// sender's address that is no mailbox is the client's error and is reported
/// like an email field that failed its check. A forward address that is no
/// mailbox is the service's error.
pub open spec fn fault_reply_for(fault: AddressFault) -> ReplyView {
    match fault {
        AddressFault::Sender => rejection(seq![Field::Email]),
        AddressFault::Recipient => failure_reply(bad_forward_address()),
    }
}

/// What to do with a cleaned form that passed its checks, given the verdicts
/// on the sender's and the recipient's address. The sender is looked at first.
pub open spec fn planned(
    config: ConfigView,
    clean: FormView,
    sender_ok: bool,
    recipient_ok: bool,
) -> RelayStepView {
    if !sender_ok {
        RelayStepView::Reject(fault_reply_for(AddressFault::Sender))
    } else if !recipient_ok {
        RelayStepView::Reject(fault_reply_for(AddressFault::Recipient))
    } else {
        RelayStepView::Send(composed(config, clean))
    }
}

/// What to do with a submitted form: reject it when a field fails its check,
/// else clean it and relay it, unless an address stands in the way.
pub open spec fn relay_step(config: ConfigView, form: FormView) -> RelayStepView {
    let failed = invalid_fields(form, email_well_formed(form.email));
    if failed.len() > 0 {
        RelayStepView::Reject(rejection(failed))
    } else {
        let clean = sanitized(form);
        planned(
            config,
            clean,
            mailbox_well_formed(clean.email),
            mailbox_well_formed(config.forward_address),
        )
    }
}

/// Every submission is answered: it ends either in a message to send, whose
/// outcome `delivery_reply_for` turns into a reply, or in a reply with an
/// error status. A form that fails a check, or whose cleaned address is no
/// mailbox, is a bad request; a forward address that is no mailbox is a
/// server error.
pub proof fn lemma_rejections_carry_error_status(config: ConfigView, form: FormView)
    ensures
        relay_step(config, form) matches RelayStepView::Reject(reply) ==> {
            ||| reply.status == STATUS_BAD_REQUEST
            ||| reply.status == STATUS_SERVER_ERROR
        },
        relay_step(config, form) is Send <==> {
            &&& invalid_fields(form, email_well_formed(form.email)).len() == 0
            &&& mailbox_well_formed(sanitized(form).email)
            &&& mailbox_well_formed(config.forward_address)
        },
{
}

/// Creates the subject line from the language of the form:
/// - English => "Answer to your question in English from {country}"
/// - Español => "Respuesta a su pregunta en español desde {country}"
/// - Français => "Répondez à votre question en français de {country}"
/// - Português => "Responda a sua pergunta em português da {country}"
/// - Italiano => "Rispondi alla tua domanda in italiano dal {country}"
/// - Deutsch => "Antworten zu Ihrer Frage auf Deutsch von {country}"
///
/// A form without a language gets a line that names the country only, and any
/// other language a line that names neither.
pub fn create_subject_by_lang(form: FormData) -> (subject: String)
    ensures
        subject@ == subject_for(form@.language, form@.country),
{
    let language = match form.language {
        Some(language) => language,
        None => String::from_str("UNKNOWN LANGUAGE"),
    };
    let country = form.country;
    if language == String::from_str("English") {
        String::from_str("Answer to your question in English from ").concat(country.as_str())
    } else if language == String::from_str("Español") {
        String::from_str("Respuesta a su pregunta en español desde ").concat(country.as_str())
    } else if language == String::from_str("Français") {
        String::from_str("Répondez à votre question en français de ").concat(country.as_str())
    } else if language == String::from_str("Português") {
        String::from_str("Responda a sua pergunta em português da ").concat(country.as_str())
    } else if language == String::from_str("Italiano") {
        String::from_str("Rispondi alla tua domanda in italiano dal ").concat(country.as_str())
    } else if language == String::from_str("Deutsch") {
        String::from_str("Antworten zu Ihrer Frage auf Deutsch von ").concat(country.as_str())
    } else if language == String::from_str("UNKNOWN LANGUAGE") {
        String::from_str("Unable to detwermine language, the listener is from ").concat(
            country.as_str(),
        )
    } else {
        String::from_str("Unable to determine language and location")
    }
}

/// The messages for the fields that failed their checks.
pub fn validation_messages(fields: &Vec<Field>) -> (messages: Vec<String>)
    ensures
        messages@.len() == fields@.len(),
        forall|i: int|
            0 <= i < fields@.len() ==> (#[trigger] messages@[i])@ == field_message(fields@[i]),
        texts(messages@) == field_messages(fields@),
{
    let mut messages: Vec<String> = Vec::new();
    let mut i: usize = 0;
    while i < fields.len()
        invariant
            i <= fields@.len(),
            messages@.len() == i,
            forall|j: int| 0 <= j < i ==> (#[trigger] messages@[j])@ == field_message(fields@[j]),
        decreases fields@.len() - i,
    {
        let message = String::from_str("Invalid input in the ").concat(fields[i].name()).concat(
            " field",
        );
        messages.push(message);
        i += 1;
    }
    assert(texts(messages@) =~= field_messages(fields@));
    messages
}

/// The reply to a form of which `fields` failed their checks.
pub fn reject_fields(fields: &Vec<Field>) -> (reply: Reply)
    ensures
        reply@ == rejection(fields@),
{
    Reply { status: STATUS_BAD_REQUEST, body: ReplyBody::FieldErrors(validation_messages(fields)) }
}

/// The reply to a client that has used up its quota.
pub fn too_many_requests() -> (reply: Reply)
    ensures
        reply@ == quota_reply(),
{
    Reply {
        status: STATUS_TOO_MANY_REQUESTS,
        body: ReplyBody::Text(String::from_str("Too many requests")),
    }
}

/// The reply once the transport has reported `outcome`: success, or a server
/// error that carries the transport's description of the failure.
pub fn delivery_reply(outcome: Result<(), String>) -> (reply: Reply)
    ensures
        reply@ == delivery_reply_for(outcome),
{
    match outcome {
        Ok(_) => Reply {
            status: STATUS_OK,
            body: ReplyBody::Text(String::from_str("Message sent successfully")),
        },
        Err(cause) => Reply {
            status: STATUS_SERVER_ERROR,
            body: ReplyBody::Text(
                String::from_str("Failed to send message: ").concat(cause.as_str()),
            ),
        },
    }
}

/// The reply when the message cannot be built because of an address: a bad
/// request that names the email field for the sender's address, a server error
/// for the forward address.
pub fn fault_reply(fault: AddressFault) -> (reply: Reply)
    ensures
        reply@ == fault_reply_for(fault),
{
    match fault {
        AddressFault::Sender => {
            let mut fields: Vec<Field> = Vec::new();
            fields.push(Field::Email);
            assert(fields@ =~= seq![Field::Email]);
            reject_fields(&fields)
        },
        AddressFault::Recipient => delivery_reply(
            Err(String::from_str("the forward address is not a valid mailbox")),
        ),
    }
}

/// The text of the message that relays `form`.
pub fn message_body(form: &FormData) -> (body: String)
    ensures
        body@ == body_text(form@),
{
    let mut body = String::from_str("Name: ");
    body.append(form.name.as_str());
    body.append("\n\nLocation: ");
    body.append(form.country.as_str());
    body.append("\n\nEmail: ");
    body.append(form.email.as_str());
    body.append("\n\nMessage: ");
    body.append(form.message.as_str());
    body
}

/// The message that relays `form` to the forward address of `config`. The
/// form's email address is both sender and reply address.
pub fn compose_mail(config: &Config, form: &FormData) -> (mail: Outgoing)
    ensures
        mail@ == composed(config@, form@),
{
    let body = message_body(form);
    let from = form.email.clone();
    let reply_to = form.email.clone();
    let to = config.forward_address.clone();
    let subject = create_subject_by_lang(form.clone());
    Outgoing { from, reply_to, to, subject, body }
}

/// What to do with a cleaned form that passed its checks, given the verdicts
/// of the mail library on the sender's and the recipient's address: send the
/// message when both are mailboxes, else answer for the first that is not.
pub fn plan_relay(
    config: &Config,
    clean: &FormData,
    sender_ok: bool,
    recipient_ok: bool,
) -> (step: RelayStep)
    ensures
        step@ == planned(config@, clean@, sender_ok, recipient_ok),
{
    if !sender_ok {
        RelayStep::Reject(fault_reply(AddressFault::Sender))
    } else if !recipient_ok {
        RelayStep::Reject(fault_reply(AddressFault::Recipient))
    } else {
        RelayStep::Send(compose_mail(config, clean))
    }
}

/// Checks and cleans a submitted form and prepares its relay to the forward
/// address of `config`.
///
/// A form with a field that fails its check is rejected with one message per
/// such field, and nothing is sent. Otherwise the form is cleaned, and the
/// message is built from the cleaned fields. Where the mail library refuses
/// the cleaned sender's address or the forward address, the submission is
/// answered with an error reply instead.
pub fn relay_message(config: &Config, form: FormData) -> (step: RelayStep)
    ensures
        step@ == relay_step(config@, form@),
{
    let mut form = form;
    match form.validate() {
        Err(fields) => RelayStep::Reject(reject_fields(&fields)),
        Ok(_) => {
            form.sanitize();
            let sender_ok = check_mailbox(form.email.as_str());
            let recipient_ok = check_mailbox(config.forward_address.as_str());
            plan_relay(config, &form, sender_ok, recipient_ok)
        },
    }
}

/// Handles one submission from `origin` at `now`: the quota first, then the
/// form.
///
/// Every submission is counted once against its client, whether or not the
/// form then passes its checks. A client over quota gets the quota reply and
/// its form is not looked at.
pub fn handle_submission(
    limiter: &mut RateLimiter,
    origin: &Origin,
    now: u64,
    config: &Config,
    form: FormData,
) -> (step: RelayStep)
    ensures
        final(limiter)@.policy == old(limiter)@.policy,
        final(limiter)@.windows == consumed(
            old(limiter)@.windows,
            origin.peer_address@,
            now,
            old(limiter)@.policy,
        ),
        step@ == match decide(
            old(limiter)@.windows.get(origin.peer_address@),
            now,
            old(limiter)@.policy,
        ) {
            Decision::Deny => RelayStepView::Reject(quota_reply()),
            Decision::Allow => relay_step(config@, form@),
        },
{
    match limiter.admit_request(origin, now) {
        Decision::Deny => RelayStep::Reject(too_many_requests()),
        Decision::Allow => relay_message(config, form),
    }
}

} // verus!
