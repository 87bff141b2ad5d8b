use contact_relay::config::{Config, LoadError};
use contact_relay::form::{Field, FormData};
use contact_relay::limiter::{Origin, RateLimiter};
use contact_relay::mailing::{
    compose_mail, create_subject_by_lang, delivery_reply, fault_reply, handle_submission,
    message_body, plan_relay, reject_fields, relay_message, too_many_requests,
    validation_messages, AddressFault, Reply, RelayStep, ReplyBody,
};
use contact_relay::quota::{QuotaPolicy, WindowState};

fn form(name: &str, country: &str, email: &str, message: &str, language: Option<&str>) -> FormData {
    FormData {
        name: name.to_string(),
        country: country.to_string(),
        email: email.to_string(),
        message: message.to_string(),
        language: language.map(|l| l.to_string()),
    }
}

fn config() -> Config {
    Config {
        user: "bob@mail.com".to_string(),
        pwd: "app password".to_string(),
        forward_address: "alice@mail.com".to_string(),
        server: "smtp.mail.com".to_string(),
        listen_address: "0.0.0.0:8080".to_string(),
    }
}

fn subject(language: Option<&str>, country: &str) -> String {
    create_subject_by_lang(form("n", country, "e", "m", language))
}

fn text_of(body: &ReplyBody) -> &str {
    match body {
        ReplyBody::Text(text) => text,
        ReplyBody::FieldErrors(_) => panic!("expected a text body"),
    }
}

fn rejected(step: RelayStep) -> Reply {
    match step {
        RelayStep::Reject(reply) => reply,
        other => panic!("expected a reply, got {other:?}"),
    }
}

fn assert_names_email_field(reply: &Reply) {
    assert_eq!(reply.status, 400);
    assert_eq!(errors_of(&reply.body), &vec!["Invalid input in the email field".to_string()]);
}

fn assert_blames_forward_address(reply: &Reply) {
    assert_eq!(reply.status, 500);
    assert_eq!(
        text_of(&reply.body),
        "Failed to send message: the forward address is not a valid mailbox"
    );
}

fn errors_of(body: &ReplyBody) -> &Vec<String> {
    match body {
        ReplyBody::FieldErrors(list) => list,
        ReplyBody::Text(_) => panic!("expected field errors"),
    }
}

#[test]
fn subject_for_each_known_language() {
    assert_eq!(subject(Some("English"), "Peru"), "Answer to your question in English from Peru");
    assert_eq!(
        subject(Some("Español"), "Perú"),
        "Respuesta a su pregunta en español desde Perú"
    );
    assert_eq!(
        subject(Some("Français"), "France"),
        "Répondez à votre question en français de France"
    );
    assert_eq!(
        subject(Some("Português"), "Brasil"),
        "Responda a sua pergunta em português da Brasil"
    );
    assert_eq!(
        subject(Some("Italiano"), "Italia"),
        "Rispondi alla tua domanda in italiano dal Italia"
    );
    assert_eq!(
        subject(Some("Deutsch"), "Österreich"),
        "Antworten zu Ihrer Frage auf Deutsch von Österreich"
    );
}

#[test]
fn subject_without_language_names_the_country() {
    assert_eq!(
        subject(None, "Peru"),
        "Unable to detwermine language, the listener is from Peru"
    );
    assert_eq!(
        subject(Some("UNKNOWN LANGUAGE"), "Peru"),
        "Unable to detwermine language, the listener is from Peru"
    );
    assert_eq!(subject(None, ""), "Unable to detwermine language, the listener is from ");
}

#[test]
fn subject_for_other_language_names_neither() {
    for other in ["Klingon", "english", "English ", "", "Espanol"] {
        assert_eq!(subject(Some(other), "Peru"), "Unable to determine language and location");
    }
}

#[test]
fn body_lists_the_four_fields() {
    let f = form("Ana", "Peru", "ana@example.com", "Hello\nthere", Some("English"));
    assert_eq!(
        message_body(&f),
        "Name: Ana\n\nLocation: Peru\n\nEmail: ana@example.com\n\nMessage: Hello\nthere"
    );
    assert_eq!(
        message_body(&form("", "", "", "", None)),
        "Name: \n\nLocation: \n\nEmail: \n\nMessage: "
    );
}

#[test]
fn messages_name_the_failing_fields() {
    assert_eq!(validation_messages(&vec![Field::Email]), vec!["Invalid input in the email field"]);
    assert_eq!(
        validation_messages(&vec![Field::Name, Field::Country, Field::Email, Field::Message]),
        vec![
            "Invalid input in the name field",
            "Invalid input in the country field",
            "Invalid input in the email field",
            "Invalid input in the message field",
        ]
    );
    assert_eq!(validation_messages(&Vec::new()), Vec::<String>::new());
}

#[test]
fn rejection_is_a_bad_request_with_messages() {
    let reply = reject_fields(&vec![Field::Message]);
    assert_eq!(reply.status, 400);
    assert_eq!(errors_of(&reply.body), &vec!["Invalid input in the message field".to_string()]);
}

#[test]
fn quota_reply_is_too_many_requests() {
    let reply = too_many_requests();
    assert_eq!(reply.status, 429);
    assert_eq!(text_of(&reply.body), "Too many requests");
}

#[test]
fn delivery_reply_reports_success_or_the_cause() {
    let sent = delivery_reply(Ok(()));
    assert_eq!(sent.status, 200);
    assert_eq!(text_of(&sent.body), "Message sent successfully");
    let failed = delivery_reply(Err("connection refused".to_string()));
    assert_eq!(failed.status, 500);
    assert_eq!(text_of(&failed.body), "Failed to send message: connection refused");
}

#[test]
fn composed_mail_uses_form_address_twice() {
    let f = form("Ana", "Peru", "ana@example.com", "Hello", Some("Deutsch"));
    let mail = compose_mail(&config(), &f);
    assert_eq!(mail.from, "ana@example.com");
    assert_eq!(mail.reply_to, "ana@example.com");
    assert_eq!(mail.to, "alice@mail.com");
    assert_eq!(mail.subject, "Antworten zu Ihrer Frage auf Deutsch von Peru");
    assert_eq!(mail.body, "Name: Ana\n\nLocation: Peru\n\nEmail: ana@example.com\n\nMessage: Hello");
}

#[test]
fn address_faults_get_error_replies() {
    assert_names_email_field(&fault_reply(AddressFault::Sender));
    assert_blames_forward_address(&fault_reply(AddressFault::Recipient));
}

#[test]
fn plan_looks_at_sender_before_recipient() {
    let f = form("Ana", "Peru", "ana@example.com", "Hello", None);
    assert_names_email_field(&rejected(plan_relay(&config(), &f, false, false)));
    assert_names_email_field(&rejected(plan_relay(&config(), &f, false, true)));
    assert_blames_forward_address(&rejected(plan_relay(&config(), &f, true, false)));
    match plan_relay(&config(), &f, true, true) {
        RelayStep::Send(mail) => {
            assert_eq!(mail.to, "alice@mail.com");
            assert_eq!(mail.subject, "Unable to detwermine language, the listener is from Peru");
        },
        other => panic!("expected a message, got {other:?}"),
    }
}

#[test]
fn valid_form_is_cleaned_and_relayed() {
    let f = form(
        "Ana<script>x</script>",
        "<i>Peru</i>",
        "ana@example.com",
        "Hello <b>there</b><script>alert(1)</script>",
        Some("English"),
    );
    match relay_message(&config(), f) {
        RelayStep::Send(mail) => {
            assert_eq!(mail.from, "ana@example.com");
            assert_eq!(mail.reply_to, "ana@example.com");
            assert_eq!(mail.to, "alice@mail.com");
            assert_eq!(mail.subject, "Answer to your question in English from <i>Peru</i>");
            assert_eq!(
                mail.body,
                "Name: Ana\n\nLocation: <i>Peru</i>\n\nEmail: ana@example.com\n\nMessage: Hello <b>there</b>"
            );
        },
        other => panic!("expected a message, got {other:?}"),
    }
}

#[test]
fn language_with_markup_is_cleaned_before_the_subject() {
    let f = form("Ana", "Peru", "ana@example.com", "Hello", Some("English<script>x</script>"));
    match relay_message(&config(), f) {
        RelayStep::Send(mail) => {
            assert_eq!(mail.subject, "Answer to your question in English from Peru")
        },
        other => panic!("expected a message, got {other:?}"),
    }
}

#[test]
fn invalid_form_is_rejected_and_nothing_is_sent() {
    let f = form(&"n".repeat(31), "Peru", "not-an-email", "", Some("English"));
    match relay_message(&config(), f) {
        RelayStep::Reject(reply) => {
            assert_eq!(reply.status, 400);
            assert_eq!(
                errors_of(&reply.body),
                &vec![
                    "Invalid input in the name field".to_string(),
                    "Invalid input in the email field".to_string(),
                    "Invalid input in the message field".to_string(),
                ]
            );
        },
        other => panic!("expected a rejection, got {other:?}"),
    }
}

#[test]
fn address_that_cleaning_breaks_is_a_bad_request() {
    let f = form("Ana", "Peru", "a&b@example.com", "Hello", None);
    assert_eq!(f.validate(), Ok(()));
    assert_names_email_field(&rejected(relay_message(&config(), f)));
}

#[test]
fn bad_forward_address_is_a_server_error() {
    let mut c = config();
    c.forward_address = "not an address".to_string();
    let f = form("Ana", "Peru", "ana@example.com", "Hello", None);
    assert_blames_forward_address(&rejected(relay_message(&c, f)));
}

#[test]
fn bad_sender_is_reported_before_bad_forward_address() {
    let mut c = config();
    c.forward_address = String::new();
    let f = form("Ana", "Peru", "a&b@example.com", "Hello", None);
    assert_names_email_field(&rejected(relay_message(&c, f)));
}

#[test]
fn every_submission_gets_a_reply_or_a_message() {
    let addresses = ["ana@example.com", "a&b@example.com", "not-an-email", "", "<a@b.co>", "a@b"];
    let forwards = ["alice@mail.com", "Alice <alice@mail.com>", "", "alice", "a@b@c"];
    for email in addresses {
        for forward in forwards {
            let mut c = config();
            c.forward_address = forward.to_string();
            match relay_message(&c, form("Ana", "Peru", email, "Hello", None)) {
                RelayStep::Reject(reply) => assert!(reply.status == 400 || reply.status == 500),
                RelayStep::Send(mail) => {
                    assert_eq!(mail.to, forward);
                    assert_eq!(mail.from, mail.reply_to);
                },
            }
        }
    }
}

#[test]
fn failed_submission_is_charged_once_and_retry_once_more() {
    let policy = QuotaPolicy::new(4, 86400).expect("valid");
    let mut limiter = RateLimiter::new(policy);
    let origin = Origin { peer_address: "203.0.113.5".to_string() };
    let bad = || form("Ana", "Peru", "not-an-email", "Hello", None);

    match handle_submission(&mut limiter, &origin, 0, &config(), bad()) {
        RelayStep::Reject(reply) => {
            assert_eq!(reply.status, 400);
            assert_eq!(
                errors_of(&reply.body),
                &vec!["Invalid input in the email field".to_string()]
            );
        },
        other => panic!("expected a rejection, got {other:?}"),
    }
    assert_eq!(limiter.window("203.0.113.5"), Some(WindowState { count: 1, window_start: 0 }));

    assert!(matches!(
        handle_submission(&mut limiter, &origin, 60, &config(), bad()),
        RelayStep::Reject(_)
    ));
    assert_eq!(limiter.window("203.0.113.5"), Some(WindowState { count: 2, window_start: 0 }));
}

#[test]
fn submission_over_quota_gets_quota_reply_and_form_is_ignored() {
    let policy = QuotaPolicy::new(2, 86400).expect("valid");
    let mut limiter = RateLimiter::new(policy);
    let origin = Origin { peer_address: "203.0.113.5".to_string() };
    let good = || form("Ana", "Peru", "ana@example.com", "Hello", Some("English"));
    assert!(matches!(
        handle_submission(&mut limiter, &origin, 0, &config(), good()),
        RelayStep::Send(_)
    ));
    assert!(matches!(
        handle_submission(&mut limiter, &origin, 1, &config(), good()),
        RelayStep::Send(_)
    ));
    match handle_submission(&mut limiter, &origin, 2, &config(), good()) {
        RelayStep::Reject(reply) => {
            assert_eq!(reply.status, 429);
            assert_eq!(text_of(&reply.body), "Too many requests");
        },
        other => panic!("expected the quota reply, got {other:?}"),
    }
    assert_eq!(limiter.window("203.0.113.5"), Some(WindowState { count: 2, window_start: 0 }));
    let other = Origin { peer_address: "203.0.113.6".to_string() };
    assert!(matches!(
        handle_submission(&mut limiter, &other, 2, &config(), good()),
        RelayStep::Send(_)
    ));
    assert!(matches!(
        handle_submission(&mut limiter, &origin, 86400, &config(), good()),
        RelayStep::Send(_)
    ));
}

#[test]
fn load_errors_are_described() {
    assert_eq!(
        LoadError::Unreadable("No such file or directory (os error 2)".to_string()).describe(),
        "Unable to read config file: No such file or directory (os error 2)"
    );
    assert_eq!(
        LoadError::Malformed("missing field `user`".to_string()).describe(),
        "Unable to parse config file: missing field `user`"
    );
}

#[test]
fn config_clone_copies_every_field() {
    let c = config();
    let d = c.clone();
    assert_eq!(d.user, c.user);
    assert_eq!(d.pwd, c.pwd);
    assert_eq!(d.forward_address, c.forward_address);
    assert_eq!(d.server, c.server);
    assert_eq!(d.listen_address, c.listen_address);
}
