//! The submitted contact form: its fields, the structural checks on them and
//! the cleaning of their text.

use vstd::prelude::*;
use vstd::string::StrSliceExecFns;

verus! {

/// A submitted contact form.
///
/// - `name`: the contact's name, at most 30 characters
/// - `country`: the contact's country, at most 30 characters
/// - `email`: the contact's email address, which must be well formed
/// - `message`: the contact's message, at least one character
/// - `language`: the contact's preferred language, if given
#[derive(Debug)]
pub struct FormData {
    pub name: String,
    pub country: String,
    pub email: String,
    pub message: String,
    pub language: Option<String>,
}

/// The mathematical content of a [`FormData`].
pub struct FormView {
    pub name: Seq<char>,
    pub country: Seq<char>,
    pub email: Seq<char>,
    pub message: Seq<char>,
    pub language: Option<Seq<char>>,
}

impl View for FormData {
    type V = FormView;

    open spec fn view(&self) -> FormView {
        FormView {
            name: self.name@,
            country: self.country@,
            email: self.email@,
            message: self.message@,
            language: match self.language {
                Some(language) => Some(language@),
                None => None,
            },
        }
    }
}

/// A field of the form that a check can fail on.
#[derive(Clone, Copy, Debug, PartialEq, Eq, Structural)]
pub enum Field {
    Name,
    Country,
    Email,
    Message,
}

/// The longest name or country that is accepted, in characters.
pub const MAX_SHORT_FIELD: usize = 30;

/// The HTML that `ammonia::clean` returns for `src`.
pub uninterp spec fn cleaned_html(src: Seq<char>) -> Seq<char>;

/// Whether `validator`'s email check accepts `email`.
pub uninterp spec fn email_well_formed(email: Seq<char>) -> bool;

/// Calls `ammonia::clean`, which parses `src` as an HTML fragment and writes
/// it out again with everything but a conservative set of tags and attributes
/// removed. The result depends on `src` alone; nothing more is claimed of it.
#[verifier::external_body]
fn clean_html(src: &str) -> (out: String)
    ensures
        out@ == cleaned_html(src@),
{
    ammonia::clean(src)
}

/// Calls `validator::ValidateEmail::validate_email` on a string slice, which
/// checks `email` against the HTML5 rules for an email address. The verdict
/// depends on `email` alone; nothing more is claimed of it.
#[verifier::external_body]
fn check_email(email: &str) -> (ok: bool)
    ensures
        ok == email_well_formed(email@),
{
    validator::ValidateEmail::validate_email(&email)
}

/// The form with every field cleaned.
pub open spec fn sanitized(form: FormView) -> FormView {
    FormView {
        name: cleaned_html(form.name),
        country: cleaned_html(form.country),
        email: cleaned_html(form.email),
        message: cleaned_html(form.message),
        language: match form.language {
            Some(language) => Some(cleaned_html(language)),
            None => None,
        },
    }
}

/// `[field]` if `failed`, else nothing.
pub open spec fn flagged(failed: bool, field: Field) -> Seq<Field> {
    if failed {
        seq![field]
    } else {
        Seq::empty()
    }
}

/// The fields of `form` that fail their check, in the order in which the form
/// declares them, given the verdict `email_ok` on the email address.
pub open spec fn invalid_fields(form: FormView, email_ok: bool) -> Seq<Field> {
    flagged(form.name.len() > MAX_SHORT_FIELD, Field::Name) + flagged(
        form.country.len() > MAX_SHORT_FIELD,
        Field::Country,
    ) + flagged(!email_ok, Field::Email) + flagged(form.message.len() < 1, Field::Message)
}

/// The name of `field` as the form spells it.
pub open spec fn field_name(field: Field) -> Seq<char> {
    match field {
        Field::Name => "name"@,
        Field::Country => "country"@,
        Field::Email => "email"@,
        Field::Message => "message"@,
    }
}

impl Field {
    /// The name of the field as the form spells it.
    pub fn name(&self) -> (name: &'static str)
        ensures
            name@ == field_name(*self),
    {
        match self {
            Field::Name => "name",
            Field::Country => "country",
            Field::Email => "email",
            Field::Message => "message",
        }
    }
}

impl Clone for FormData {
    fn clone(&self) -> (copy: FormData)
        ensures
            copy@ == self@,
    {
        FormData {
            name: self.name.clone(),
            country: self.country.clone(),
            email: self.email.clone(),
            message: self.message.clone(),
            language: match &self.language {
                Some(language) => Some(language.clone()),
                None => None,
            },
        }
    }
}

impl FormData {
    /// Cleans every field, so that none of them carries markup that a mail
    /// client could act on. A missing language stays missing.
    pub fn sanitize(&mut self)
        ensures
            final(self)@ == sanitized(old(self)@),
    {
        self.name = clean_html(self.name.as_str());
        self.country = clean_html(self.country.as_str());
        self.email = clean_html(self.email.as_str());
        self.message = clean_html(self.message.as_str());
        let language = match &self.language {
            Some(language) => Some(clean_html(language.as_str())),
            None => None,
        };
        self.language = language;
    }

    /// The fields that fail their check when the verdict on the email address
    /// is `email_ok`: a name or country of more than 30 characters, an email
    /// address that is not well formed, an empty message.
    pub fn invalid_fields_given(&self, email_ok: bool) -> (fields: Vec<Field>)
        ensures
            fields@ == invalid_fields(self@, email_ok),
    {
        let mut fields: Vec<Field> = Vec::new();
        if self.name.as_str().unicode_len() > MAX_SHORT_FIELD {
            fields.push(Field::Name);
        }
        if self.country.as_str().unicode_len() > MAX_SHORT_FIELD {
            fields.push(Field::Country);
        }
        if !email_ok {
            fields.push(Field::Email);
        }
        if self.message.as_str().unicode_len() < 1 {
            fields.push(Field::Message);
        }
        assert(fields@ =~= invalid_fields(self@, email_ok));
        fields
    }

    /// Checks the form. `Ok` when every field passes, else the fields that
    /// fail, in the order in which the form declares them.
    pub fn validate(&self) -> (verdict: Result<(), Vec<Field>>)
        ensures
            verdict is Ok <==> invalid_fields(self@, email_well_formed(self@.email)).len() == 0,
            verdict matches Err(fields) ==> fields@ == invalid_fields(
                self@,
                email_well_formed(self@.email),
            ),
    {
        let email_ok = check_email(self.email.as_str());
        let fields = self.invalid_fields_given(email_ok);
        if fields.len() == 0 {
            Ok(())
        } else {
            Err(fields)
        }
    }
}

} // verus!
