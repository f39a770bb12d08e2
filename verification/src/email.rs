//! Outgoing email through Mailgun's HTTP API: the settings a sender needs,
//! the form a message is posted as, and when a failed send is retried.
//!
//! Sending is not idempotent, so only failures where Mailgun cannot have
//! accepted the message are retried: refused connections and 429s.

use crate::error::{Error, ErrorType, error_is};
use crate::text::{chars_parse_u64, chars_sub, chars_trim, parse_u64, push_all, str_chars, string_from_chars, trim};
use vstd::arithmetic::power2::{lemma2_to64, pow2};
use vstd::prelude::*;

verus! {

/// The variable holding the Mailgun sending key.
pub open spec fn api_key_var() -> Seq<char> {
    seq!['M', 'A', 'I', 'L', 'G', 'U', 'N', '_', 'A', 'P', 'I', '_', 'K', 'E', 'Y']
}

pub fn api_key_var_chars() -> (out: Vec<char>)
    ensures
        out@ == api_key_var(),
{
    vec!['M', 'A', 'I', 'L', 'G', 'U', 'N', '_', 'A', 'P', 'I', '_', 'K', 'E', 'Y']
}

/// The variable holding the verified sending domain.
pub open spec fn domain_var() -> Seq<char> {
    seq!['M', 'A', 'I', 'L', 'G', 'U', 'N', '_', 'D', 'O', 'M', 'A', 'I', 'N']
}

pub fn domain_var_chars() -> (out: Vec<char>)
    ensures
        out@ == domain_var(),
{
    vec!['M', 'A', 'I', 'L', 'G', 'U', 'N', '_', 'D', 'O', 'M', 'A', 'I', 'N']
}

/// The variable holding the From header.
pub open spec fn from_var() -> Seq<char> {
    seq!['M', 'A', 'I', 'L', 'G', 'U', 'N', '_', 'F', 'R', 'O', 'M']
}

pub fn from_var_chars() -> (out: Vec<char>)
    ensures
        out@ == from_var(),
{
    vec!['M', 'A', 'I', 'L', 'G', 'U', 'N', '_', 'F', 'R', 'O', 'M']
}

/// Where Mailgun's API is.
pub open spec fn mailgun_api_url() -> Seq<char> {
    seq!['h', 't', 't', 'p', 's', ':', '/', '/', 'a', 'p', 'i', '.', 'm', 'a', 'i', 'l', 'g', 'u', 'n', '.', 'n', 'e', 't']
}

pub fn mailgun_api_url_chars() -> (out: Vec<char>)
    ensures
        out@ == mailgun_api_url(),
{
    vec!['h', 't', 't', 'p', 's', ':', '/', '/', 'a', 'p', 'i', '.', 'm', 'a', 'i', 'l', 'g', 'u', 'n', '.', 'n', 'e', 't']
}

/// Starts the error for a missing setting.
pub open spec fn not_configured_prefix() -> Seq<char> {
    seq!['e', 'm', 'a', 'i', 'l', ' ', 's', 'e', 'n', 'd', 'i', 'n', 'g', ' ', 'i', 's', ' ', 'n', 'o', 't', ' ', 'c', 'o', 'n', 'f', 'i', 'g', 'u', 'r', 'e', 'd', ':', ' ']
}

pub fn not_configured_prefix_chars() -> (out: Vec<char>)
    ensures
        out@ == not_configured_prefix(),
{
    vec!['e', 'm', 'a', 'i', 'l', ' ', 's', 'e', 'n', 'd', 'i', 'n', 'g', ' ', 'i', 's', ' ', 'n', 'o', 't', ' ', 'c', 'o', 'n', 'f', 'i', 'g', 'u', 'r', 'e', 'd', ':', ' ']
}

/// Ends the error for a missing setting.
pub open spec fn not_set_suffix() -> Seq<char> {
    seq![' ', 'i', 's', ' ', 'n', 'o', 't', ' ', 's', 'e', 't']
}

pub fn not_set_suffix_chars() -> (out: Vec<char>)
    ensures
        out@ == not_set_suffix(),
{
    vec![' ', 'i', 's', ' ', 'n', 'o', 't', ' ', 's', 'e', 't']
}

/// Between the API address and the domain.
pub open spec fn messages_path_start() -> Seq<char> {
    seq!['/', 'v', '3', '/']
}

pub fn messages_path_start_chars() -> (out: Vec<char>)
    ensures
        out@ == messages_path_start(),
{
    vec!['/', 'v', '3', '/']
}

/// Ends the path that sends a message.
pub open spec fn messages_path_end() -> Seq<char> {
    seq!['/', 'm', 'e', 's', 's', 'a', 'g', 'e', 's']
}

pub fn messages_path_end_chars() -> (out: Vec<char>)
    ensures
        out@ == messages_path_end(),
{
    vec!['/', 'm', 'e', 's', 's', 'a', 'g', 'e', 's']
}

/// The form field of the sender.
pub open spec fn from_field() -> Seq<char> {
    seq!['f', 'r', 'o', 'm']
}

pub fn from_field_chars() -> (out: Vec<char>)
    ensures
        out@ == from_field(),
{
    vec!['f', 'r', 'o', 'm']
}

/// The form field of the recipient.
pub open spec fn to_field() -> Seq<char> {
    seq!['t', 'o']
}

pub fn to_field_chars() -> (out: Vec<char>)
    ensures
        out@ == to_field(),
{
    vec!['t', 'o']
}

/// The form field of the subject.
pub open spec fn subject_field() -> Seq<char> {
    seq!['s', 'u', 'b', 'j', 'e', 'c', 't']
}

pub fn subject_field_chars() -> (out: Vec<char>)
    ensures
        out@ == subject_field(),
{
    vec!['s', 'u', 'b', 'j', 'e', 'c', 't']
}

/// The form field of the plain-text body.
pub open spec fn text_field() -> Seq<char> {
    seq!['t', 'e', 'x', 't']
}

pub fn text_field_chars() -> (out: Vec<char>)
    ensures
        out@ == text_field(),
{
    vec!['t', 'e', 'x', 't']
}

/// The form field of the HTML body.
pub open spec fn html_field() -> Seq<char> {
    seq!['h', 't', 'm', 'l']
}

pub fn html_field_chars() -> (out: Vec<char>)
    ensures
        out@ == html_field(),
{
    vec!['h', 't', 'm', 'l']
}

/// Starts the error for a refused message.
pub open spec fn refused_prefix() -> Seq<char> {
    seq!['M', 'a', 'i', 'l', 'g', 'u', 'n', ' ', 'r', 'e', 'f', 'u', 's', 'e', 'd', ' ', 't', 'h', 'e', ' ', 'm', 'e', 's', 's', 'a', 'g', 'e', ':', ' ', 'H', 'T', 'T', 'P', ' ']
}

pub fn refused_prefix_chars() -> (out: Vec<char>)
    ensures
        out@ == refused_prefix(),
{
    vec!['M', 'a', 'i', 'l', 'g', 'u', 'n', ' ', 'r', 'e', 'f', 'u', 's', 'e', 'd', ' ', 't', 'h', 'e', ' ', 'm', 'e', 's', 's', 'a', 'g', 'e', ':', ' ', 'H', 'T', 'T', 'P', ' ']
}

/// Starts the error for an unreachable Mailgun.
pub open spec fn unavailable_prefix() -> Seq<char> {
    seq!['M', 'a', 'i', 'l', 'g', 'u', 'n', ' ', 'u', 'n', 'a', 'v', 'a', 'i', 'l', 'a', 'b', 'l', 'e', ':', ' ']
}

pub fn unavailable_prefix_chars() -> (out: Vec<char>)
    ensures
        out@ == unavailable_prefix(),
{
    vec!['M', 'a', 'i', 'l', 'g', 'u', 'n', ' ', 'u', 'n', 'a', 'v', 'a', 'i', 'l', 'a', 'b', 'l', 'e', ':', ' ']
}

/// The error for a wait longer than retries allow.
pub open spec fn budget_message() -> Seq<char> {
    seq!['M', 'a', 'i', 'l', 'g', 'u', 'n', ' ', 'R', 'e', 't', 'r', 'y', '-', 'A', 'f', 't', 'e', 'r', ' ', 'e', 'x', 'c', 'e', 'e', 'd', 's', ' ', 'r', 'e', 't', 'r', 'y', ' ', 'b', 'u', 'd', 'g', 'e', 't']
}

pub fn budget_message_chars() -> (out: Vec<char>)
    ensures
        out@ == budget_message(),
{
    vec!['M', 'a', 'i', 'l', 'g', 'u', 'n', ' ', 'R', 'e', 't', 'r', 'y', '-', 'A', 'f', 't', 'e', 'r', ' ', 'e', 'x', 'c', 'e', 'e', 'd', 's', ' ', 'r', 'e', 't', 'r', 'y', ' ', 'b', 'u', 'd', 'g', 'e', 't']
}


#[derive(Debug, PartialEq, Eq)]
pub struct OutgoingEmail {
    pub to: String,
    pub subject: String,
    pub text: String,
    pub html: Option<String>,
}

/// How many times a message is posted at most.
pub const ATTEMPTS: u32 = 3;

/// A sender's settings. Holds the API key, so it must never reach an API
/// response or log: the key's text is private (`ApiKey`), read only into
/// the requests the sender makes, and neither type has `Debug`.
pub struct MailgunConfig {
    pub api_url: String,
    pub domain: String,
    pub api_key: ApiKey,
    pub from: String,
}

/// A Mailgun API key. Its text is private: only `message_request` reads it
/// out, into the requests the sender makes, and the type has no `Debug`.
pub struct ApiKey {
    key: String,
}

impl View for ApiKey {
    type V = Seq<char>;

    closed spec fn view(&self) -> Seq<char> {
        self.key@
    }
}

impl MailgunConfig {
    /// The API key's text.
    pub open spec fn key(&self) -> Seq<char> {
        self.api_key@
    }
}

/// A setting is configured when it is there and not blank.
pub open spec fn configured(value: Option<String>) -> bool {
    value matches Some(v) && trim(v@).len() > 0
}

pub open spec fn not_configured_message(name: Seq<char>) -> Seq<char> {
    not_configured_prefix() + name + not_set_suffix()
}

/// `s[..j]` without its trailing slashes: where that ends.
pub open spec fn trim_slashes_at(s: Seq<char>, j: int) -> int
    decreases j,
{
    if 0 < j && j <= s.len() && s[j - 1] == '/' {
        trim_slashes_at(s, j - 1)
    } else {
        j
    }
}

pub open spec fn trim_slashes(s: Seq<char>) -> Seq<char> {
    s.subrange(0, trim_slashes_at(s, s.len() as int))
}

proof fn lemma_trim_slashes_bounds(s: Seq<char>, j: int)
    requires
        0 <= j <= s.len(),
    ensures
        0 <= trim_slashes_at(s, j) <= j,
    decreases j,
{
    if 0 < j && s[j - 1] == '/' {
        lemma_trim_slashes_bounds(s, j - 1);
    }
}

fn require_setting(value: Option<String>, name: Vec<char>) -> (out: Result<String, Error>)
    ensures
        configured(value) ==> out == Ok::<String, Error>(value.unwrap()),
        !configured(value) ==> (out matches Err(e) && error_is(e, ErrorType::EmailSend, not_configured_message(name@))),
{
    match value {
        Some(v) => {
            if chars_trim(&str_chars(v.as_str())).len() > 0 {
                return Ok(v);
            }
        },
        None => {},
    }
    let mut m = not_configured_prefix_chars();
    push_all(&mut m, &name);
    push_all(&mut m, &not_set_suffix_chars());
    Err(Error::new(string_from_chars(&m), ErrorType::EmailSend))
}

impl MailgunConfig {
    /// A sender for `api_url`, without trailing slashes.
    pub fn new(api_url: String, domain: String, api_key: String, from: String) -> (out: MailgunConfig)
        ensures
            out.api_url@ == trim_slashes(api_url@),
            out.domain == domain,
            out.key() == api_key@,
            out.from == from,
    {
        let u = str_chars(api_url.as_str());
        let mut j = u.len();
        while j > 0 && u[j - 1] == '/'
            invariant
                j <= u@.len(),
                trim_slashes_at(u@, j as int) == trim_slashes_at(u@, u@.len() as int),
            decreases j,
        {
            j = j - 1;
        }
        MailgunConfig { api_url: string_from_chars(&chars_sub(&u, 0, j)), domain, api_key: ApiKey { key: api_key }, from }
    }

    /// Settings from `MAILGUN_API_KEY`, `MAILGUN_DOMAIN` and `MAILGUN_FROM`,
    /// given as looked up; the first one missing or blank is named in the
    /// error.
    pub fn from_vars(api_key: Option<String>, domain: Option<String>, from: Option<String>) -> (out: Result<MailgunConfig, Error>)
        ensures
            out is Ok <==> configured(api_key) && configured(domain) && configured(from),
            out matches Ok(c) ==> c.api_url@ == mailgun_api_url() && c.key() == api_key.unwrap()@
                && c.domain == domain.unwrap() && c.from == from.unwrap(),
            !configured(api_key) ==> (out matches Err(e) && error_is(e, ErrorType::EmailSend, not_configured_message(api_key_var()))),
            configured(api_key) && !configured(domain) ==> (out matches Err(e) && error_is(e, ErrorType::EmailSend, not_configured_message(domain_var()))),
            configured(api_key) && configured(domain) && !configured(from) ==> (out matches Err(e) && error_is(e, ErrorType::EmailSend, not_configured_message(from_var()))),
    {
        let api_key = match require_setting(api_key, api_key_var_chars()) {
            Ok(v) => v,
            Err(e) => return Err(e),
        };
        let domain = match require_setting(domain, domain_var_chars()) {
            Ok(v) => v,
            Err(e) => return Err(e),
        };
        let from = match require_setting(from, from_var_chars()) {
            Ok(v) => v,
            Err(e) => return Err(e),
        };
        let url = string_from_chars(&mailgun_api_url_chars());
        proof { assert(trim_slashes(mailgun_api_url()) =~= mailgun_api_url()); }
        Ok(MailgunConfig::new(url, domain, api_key, from))
    }

    /// Where messages of this sender's domain are posted.
    pub fn message_url(&self) -> (out: String)
        ensures
            out@ == self.api_url@ + messages_path_start() + self.domain@ + messages_path_end(),
    {
        let mut u = str_chars(self.api_url.as_str());
        push_all(&mut u, &messages_path_start_chars());
        push_all(&mut u, &str_chars(self.domain.as_str()));
        push_all(&mut u, &messages_path_end_chars());
        string_from_chars(&u)
    }

    /// The form fields a message is posted with: sender, recipient, subject,
    /// text, and the HTML body when there is one.
    pub fn message_form(&self, email: &OutgoingEmail) -> (out: Vec<(String, String)>)
        ensures
            out@.len() == if email.html is Some { 5int } else { 4int },
            out@[0].0@ == from_field() && out@[0].1@ == self.from@,
            out@[1].0@ == to_field() && out@[1].1@ == email.to@,
            out@[2].0@ == subject_field() && out@[2].1@ == email.subject@,
            out@[3].0@ == text_field() && out@[3].1@ == email.text@,
            email.html matches Some(h) ==> out@[4].0@ == html_field() && out@[4].1@ == h@,
    {
        let mut form: Vec<(String, String)> = Vec::new();
        form.push((string_from_chars(&from_field_chars()), copy_string(&self.from)));
        form.push((string_from_chars(&to_field_chars()), copy_string(&email.to)));
        form.push((string_from_chars(&subject_field_chars()), copy_string(&email.subject)));
        form.push((string_from_chars(&text_field_chars()), copy_string(&email.text)));
        match &email.html {
            Some(h) => form.push((string_from_chars(&html_field_chars()), copy_string(h))),
            None => {},
        }
        form
    }
}

fn copy_string(s: &String) -> (out: String)
    ensures
        out@ == s@,
{
    string_from_chars(&str_chars(s.as_str()))
}

// ---------------------------------------------------------------- retries

/// What one post of a message came to.
#[derive(Debug)]
pub enum SendOutcome {
    /// Mailgun answered with a success status.
    Accepted,
    /// Mailgun answered with another status: its code, how it reads, and the
    /// `Retry-After` header when there is one.
    Status { code: u16, status_text: String, retry_after: Option<String> },
    /// The connection was refused or could not be made.
    ConnectFailed(String),
    /// Any other failure, which Mailgun may have accepted.
    Failed(String),
}

/// What the sender does next.
#[derive(Debug)]
pub enum SendStep {
    /// The message was sent.
    Done,
    /// Wait this many milliseconds, then post again.
    Retry(u64),
    /// Give up with this error.
    Fail(Error),
}

pub const TOO_MANY_REQUESTS: u16 = 429;

/// The most a retry may wait, in milliseconds.
pub const RETRY_BUDGET_MS: u64 = 10_000;

/// The seconds a `Retry-After` header asks for, when it is a plain number.
pub open spec fn retry_after_spec(header: Option<Seq<char>>) -> Option<u64> {
    match header {
        Some(h) => parse_u64(h),
        None => None,
    }
}

/// The seconds a `Retry-After` header asks for, when it is a plain number.
pub fn retry_after(header: Option<&str>) -> (out: Option<u64>)
    ensures
        out == retry_after_spec(match header { Some(h) => Some(h@), None => None }),
{
    match header {
        Some(h) => chars_parse_u64(&str_chars(h)),
        None => None,
    }
}

/// The wait before retry `attempt + 1`: 200 ms doubled per attempt, plus
/// the jitter drawn for it.
pub open spec fn backoff_ms(attempt: u32, jitter: u64) -> int {
    200 * pow2(attempt as nat) + jitter
}

/// What to do after attempt `attempt` (from 0) came to `outcome`; `backoff`
/// is the wait drawn for this attempt should a retry need one.
pub open spec fn next_step_kind(attempt: u32, outcome: SendOutcome, backoff: u64) -> (bool, Option<int>, Seq<char>) {
    let last = attempt + 1 >= ATTEMPTS;
    match outcome {
        SendOutcome::Accepted => (true, None, seq![]),
        SendOutcome::Status { code, status_text, retry_after } =>
            if code == TOO_MANY_REQUESTS && !last {
                let secs = retry_after_spec(match retry_after { Some(h) => Some(h@), None => None });
                let wait: int = match secs { Some(s) => s * 1000, None => backoff as int };
                if wait > RETRY_BUDGET_MS { (false, None, budget_message()) } else { (false, Some(wait), seq![]) }
            } else {
                (false, None, refused_prefix() + status_text@)
            },
        SendOutcome::ConnectFailed(text) =>
            if !last {
                if backoff > RETRY_BUDGET_MS { (false, None, budget_message()) } else { (false, Some(backoff as int), seq![]) }
            } else {
                (false, None, unavailable_prefix() + text@)
            },
        SendOutcome::Failed(text) => (false, None, unavailable_prefix() + text@),
    }
}

/// The user name Mailgun takes with an API key in Basic authentication.
pub open spec fn api_user() -> Seq<char> {
    seq!['a', 'p', 'i']
}

pub fn api_user_chars() -> (out: Vec<char>)
    ensures
        out@ == api_user(),
{
    vec!['a', 'p', 'i']
}

/// One attempt at sending a message: a POST of the form fields to the
/// message URL, with Basic authentication of `api` and the API key.
pub struct MessageRequest {
    pub url: String,
    pub user: String,
    pub password: String,
    pub form: Vec<(String, String)>,
}

impl MailgunConfig {
    /// The request every attempt at sending `email` makes.
    pub fn message_request(&self, email: &OutgoingEmail) -> (out: MessageRequest)
        ensures
            out.url@ == self.api_url@ + messages_path_start() + self.domain@ + messages_path_end(),
            out.user@ == api_user(),
            out.password@ == self.key(),
            out.form@.len() == if email.html is Some { 5int } else { 4int },
            out.form@[0].0@ == from_field() && out.form@[0].1@ == self.from@,
            out.form@[1].0@ == to_field() && out.form@[1].1@ == email.to@,
            out.form@[2].0@ == subject_field() && out.form@[2].1@ == email.subject@,
            out.form@[3].0@ == text_field() && out.form@[3].1@ == email.text@,
            email.html matches Some(h) ==> out.form@[4].0@ == html_field() && out.form@[4].1@ == h@,
    {
        MessageRequest {
            url: self.message_url(),
            user: string_from_chars(&api_user_chars()),
            password: copy_string(&self.api_key.key),
            form: self.message_form(email),
        }
    }
}

/// What the sender does after attempt `attempt` came to `outcome`.
pub fn next_send_step(attempt: u32, outcome: &SendOutcome, backoff: u64) -> (out: SendStep)
    ensures
        next_step_kind(attempt, *outcome, backoff).0 <==> out is Done,
        next_step_kind(attempt, *outcome, backoff).1 matches Some(w) ==> out matches SendStep::Retry(ms) && ms == w,
        out matches SendStep::Retry(ms) ==> next_step_kind(attempt, *outcome, backoff).1 == Some(ms as int),
        out is Fail <==> !next_step_kind(attempt, *outcome, backoff).0 && next_step_kind(attempt, *outcome, backoff).1 is None,
        out matches SendStep::Fail(e) ==> next_step_kind(attempt, *outcome, backoff).1 is None
            && error_is(e, ErrorType::EmailSend, next_step_kind(attempt, *outcome, backoff).2),
        out matches SendStep::Retry(ms) ==> ms <= RETRY_BUDGET_MS && attempt + 1 < ATTEMPTS
            && (outcome is ConnectFailed || (outcome matches SendOutcome::Status { code, .. } && code == TOO_MANY_REQUESTS)),
{
    let last = attempt >= ATTEMPTS - 1;
    match outcome {
        SendOutcome::Accepted => SendStep::Done,
        SendOutcome::Status { code, status_text, retry_after: header } => {
            if *code == TOO_MANY_REQUESTS && !last {
                let secs = match header {
                    Some(h) => retry_after(Some(h.as_str())),
                    None => retry_after(None),
                };
                match secs {
                    Some(s) => if s > RETRY_BUDGET_MS / 1000 {
                        SendStep::Fail(Error::new(string_from_chars(&budget_message_chars()), ErrorType::EmailSend))
                    } else {
                        SendStep::Retry(s * 1000)
                    },
                    None => if backoff > RETRY_BUDGET_MS {
                        SendStep::Fail(Error::new(string_from_chars(&budget_message_chars()), ErrorType::EmailSend))
                    } else {
                        SendStep::Retry(backoff)
                    },
                }
            } else {
                let mut m = refused_prefix_chars();
                push_all(&mut m, &str_chars(status_text.as_str()));
                SendStep::Fail(Error::new(string_from_chars(&m), ErrorType::EmailSend))
            }
        },
        SendOutcome::ConnectFailed(text) => {
            if !last {
                if backoff > RETRY_BUDGET_MS {
                    SendStep::Fail(Error::new(string_from_chars(&budget_message_chars()), ErrorType::EmailSend))
                } else {
                    SendStep::Retry(backoff)
                }
            } else {
                let mut m = unavailable_prefix_chars();
                push_all(&mut m, &str_chars(text.as_str()));
                SendStep::Fail(Error::new(string_from_chars(&m), ErrorType::EmailSend))
            }
        },
        SendOutcome::Failed(text) => {
            let mut m = unavailable_prefix_chars();
            push_all(&mut m, &str_chars(text.as_str()));
            SendStep::Fail(Error::new(string_from_chars(&m), ErrorType::EmailSend))
        },
    }
}

/// A random jitter below `bound` milliseconds, drawn with
/// `rand::random_range`. Nothing is promised of it but the range.
#[verifier::external_body]
pub(crate) fn random_jitter(bound: u64) -> (out: u64)
    requires
        bound > 0,
    ensures
        out < bound,
{
    rand::random_range(0..bound)
}

/// The wait before the retry after attempt `attempt`: 200 ms doubled per
/// attempt plus up to 99 ms of jitter.
pub fn backoff(attempt: u32) -> (out: u64)
    requires
        attempt < ATTEMPTS,
    ensures
        exists|jitter: u64| jitter < 100 && out == backoff_ms(attempt, jitter),
{
    let jitter = random_jitter(100);
    let base: u64 = if attempt == 0 { 200 } else if attempt == 1 { 400 } else { 800 };
    proof {
        lemma2_to64();
        assert(base == 200 * pow2(attempt as nat));
        assert(base + jitter == backoff_ms(attempt, jitter));
    }
    base + jitter
}

} // verus!
