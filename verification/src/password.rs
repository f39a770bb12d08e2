//! Single-use links that let a user choose a password: member invites made
//! by a trusted caller, and forgotten-password requests by email address.
//!
//! The token only ever appears in the link. The database keeps its SHA-256,
//! so a database read cannot be turned into a working link. Times are
//! nanoseconds since the Unix epoch.

use crate::email::OutgoingEmail;
use crate::error::{Error, ErrorType, error_is};
use crate::names::Reference;
use data_encoding::BASE64URL_NOPAD;
use sha2::{Digest, Sha256};
use crate::text::{chars_lower_ascii, chars_match_at, chars_trim, lower_ascii_seq, push_all, str_chars, string_from_chars, trim};
use vstd::prelude::*;

verus! {

/// Where a password link points, before its token.
pub open spec fn set_password_path() -> Seq<char> {
    seq!['/', '-', '/', 's', 'e', 't', '-', 'p', 'a', 's', 's', 'w', 'o', 'r', 'd', '/']
}

pub fn set_password_path_chars() -> (out: Vec<char>)
    ensures
        out@ == set_password_path(),
{
    vec!['/', '-', '/', 's', 'e', 't', '-', 'p', 'a', 's', 's', 'w', 'o', 'r', 'd', '/']
}

/// Starts a link.
pub open spec fn https_prefix() -> Seq<char> {
    seq!['h', 't', 't', 'p', 's', ':', '/', '/']
}

pub fn https_prefix_chars() -> (out: Vec<char>)
    ensures
        out@ == https_prefix(),
{
    vec!['h', 't', 't', 'p', 's', ':', '/', '/']
}

/// The placeholder domain of imported members.
pub open spec fn invalid_suffix() -> Seq<char> {
    seq!['.', 'i', 'n', 'v', 'a', 'l', 'i', 'd']
}

pub fn invalid_suffix_chars() -> (out: Vec<char>)
    ensures
        out@ == invalid_suffix(),
{
    vec!['.', 'i', 'n', 'v', 'a', 'l', 'i', 'd']
}

/// Starts the subject of an invite.
pub open spec fn invite_subject_prefix() -> Seq<char> {
    seq!['C', 'h', 'o', 'o', 's', 'e', ' ', 'y', 'o', 'u', 'r', ' ', 'p', 'a', 's', 's', 'w', 'o', 'r', 'd', ' ', 'f', 'o', 'r', ' ']
}

pub fn invite_subject_prefix_chars() -> (out: Vec<char>)
    ensures
        out@ == invite_subject_prefix(),
{
    vec!['C', 'h', 'o', 'o', 's', 'e', ' ', 'y', 'o', 'u', 'r', ' ', 'p', 'a', 's', 's', 'w', 'o', 'r', 'd', ' ', 'f', 'o', 'r', ' ']
}

/// Starts the subject of a reset.
pub open spec fn reset_subject_prefix() -> Seq<char> {
    seq!['R', 'e', 's', 'e', 't', ' ', 'y', 'o', 'u', 'r', ' ', 'p', 'a', 's', 's', 'w', 'o', 'r', 'd', ' ', 'f', 'o', 'r', ' ']
}

pub fn reset_subject_prefix_chars() -> (out: Vec<char>)
    ensures
        out@ == reset_subject_prefix(),
{
    vec!['R', 'e', 's', 'e', 't', ' ', 'y', 'o', 'u', 'r', ' ', 'p', 'a', 's', 's', 'w', 'o', 'r', 'd', ' ', 'f', 'o', 'r', ' ']
}

/// Greets the recipient.
pub open spec fn hello() -> Seq<char> {
    seq!['H', 'e', 'l', 'l', 'o', ' ']
}

pub fn hello_chars() -> (out: Vec<char>)
    ensures
        out@ == hello(),
{
    vec!['H', 'e', 'l', 'l', 'o', ' ']
}

/// Follows the greeting of an invite.
pub open spec fn invite_account() -> Seq<char> {
    seq![',', '\n', '\n', 'Y', 'o', 'u', 'r', ' ', 'a', 'c', 'c', 'o', 'u', 'n', 't', ' ']
}

pub fn invite_account_chars() -> (out: Vec<char>)
    ensures
        out@ == invite_account(),
{
    vec![',', '\n', '\n', 'Y', 'o', 'u', 'r', ' ', 'a', 'c', 'c', 'o', 'u', 'n', 't', ' ']
}

/// Between an account and its site.
pub open spec fn on_word() -> Seq<char> {
    seq![' ', 'o', 'n', ' ']
}

pub fn on_word_chars() -> (out: Vec<char>)
    ensures
        out@ == on_word(),
{
    vec![' ', 'o', 'n', ' ']
}

/// Asks the invited member to choose a password.
pub open spec fn invite_ready() -> Seq<char> {
    seq![' ', 'i', 's', ' ', 'r', 'e', 'a', 'd', 'y', '.', ' ', 'T', 'o', ' ', 's', 'i', 'g', 'n', ' ', 'i', 'n', ',', ' ', 'f', 'i', 'r', 's', 't', ' ', 'c', 'h', 'o', 'o', 's', 'e', ' ', 'a', ' ', 'p', 'a', 's', 's', 'w', 'o', 'r', 'd', ' ', 'h', 'e', 'r', 'e', ':', '\n', '\n']
}

pub fn invite_ready_chars() -> (out: Vec<char>)
    ensures
        out@ == invite_ready(),
{
    vec![' ', 'i', 's', ' ', 'r', 'e', 'a', 'd', 'y', '.', ' ', 'T', 'o', ' ', 's', 'i', 'g', 'n', ' ', 'i', 'n', ',', ' ', 'f', 'i', 'r', 's', 't', ' ', 'c', 'h', 'o', 'o', 's', 'e', ' ', 'a', ' ', 'p', 'a', 's', 's', 'w', 'o', 'r', 'd', ' ', 'h', 'e', 'r', 'e', ':', '\n', '\n']
}

/// Before the date an invite link expires.
pub open spec fn invite_expiry() -> Seq<char> {
    seq!['\n', '\n', 'T', 'h', 'e', ' ', 'l', 'i', 'n', 'k', ' ', 'w', 'o', 'r', 'k', 's', ' ', 'o', 'n', 'c', 'e', ' ', 'a', 'n', 'd', ' ', 'e', 'x', 'p', 'i', 'r', 'e', 's', ' ', 'o', 'n', ' ']
}

pub fn invite_expiry_chars() -> (out: Vec<char>)
    ensures
        out@ == invite_expiry(),
{
    vec!['\n', '\n', 'T', 'h', 'e', ' ', 'l', 'i', 'n', 'k', ' ', 'w', 'o', 'r', 'k', 's', ' ', 'o', 'n', 'c', 'e', ' ', 'a', 'n', 'd', ' ', 'e', 'x', 'p', 'i', 'r', 'e', 's', ' ', 'o', 'n', ' ']
}

/// Ends an invite.
pub open spec fn utc_end() -> Seq<char> {
    seq![' ', '(', 'U', 'T', 'C', ')', '.', '\n']
}

pub fn utc_end_chars() -> (out: Vec<char>)
    ensures
        out@ == utc_end(),
{
    vec![' ', '(', 'U', 'T', 'C', ')', '.', '\n']
}

/// Follows the greeting of a reset.
pub open spec fn reset_account() -> Seq<char> {
    seq![',', '\n', '\n', 'S', 'o', 'm', 'e', 'o', 'n', 'e', ' ', 'a', 's', 'k', 'e', 'd', ' ', 't', 'o', ' ', 'r', 'e', 's', 'e', 't', ' ', 't', 'h', 'e', ' ', 'p', 'a', 's', 's', 'w', 'o', 'r', 'd', ' ', 'o', 'f', ' ', 'y', 'o', 'u', 'r', ' ', 'a', 'c', 'c', 'o', 'u', 'n', 't', ' ']
}

pub fn reset_account_chars() -> (out: Vec<char>)
    ensures
        out@ == reset_account(),
{
    vec![',', '\n', '\n', 'S', 'o', 'm', 'e', 'o', 'n', 'e', ' ', 'a', 's', 'k', 'e', 'd', ' ', 't', 'o', ' ', 'r', 'e', 's', 'e', 't', ' ', 't', 'h', 'e', ' ', 'p', 'a', 's', 's', 'w', 'o', 'r', 'd', ' ', 'o', 'f', ' ', 'y', 'o', 'u', 'r', ' ', 'a', 'c', 'c', 'o', 'u', 'n', 't', ' ']
}

/// Asks for a new password.
pub open spec fn reset_open() -> Seq<char> {
    seq!['.', ' ', 'T', 'o', ' ', 'c', 'h', 'o', 'o', 's', 'e', ' ', 'a', ' ', 'n', 'e', 'w', ' ', 'p', 'a', 's', 's', 'w', 'o', 'r', 'd', ',', ' ', 'o', 'p', 'e', 'n', ':', '\n', '\n']
}

pub fn reset_open_chars() -> (out: Vec<char>)
    ensures
        out@ == reset_open(),
{
    vec!['.', ' ', 'T', 'o', ' ', 'c', 'h', 'o', 'o', 's', 'e', ' ', 'a', ' ', 'n', 'e', 'w', ' ', 'p', 'a', 's', 's', 'w', 'o', 'r', 'd', ',', ' ', 'o', 'p', 'e', 'n', ':', '\n', '\n']
}

/// Ends a reset.
pub open spec fn reset_end() -> Seq<char> {
    seq!['\n', '\n', 'T', 'h', 'e', ' ', 'l', 'i', 'n', 'k', ' ', 'w', 'o', 'r', 'k', 's', ' ', 'o', 'n', 'c', 'e', ' ', 'a', 'n', 'd', ' ', 'e', 'x', 'p', 'i', 'r', 'e', 's', ' ', 'i', 'n', ' ', '2', '4', ' ', 'h', 'o', 'u', 'r', 's', '.', ' ', 'I', 'f', ' ', 'y', 'o', 'u', ' ', 'd', 'i', 'd', ' ', 'n', 'o', 't', ' ', 'a', 's', 'k', ' ', 'f', 'o', 'r', ' ', 't', 'h', 'i', 's', ',', ' ', 'i', 'g', 'n', 'o', 'r', 'e', ' ', 't', 'h', 'i', 's', ' ', 'e', 'm', 'a', 'i', 'l', ':', ' ', 'y', 'o', 'u', 'r', ' ', 'p', 'a', 's', 's', 'w', 'o', 'r', 'd', ' ', 's', 't', 'a', 'y', 's', ' ', 't', 'h', 'e', ' ', 's', 'a', 'm', 'e', '.', '\n']
}

pub fn reset_end_chars() -> (out: Vec<char>)
    ensures
        out@ == reset_end(),
{
    vec!['\n', '\n', 'T', 'h', 'e', ' ', 'l', 'i', 'n', 'k', ' ', 'w', 'o', 'r', 'k', 's', ' ', 'o', 'n', 'c', 'e', ' ', 'a', 'n', 'd', ' ', 'e', 'x', 'p', 'i', 'r', 'e', 's', ' ', 'i', 'n', ' ', '2', '4', ' ', 'h', 'o', 'u', 'r', 's', '.', ' ', 'I', 'f', ' ', 'y', 'o', 'u', ' ', 'd', 'i', 'd', ' ', 'n', 'o', 't', ' ', 'a', 's', 'k', ' ', 'f', 'o', 'r', ' ', 't', 'h', 'i', 's', ',', ' ', 'i', 'g', 'n', 'o', 'r', 'e', ' ', 't', 'h', 'i', 's', ' ', 'e', 'm', 'a', 'i', 'l', ':', ' ', 'y', 'o', 'u', 'r', ' ', 'p', 'a', 's', 's', 'w', 'o', 'r', 'd', ' ', 's', 't', 'a', 'y', 's', ' ', 't', 'h', 'e', ' ', 's', 'a', 'm', 'e', '.', '\n']
}

/// Starts an error that names a user.
pub open spec fn user_prefix() -> Seq<char> {
    seq!['u', 's', 'e', 'r', ' ']
}

pub fn user_prefix_chars() -> (out: Vec<char>)
    ensures
        out@ == user_prefix(),
{
    vec!['u', 's', 'e', 'r', ' ']
}

/// Ends the error for an undeliverable address.
pub open spec fn undeliverable_suffix() -> Seq<char> {
    seq![' ', 'h', 'a', 's', ' ', 'n', 'o', ' ', 'd', 'e', 'l', 'i', 'v', 'e', 'r', 'a', 'b', 'l', 'e', ' ', 'e', 'm', 'a', 'i', 'l', ' ', 'a', 'd', 'd', 'r', 'e', 's', 's']
}

pub fn undeliverable_suffix_chars() -> (out: Vec<char>)
    ensures
        out@ == undeliverable_suffix(),
{
    vec![' ', 'h', 'a', 's', ' ', 'n', 'o', ' ', 'd', 'e', 'l', 'i', 'v', 'e', 'r', 'a', 'b', 'l', 'e', ' ', 'e', 'm', 'a', 'i', 'l', ' ', 'a', 'd', 'd', 'r', 'e', 's', 's']
}

/// Ends the error for an account without a password.
pub open spec fn wrong_type_suffix() -> Seq<char> {
    seq![' ', 'c', 'a', 'n', 'n', 'o', 't', ' ', 's', 'i', 'g', 'n', ' ', 'i', 'n', ' ', 'w', 'i', 't', 'h', ' ', 'a', ' ', 'p', 'a', 's', 's', 'w', 'o', 'r', 'd']
}

pub fn wrong_type_suffix_chars() -> (out: Vec<char>)
    ensures
        out@ == wrong_type_suffix(),
{
    vec![' ', 'c', 'a', 'n', 'n', 'o', 't', ' ', 's', 'i', 'g', 'n', ' ', 'i', 'n', ' ', 'w', 'i', 't', 'h', ' ', 'a', ' ', 'p', 'a', 's', 's', 'w', 'o', 'r', 'd']
}

/// The error when no sender is configured.
pub open spec fn mail_unconfigured_message() -> Seq<char> {
    seq!['e', 'm', 'a', 'i', 'l', ' ', 's', 'e', 'n', 'd', 'i', 'n', 'g', ' ', 'i', 's', ' ', 'n', 'o', 't', ' ', 'c', 'o', 'n', 'f', 'i', 'g', 'u', 'r', 'e', 'd', ':', ' ', 's', 'e', 't', ' ', 'M', 'A', 'I', 'L', 'G', 'U', 'N', '_', 'A', 'P', 'I', '_', 'K', 'E', 'Y', ',', ' ', 'M', 'A', 'I', 'L', 'G', 'U', 'N', '_', 'D', 'O', 'M', 'A', 'I', 'N', ' ', 'a', 'n', 'd', ' ', 'M', 'A', 'I', 'L', 'G', 'U', 'N', '_', 'F', 'R', 'O', 'M']
}

pub fn mail_unconfigured_message_chars() -> (out: Vec<char>)
    ensures
        out@ == mail_unconfigured_message(),
{
    vec!['e', 'm', 'a', 'i', 'l', ' ', 's', 'e', 'n', 'd', 'i', 'n', 'g', ' ', 'i', 's', ' ', 'n', 'o', 't', ' ', 'c', 'o', 'n', 'f', 'i', 'g', 'u', 'r', 'e', 'd', ':', ' ', 's', 'e', 't', ' ', 'M', 'A', 'I', 'L', 'G', 'U', 'N', '_', 'A', 'P', 'I', '_', 'K', 'E', 'Y', ',', ' ', 'M', 'A', 'I', 'L', 'G', 'U', 'N', '_', 'D', 'O', 'M', 'A', 'I', 'N', ' ', 'a', 'n', 'd', ' ', 'M', 'A', 'I', 'L', 'G', 'U', 'N', '_', 'F', 'R', 'O', 'M']
}

/// Refuses an empty password.
pub open spec fn empty_password_message() -> Seq<char> {
    seq!['p', 'a', 's', 's', 'w', 'o', 'r', 'd', ' ', 'c', 'a', 'n', 'n', 'o', 't', ' ', 'b', 'e', ' ', 'e', 'm', 'p', 't', 'y']
}

pub fn empty_password_message_chars() -> (out: Vec<char>)
    ensures
        out@ == empty_password_message(),
{
    vec!['p', 'a', 's', 's', 'w', 'o', 'r', 'd', ' ', 'c', 'a', 'n', 'n', 'o', 't', ' ', 'b', 'e', ' ', 'e', 'm', 'p', 't', 'y']
}

/// Refuses a link that was never issued.
pub open spec fn unknown_link_message() -> Seq<char> {
    seq!['u', 'n', 'k', 'n', 'o', 'w', 'n', ' ', 'p', 'a', 's', 's', 'w', 'o', 'r', 'd', ' ', 'l', 'i', 'n', 'k']
}

pub fn unknown_link_message_chars() -> (out: Vec<char>)
    ensures
        out@ == unknown_link_message(),
{
    vec!['u', 'n', 'k', 'n', 'o', 'w', 'n', ' ', 'p', 'a', 's', 's', 'w', 'o', 'r', 'd', ' ', 'l', 'i', 'n', 'k']
}

/// Refuses a link that was used.
pub open spec fn used_link_message() -> Seq<char> {
    seq!['p', 'a', 's', 's', 'w', 'o', 'r', 'd', ' ', 'l', 'i', 'n', 'k', ' ', 'a', 'l', 'r', 'e', 'a', 'd', 'y', ' ', 'u', 's', 'e', 'd']
}

pub fn used_link_message_chars() -> (out: Vec<char>)
    ensures
        out@ == used_link_message(),
{
    vec!['p', 'a', 's', 's', 'w', 'o', 'r', 'd', ' ', 'l', 'i', 'n', 'k', ' ', 'a', 'l', 'r', 'e', 'a', 'd', 'y', ' ', 'u', 's', 'e', 'd']
}

/// Refuses a link that expired.
pub open spec fn expired_link_message() -> Seq<char> {
    seq!['p', 'a', 's', 's', 'w', 'o', 'r', 'd', ' ', 'l', 'i', 'n', 'k', ' ', 'e', 'x', 'p', 'i', 'r', 'e', 'd']
}

pub fn expired_link_message_chars() -> (out: Vec<char>)
    ensures
        out@ == expired_link_message(),
{
    vec!['p', 'a', 's', 's', 'w', 'o', 'r', 'd', ' ', 'l', 'i', 'n', 'k', ' ', 'e', 'x', 'p', 'i', 'r', 'e', 'd']
}

/// Reports a failed password link query.
pub open spec fn password_query_message() -> Seq<char> {
    seq!['p', 'a', 's', 's', 'w', 'o', 'r', 'd', ' ', 'l', 'i', 'n', 'k', ' ', 'q', 'u', 'e', 'r', 'y', ' ', 'f', 'a', 'i', 'l', 'e', 'd']
}

pub fn password_query_message_chars() -> (out: Vec<char>)
    ensures
        out@ == password_query_message(),
{
    vec!['p', 'a', 's', 's', 'w', 'o', 'r', 'd', ' ', 'l', 'i', 'n', 'k', ' ', 'q', 'u', 'e', 'r', 'y', ' ', 'f', 'a', 'i', 'l', 'e', 'd']
}

/// Refuses a reset without an address.
pub open spec fn reset_email_empty_message() -> Seq<char> {
    seq!['e', 'm', 'a', 'i', 'l', ' ', 'c', 'a', 'n', 'n', 'o', 't', ' ', 'b', 'e', ' ', 'e', 'm', 'p', 't', 'y']
}

pub fn reset_email_empty_message_chars() -> (out: Vec<char>)
    ensures
        out@ == reset_email_empty_message(),
{
    vec!['e', 'm', 'a', 'i', 'l', ' ', 'c', 'a', 'n', 'n', 'o', 't', ' ', 'b', 'e', ' ', 'e', 'm', 'p', 't', 'y']
}


pub const NANOS_PER_SECOND: i128 = 1_000_000_000;

/// How long an invite link works, in seconds.
pub const INVITE_LIFETIME_SECS: i128 = 604_800;

/// How long a reset link works, in seconds.
pub const RESET_LIFETIME_SECS: i128 = 86_400;

/// A forgotten-password request this soon after the user's last link, in
/// seconds, sends nothing, so nobody can flood a member's inbox.
pub const RESET_COOLDOWN_SECS: i128 = 600;

/// The earliest and latest instants, in nanoseconds, that have a calendar
/// date: the first and last instants of years -9999 and 9999.
pub const MIN_DATED_NANOS: i128 = -377_705_116_800_000_000_000;
pub const MAX_DATED_NANOS: i128 = 253_402_300_799_999_999_999;

#[derive(Debug)]
pub struct CreatePasswordLink {
    pub user: Reference,
    pub site_id: i64,
    pub send_email: bool,
}

#[derive(Debug)]
pub struct RequestPasswordReset {
    pub email: String,
    pub site_id: i64,
}

#[derive(Debug)]
pub struct PasswordTokenService;

// ---------------------------------------------------------------- tokens

/// The unpadded base64url encoding (RFC 4648) of `bytes`.
pub uninterp spec fn base64url_nopad(bytes: Seq<u8>) -> Seq<char>;

/// The SHA-256 digest of the UTF-8 encoding of `text`.
pub uninterp spec fn sha256_of_utf8(text: Seq<char>) -> Seq<u8>;

/// A character of the base64url alphabet.
pub open spec fn url_safe(c: char) -> bool {
    ('A' <= c && c <= 'Z') || ('a' <= c && c <= 'z') || ('0' <= c && c <= '9') || c == '-' || c == '_'
}

/// 32 bytes from the thread's random generator (`rand::fill`). What they
/// are is left open; only their number is stated.
#[verifier::external_body]
fn random_bytes() -> (out: Vec<u8>)
    ensures
        out@.len() == 32,
{
    let mut buffer = [0u8; 32];
    rand::fill(&mut buffer);
    buffer.to_vec()
}

/// `data_encoding::BASE64URL_NOPAD.encode`: the encoding is named; of it
/// the contract states the length `encode_len` gives for six-bit symbols
/// without padding, and that every symbol is of the base64url alphabet.
#[verifier::external_body]
fn encode_base64url(bytes: &[u8]) -> (out: String)
    requires
        bytes@.len() <= usize::MAX / 512,
    ensures
        out@ == base64url_nopad(bytes@),
        out@.len() == (8 * bytes@.len() + 5) / 6,
        forall|i: int| 0 <= i < out@.len() ==> url_safe(#[trigger] out@[i]),
{
    BASE64URL_NOPAD.encode(bytes)
}

/// `Sha256::digest` of the token's UTF-8 bytes: the digest is named, and is
/// 32 bytes long.
#[verifier::external_body]
fn sha256_utf8(text: &str) -> (out: Vec<u8>)
    ensures
        out@ == sha256_of_utf8(text@),
        out@.len() == 32,
{
    Sha256::digest(text.as_bytes()).to_vec()
}

/// A new token: 32 random bytes, base64url-encoded without padding, so 43
/// URL-safe characters.
pub fn generate_token() -> (out: String)
    ensures
        exists|bytes: Seq<u8>| bytes.len() == 32 && out@ == base64url_nopad(bytes),
        out@.len() == 43,
        forall|i: int| 0 <= i < out@.len() ==> url_safe(#[trigger] out@[i]),
{
    let bytes = random_bytes();
    encode_base64url(&bytes)
}

/// What the database keeps of a token: its SHA-256.
pub fn hash_token(token: &str) -> (out: Vec<u8>)
    ensures
        out@ == sha256_of_utf8(token@),
        out@.len() == 32,
{
    sha256_utf8(token)
}

// ---------------------------------------------------------------- links

pub open spec fn link_path_spec(token: Seq<char>) -> Seq<char> {
    set_password_path() + token
}

/// The path of the page where a token's user chooses a password.
pub fn link_path(token: &str) -> (out: String)
    ensures
        out@ == link_path_spec(token@),
{
    let mut p = set_password_path_chars();
    push_all(&mut p, &str_chars(token));
    string_from_chars(&p)
}

pub open spec fn link_url_spec(domain: Seq<char>, token: Seq<char>) -> Seq<char> {
    https_prefix() + domain + link_path_spec(token)
}

/// The link to a token's page on the site's preferred domain.
pub fn link_url(domain: &str, token: &str) -> (out: String)
    ensures
        out@ == link_url_spec(domain@, token@),
{
    let mut u = https_prefix_chars();
    push_all(&mut u, &str_chars(domain));
    push_all(&mut u, &str_chars(link_path(token).as_str()));
    string_from_chars(&u)
}

pub open spec fn ends_with(s: Seq<char>, suffix: Seq<char>) -> bool {
    s.len() >= suffix.len() && s.subrange(s.len() - suffix.len(), s.len() as int) == suffix
}

/// Whether an address can receive mail: it has an `@`, and is not an
/// RFC 2606 `.invalid` placeholder, in any case.
pub open spec fn is_deliverable_spec(email: Seq<char>) -> bool {
    email.contains('@') && !ends_with(lower_ascii_seq(email), invalid_suffix())
}

/// Imported members start with an RFC 2606 `.invalid` placeholder address.
pub fn is_deliverable(email: &str) -> (out: bool)
    ensures
        out == is_deliverable_spec(email@),
{
    let e = str_chars(email);
    let mut has_at = false;
    let mut i: usize = 0;
    while i < e.len()
        invariant
            i <= e@.len(),
            has_at <==> exists|j: int| 0 <= j < i && e@[j] == '@',
        decreases e@.len() - i,
    {
        if e[i] == '@' {
            has_at = true;
        }
        i = i + 1;
    }
    assert(has_at <==> e@.contains('@'));
    if !has_at {
        return false;
    }
    let lower = chars_lower_ascii(&e);
    let suffix = invalid_suffix_chars();
    if lower.len() < suffix.len() {
        return true;
    }
    let at = lower.len() - suffix.len();
    let tail_matches = chars_match_at(&lower, at, &suffix);
    proof {
        if tail_matches {
            assert forall|k: int| 0 <= k < suffix@.len() implies
                #[trigger] lower@.subrange(at as int, lower@.len() as int)[k] == suffix@[k] by {
                assert(lower@[at + k] == suffix@[k]);
            }
            assert(lower@.subrange(at as int, lower@.len() as int) =~= suffix@);
        } else {
            if lower@.subrange(at as int, lower@.len() as int) == suffix@ {
                assert forall|k: int| 0 <= k < suffix@.len() implies #[trigger] lower@[at + k] == suffix@[k] by {
                    assert(lower@.subrange(at as int, lower@.len() as int)[k] == lower@[at + k]);
                }
            }
        }
    }
    !tail_matches
}

// ---------------------------------------------------------------- emails

/// The calendar date, UTC, of the instant `nanos`, as `time` writes a date.
pub uninterp spec fn utc_date_text(nanos: int) -> Seq<char>;

/// The UTC date of an instant in nanoseconds, through
/// `OffsetDateTime::from_unix_timestamp_nanos` and `Date`'s `Display`. The
/// text is named; the range is where `time` has a date.
#[verifier::external_body]
fn utc_date(nanos: i128) -> (out: String)
    requires
        MIN_DATED_NANOS <= nanos <= MAX_DATED_NANOS,
    ensures
        out@ == utc_date_text(nanos as int),
{
    match time::OffsetDateTime::from_unix_timestamp_nanos(nanos) {
        Ok(at) => at.date().to_string(),
        Err(_) => String::new(),
    }
}

pub open spec fn invite_text(name: Seq<char>, site: Seq<char>, url: Seq<char>, date: Seq<char>) -> Seq<char> {
    hello() + name + invite_account() + name + on_word() + site + invite_ready() + url + invite_expiry() + date + utc_end()
}

pub open spec fn reset_text(name: Seq<char>, site: Seq<char>, url: Seq<char>) -> Seq<char> {
    hello() + name + reset_account() + name + on_word() + site + reset_open() + url + reset_end()
}

fn copy_string(s: &str) -> (out: String)
    ensures
        out@ == s@,
{
    string_from_chars(&str_chars(s))
}

/// The invite that asks a new member to choose a password through `url`,
/// which expires at `expires_at`.
pub fn invite_email(user_name: &str, user_email: &str, site_name: &str, url: &str, expires_at: i128) -> (out: OutgoingEmail)
    requires
        MIN_DATED_NANOS <= expires_at <= MAX_DATED_NANOS,
    ensures
        out.to@ == user_email@,
        out.subject@ == invite_subject_prefix() + site_name@,
        out.text@ == invite_text(user_name@, site_name@, url@, utc_date_text(expires_at as int)),
        out.html is None,
{
    let name = str_chars(user_name);
    let site = str_chars(site_name);
    let mut subject = invite_subject_prefix_chars();
    push_all(&mut subject, &site);
    let mut text = hello_chars();
    push_all(&mut text, &name);
    push_all(&mut text, &invite_account_chars());
    push_all(&mut text, &name);
    push_all(&mut text, &on_word_chars());
    push_all(&mut text, &site);
    push_all(&mut text, &invite_ready_chars());
    push_all(&mut text, &str_chars(url));
    push_all(&mut text, &invite_expiry_chars());
    push_all(&mut text, &str_chars(utc_date(expires_at).as_str()));
    push_all(&mut text, &utc_end_chars());
    OutgoingEmail {
        to: copy_string(user_email),
        subject: string_from_chars(&subject),
        text: string_from_chars(&text),
        html: None,
    }
}

/// The email that lets a user who forgot their password choose a new one
/// through `url`.
pub fn reset_email(user_name: &str, user_email: &str, site_name: &str, url: &str) -> (out: OutgoingEmail)
    ensures
        out.to@ == user_email@,
        out.subject@ == reset_subject_prefix() + site_name@,
        out.text@ == reset_text(user_name@, site_name@, url@),
        out.html is None,
{
    let name = str_chars(user_name);
    let site = str_chars(site_name);
    let mut subject = reset_subject_prefix_chars();
    push_all(&mut subject, &site);
    let mut text = hello_chars();
    push_all(&mut text, &name);
    push_all(&mut text, &reset_account_chars());
    push_all(&mut text, &name);
    push_all(&mut text, &on_word_chars());
    push_all(&mut text, &site);
    push_all(&mut text, &reset_open_chars());
    push_all(&mut text, &str_chars(url));
    push_all(&mut text, &reset_end_chars());
    OutgoingEmail {
        to: copy_string(user_email),
        subject: string_from_chars(&subject),
        text: string_from_chars(&text),
        html: None,
    }
}

// ---------------------------------------------------------------- checks

fn user_error(slug: &str, suffix: Vec<char>, kind: ErrorType) -> (out: Error)
    ensures
        error_is(out, kind, user_prefix() + slug@ + suffix@),
{
    let mut m = user_prefix_chars();
    push_all(&mut m, &str_chars(slug));
    push_all(&mut m, &suffix);
    Error::new(string_from_chars(&m), kind)
}

/// A link is emailed only to a deliverable address; the check comes before
/// anything is written, so a refused send leaves no link.
pub fn check_deliverable(slug: &str, email: &str) -> (out: Result<(), Error>)
    ensures
        out is Ok <==> is_deliverable_spec(email@),
        out matches Err(e) ==> error_is(e, ErrorType::BadRequest, user_prefix() + slug@ + undeliverable_suffix()),
{
    if is_deliverable(email) {
        Ok(())
    } else {
        Err(user_error(slug, undeliverable_suffix_chars(), ErrorType::BadRequest))
    }
}

/// Only regular accounts that are not deleted sign in with a password.
pub fn check_regular_user(slug: &str, regular: bool, deleted: bool) -> (out: Result<(), Error>)
    ensures
        out is Ok <==> regular && !deleted,
        out matches Err(e) ==> error_is(e, ErrorType::UserWrongType, user_prefix() + slug@ + wrong_type_suffix()),
{
    if regular && !deleted {
        Ok(())
    } else {
        Err(user_error(slug, wrong_type_suffix_chars(), ErrorType::UserWrongType))
    }
}

/// The error when links are to be emailed but no sender is configured.
pub fn mail_unconfigured() -> (out: Error)
    ensures
        error_is(out, ErrorType::EmailSend, mail_unconfigured_message()),
{
    Error::new(string_from_chars(&mail_unconfigured_message_chars()), ErrorType::EmailSend)
}

pub fn query_error() -> (out: Error)
    ensures
        error_is(out, ErrorType::DatabaseQuery, password_query_message()),
{
    Error::new(string_from_chars(&password_query_message_chars()), ErrorType::DatabaseQuery)
}

/// The address a reset is requested for, trimmed; it must not be empty.
pub fn reset_address(email: &str) -> (out: Result<String, Error>)
    ensures
        out is Ok <==> trim(email@).len() > 0,
        out matches Ok(a) ==> a@ == trim(email@),
        out matches Err(e) ==> error_is(e, ErrorType::BadRequest, reset_email_empty_message()),
{
    let a = chars_trim(&str_chars(email));
    if a.len() == 0 {
        return Err(Error::new(string_from_chars(&reset_email_empty_message_chars()), ErrorType::BadRequest));
    }
    Ok(string_from_chars(&a))
}

/// What answering a reset request does beyond its reply.
#[derive(Debug, Clone, Copy, PartialEq, Eq, Structural)]
pub enum ResetAction {
    /// Nothing is written or sent.
    Nothing,
    /// Issue a new link to this user and email it in the background,
    /// whatever comes of the email.
    IssueAndSend(i64),
}

/// The reply to a reset request, as an error's kind and message or none for
/// success: it depends on whether mail is configured (asked first, so an
/// unconfigured server fails for every address) and on the address given,
/// never on the account behind it.
pub open spec fn reset_reply(mail_configured: bool, email: Seq<char>) -> Option<(ErrorType, Seq<char>)> {
    if !mail_configured {
        Some((ErrorType::EmailSend, mail_unconfigured_message()))
    } else if trim(email).len() == 0 {
        Some((ErrorType::BadRequest, reset_email_empty_message()))
    } else {
        None
    }
}

/// What a reset request does: a link is issued only for a regular account
/// with the address that was not sent one within the cooldown.
pub open spec fn reset_action(mail_configured: bool, email: Seq<char>, account: Option<(i64, bool)>) -> ResetAction {
    if reset_reply(mail_configured, email) is None {
        match account {
            Some((user, true)) => ResetAction::IssueAndSend(user),
            _ => ResetAction::Nothing,
        }
    } else {
        ResetAction::Nothing
    }
}

/// A reset request's reply and action together.
pub open spec fn reset_outcome(mail_configured: bool, email: Seq<char>, account: Option<(i64, bool)>) -> (Option<(ErrorType, Seq<char>)>, ResetAction) {
    (reset_reply(mail_configured, email), reset_action(mail_configured, email, account))
}

/// A reset request, given whether a sender is configured, the address
/// given, and the account found for the trimmed address: its user and
/// whether a link may be sent now (`reset_allowed`); `None` when no regular
/// account has it. The reply is the same whatever the account.
pub fn reset_decision(mail_configured: bool, email: &str, account: Option<(i64, bool)>) -> (out: (Result<(), Error>, ResetAction))
    ensures
        match reset_outcome(mail_configured, email@, account).0 {
            None => out.0 is Ok,
            Some((kind, message)) => out.0 matches Err(e) && error_is(e, kind, message),
        },
        out.1 == reset_outcome(mail_configured, email@, account).1,
{
    if !mail_configured {
        return (Err(mail_unconfigured()), ResetAction::Nothing);
    }
    match reset_address(email) {
        Err(e) => (Err(e), ResetAction::Nothing),
        Ok(_) => match account {
            Some((user, true)) => (Ok(()), ResetAction::IssueAndSend(user)),
            _ => (Ok(()), ResetAction::Nothing),
        },
    }
}

/// A reset request is answered the same whether or not the address belongs
/// to an account, and whether or not that account was sent a link lately:
/// only what is done differs.
pub proof fn lemma_reset_reply_hides_accounts(mail_configured: bool, email: Seq<char>, a: Option<(i64, bool)>, b: Option<(i64, bool)>)
    ensures
        reset_outcome(mail_configured, email, a).0 == reset_outcome(mail_configured, email, b).0,
        reset_outcome(mail_configured, email, a).0 is Some ==> reset_outcome(mail_configured, email, a).1 == ResetAction::Nothing,
{
}

/// A new password must not be empty.
pub fn check_new_password(password: &str) -> (out: Result<(), Error>)
    ensures
        out is Ok <==> password@.len() > 0,
        out matches Err(e) ==> error_is(e, ErrorType::EmptyPassword, empty_password_message()),
{
    if str_chars(password).len() == 0 {
        return Err(Error::new(string_from_chars(&empty_password_message_chars()), ErrorType::EmptyPassword));
    }
    Ok(())
}

/// What a stored link records.
#[derive(Debug, Clone, Copy, PartialEq, Eq, Structural)]
pub struct StoredLink {
    pub used: bool,
    pub expires_at: i128,
    pub emailed: bool,
}

/// Whether the link found for a token, if any, may be redeemed at `now`:
/// unknown, used and expired links fail with distinct errors that name no
/// user.
pub fn check_redeemable(link: Option<StoredLink>, now: i128) -> (out: Result<(), Error>)
    ensures
        link is None ==> (out matches Err(e) && error_is(e, ErrorType::PasswordTokenInvalid, unknown_link_message())),
        link matches Some(l) && l.used ==> (out matches Err(e) && error_is(e, ErrorType::PasswordTokenUsed, used_link_message())),
        link matches Some(l) && !l.used && l.expires_at <= now ==> (out matches Err(e) && error_is(e, ErrorType::PasswordTokenExpired, expired_link_message())),
        link matches Some(l) && !l.used && l.expires_at > now ==> out is Ok,
{
    match link {
        None => Err(Error::new(string_from_chars(&unknown_link_message_chars()), ErrorType::PasswordTokenInvalid)),
        Some(l) => if l.used {
            Err(used_link())
        } else if l.expires_at <= now {
            Err(Error::new(string_from_chars(&expired_link_message_chars()), ErrorType::PasswordTokenExpired))
        } else {
            Ok(())
        },
    }
}

/// The error when a link was used, also by a concurrent redemption.
pub fn used_link() -> (out: Error)
    ensures
        error_is(out, ErrorType::PasswordTokenUsed, used_link_message()),
{
    Error::new(string_from_chars(&used_link_message_chars()), ErrorType::PasswordTokenUsed)
}

/// When a link issued at `created_at` for `lifetime_secs` stops working.
pub fn expires_at(created_at: i128, lifetime_secs: i128) -> (out: i128)
    requires
        0 <= lifetime_secs <= RESET_LIFETIME_SECS || lifetime_secs == INVITE_LIFETIME_SECS,
        MIN_DATED_NANOS <= created_at <= MAX_DATED_NANOS,
    ensures
        out == created_at + lifetime_secs * NANOS_PER_SECOND,
{
    created_at + lifetime_secs * NANOS_PER_SECOND
}

/// Whether a reset may send a link: none was issued since the cooldown
/// before `now` began.
pub open spec fn reset_allowed_spec(issued: Seq<i128>, now: i128) -> bool {
    forall|i: int| 0 <= i < issued.len() ==> issued[i] <= now - RESET_COOLDOWN_SECS * NANOS_PER_SECOND
}

pub fn reset_allowed(issued: &[i128], now: i128) -> (out: bool)
    requires
        MIN_DATED_NANOS <= now <= MAX_DATED_NANOS,
    ensures
        out == reset_allowed_spec(issued@, now),
{
    let since = now - RESET_COOLDOWN_SECS * NANOS_PER_SECOND;
    let mut i: usize = 0;
    while i < issued.len()
        invariant
            i <= issued@.len(),
            since == now - RESET_COOLDOWN_SECS * NANOS_PER_SECOND,
            forall|j: int| 0 <= j < i ==> issued@[j] <= since,
        decreases issued@.len() - i,
    {
        if issued[i] > since {
            return false;
        }
        i = i + 1;
    }
    true
}

// ---------------------------------------------------------------- status

/// A link that still works.
#[derive(Debug, Clone, Copy, PartialEq, Eq, Structural)]
pub struct PendingPasswordLink {
    pub expires_at: i128,
    pub emailed: bool,
}

#[derive(Debug, Clone, Copy, PartialEq, Eq, Structural)]
pub struct PasswordLinkStatus {
    /// Whether the user ever redeemed a link, that is chose their own password.
    pub password_chosen: bool,
    pub pending: Option<PendingPasswordLink>,
}

/// The first link from `i` on that is unused and unexpired at `now`.
pub open spec fn first_pending(links: Seq<StoredLink>, now: i128, i: int) -> Option<PendingPasswordLink>
    decreases links.len() - i,
{
    if i < 0 || i >= links.len() {
        None
    } else if !links[i].used && links[i].expires_at > now {
        Some(PendingPasswordLink { expires_at: links[i].expires_at, emailed: links[i].emailed })
    } else {
        first_pending(links, now, i + 1)
    }
}

/// Whether a user chose a password, and the link of theirs that still works.
pub fn link_status(links: &[StoredLink], now: i128) -> (out: PasswordLinkStatus)
    ensures
        out.password_chosen <==> exists|i: int| 0 <= i < links@.len() && (#[trigger] links@[i]).used,
        out.pending == first_pending(links@, now, 0),
{
    let mut chosen = false;
    let mut pending: Option<PendingPasswordLink> = None;
    let mut i: usize = 0;
    while i < links.len()
        invariant
            i <= links@.len(),
            chosen <==> exists|j: int| 0 <= j < i && (#[trigger] links@[j]).used,
            pending is None ==> first_pending(links@, now, i as int) == first_pending(links@, now, 0),
            pending is Some ==> pending == first_pending(links@, now, 0),
        decreases links@.len() - i,
    {
        let l = links[i];
        if l.used {
            chosen = true;
        }
        if pending.is_none() && !l.used && l.expires_at > now {
            pending = Some(PendingPasswordLink { expires_at: l.expires_at, emailed: l.emailed });
        }
        i = i + 1;
    }
    PasswordLinkStatus { password_chosen: chosen, pending }
}

} // verus!
