use crate::cache::UserState;
use rand::Rng;
use regex::Regex;
use vstd::prelude::*;

verus! {

/// The fewest bytes a password may have.
pub const PASSWORD_MIN_LEN: usize = 8;

/// The instant, in milliseconds since the Unix epoch, from which user ids
/// count time.
pub const UID_EPOCH_MS: u64 = 1704037200000;

/// A user record as the account store keeps it.
#[derive(Clone, Debug)]
pub struct User {
    pub uid: i64,
    pub email: String,
    pub email_verified: bool,
    pub username: String,
    pub password_hash: String,
}

impl User {
    /// The part of the record that authorization reads, as the cache holds it.
    pub fn state(&self) -> (r: UserState)
        ensures
            r == (UserState { uid: self.uid, email_verified: self.email_verified }),
    {
        UserState { uid: self.uid, email_verified: self.email_verified }
    }
}

/// A session token as handed to a client.
#[derive(Clone, Debug)]
pub struct Token {
    pub token: String,
}

/// Whether the cloud themes of a user are switched on.
#[derive(Clone, Copy, Debug, PartialEq, Eq, Structural)]
pub struct CloudThemesStatus {
    pub enabled: bool,
}

/// How a login names its account.
#[derive(Clone, Debug)]
pub enum UsernameOrEmail {
    Email(String),
    Username(String),
}

/// Whether `s` holds a decimal digit, as the regular expression `\d` finds
/// one (any Unicode decimal digit).
pub uninterp spec fn has_unicode_digit(s: Seq<char>) -> bool;

/// Whether `c` has the Unicode `White_Space` property, which `\s` matches.
pub open spec fn is_white_space(c: char) -> bool {
    ('\t' <= c <= '\r') || c == ' ' || c == '\u{85}' || c == '\u{a0}' || c == '\u{1680}' || (
    '\u{2000}' <= c <= '\u{200a}') || c == '\u{2028}' || c == '\u{2029}' || c == '\u{202f}' || c
        == '\u{205f}' || c == '\u{3000}'
}

/// Whether `s` has the shape of an email address, as the regular expression
/// `^[^\s@]+@[^\s@]+\.[^\s@]+$` decides: no white space, exactly one `@`
/// with text before it, and after it a `.` with text on both sides.
pub open spec fn email_shaped(s: Seq<char>) -> bool {
    &&& forall|i: int| 0 <= i < s.len() ==> !is_white_space(#[trigger] s[i])
    &&& exists|a: int, d: int|
        #![trigger s[a], s[d]]
        0 < a && a + 1 < d && d + 1 < s.len() && s[a] == '@' && s[d] == '.' && forall|i: int|
            0 <= i < s.len() && i != a ==> #[trigger] s[i] != '@'
}

/// Whether `s` holds a character of the inclusive range `lo..=hi`.
pub open spec fn has_char_in(s: Seq<char>, lo: char, hi: char) -> bool {
    exists|i: int| 0 <= i < s.len() && lo <= #[trigger] s[i] <= hi
}

/// The characters a password must draw one of.
pub open spec fn is_special(c: char) -> bool {
    c == '!' || c == '@' || c == '#' || c == '$' || c == '%' || c == '^' || c == '&' || c == '*'
        || c == '(' || c == ')' || c == '-' || c == '=' || c == '+' || c == '?'
}

pub open spec fn has_special(s: Seq<char>) -> bool {
    exists|i: int| 0 <= i < s.len() && is_special(#[trigger] s[i])
}

/// Relies on `regex::Regex::is_match` with the pattern `\d`, which is valid.
#[verifier::external_body]
fn regex_has_digit(s: &str) -> (r: bool)
    ensures
        r == has_unicode_digit(s@),
{
    Regex::new(r"\d").unwrap().is_match(s)
}

/// Relies on `regex::Regex::is_match` with the class `[A-Z]`: some character
/// lies in the ASCII range.
#[verifier::external_body]
fn regex_has_upper(s: &str) -> (r: bool)
    ensures
        r == has_char_in(s@, 'A', 'Z'),
{
    Regex::new(r"[A-Z]").unwrap().is_match(s)
}

/// Relies on `regex::Regex::is_match` with the class `[a-z]`.
#[verifier::external_body]
fn regex_has_lower(s: &str) -> (r: bool)
    ensures
        r == has_char_in(s@, 'a', 'z'),
{
    Regex::new(r"[a-z]").unwrap().is_match(s)
}

/// Relies on `regex::Regex::is_match` with the class `[!@#$%^&*()\-=+?]`.
#[verifier::external_body]
fn regex_has_special(s: &str) -> (r: bool)
    ensures
        r == has_special(s@),
{
    Regex::new(r"[!@#$%^&*()\-=+?]").unwrap().is_match(s)
}

/// Relies on `regex::Regex::is_match` with the pattern
/// `^[^\s@]+@[^\s@]+\.[^\s@]+$`.
#[verifier::external_body]
fn regex_email_shaped(s: &str) -> (r: bool)
    ensures
        r == email_shaped(s@),
{
    Regex::new(r"^[^\s@]+@[^\s@]+\.[^\s@]+$").unwrap().is_match(s)
}

/// The first rule a password breaks.
#[derive(Clone, Copy, Debug, PartialEq, Eq, Structural)]
pub enum PasswordError {
    TooShort,
    MissingDigit,
    MissingUppercase,
    MissingLowercase,
    MissingSpecial,
}

/// The verdict on a password: the rules in order, the first broken one wins.
pub open spec fn password_verdict(p: &str) -> Result<(), PasswordError> {
    if p.len() < PASSWORD_MIN_LEN {
        Err(PasswordError::TooShort)
    } else if !has_unicode_digit(p@) {
        Err(PasswordError::MissingDigit)
    } else if !has_char_in(p@, 'A', 'Z') {
        Err(PasswordError::MissingUppercase)
    } else if !has_char_in(p@, 'a', 'z') {
        Err(PasswordError::MissingLowercase)
    } else if !has_special(p@) {
        Err(PasswordError::MissingSpecial)
    } else {
        Ok(())
    }
}

/// The first broken rule, from what was found in a password: its length in
/// bytes, and whether it holds a digit, an uppercase letter, a lowercase
/// letter and a special character.
pub open spec fn rules_verdict(
    byte_len: usize,
    digit: bool,
    upper: bool,
    lower: bool,
    special: bool,
) -> Result<(), PasswordError> {
    if byte_len < PASSWORD_MIN_LEN {
        Err(PasswordError::TooShort)
    } else if !digit {
        Err(PasswordError::MissingDigit)
    } else if !upper {
        Err(PasswordError::MissingUppercase)
    } else if !lower {
        Err(PasswordError::MissingLowercase)
    } else if !special {
        Err(PasswordError::MissingSpecial)
    } else {
        Ok(())
    }
}

/// Applies the password rules, in order, to what was found in a password.
pub fn password_rules(byte_len: usize, digit: bool, upper: bool, lower: bool, special: bool) -> (r:
    Result<(), PasswordError>)
    ensures
        r == rules_verdict(byte_len, digit, upper, lower, special),
{
    if byte_len < PASSWORD_MIN_LEN {
        Err(PasswordError::TooShort)
    } else if !digit {
        Err(PasswordError::MissingDigit)
    } else if !upper {
        Err(PasswordError::MissingUppercase)
    } else if !lower {
        Err(PasswordError::MissingLowercase)
    } else if !special {
        Err(PasswordError::MissingSpecial)
    } else {
        Ok(())
    }
}

/// Checks a new password: at least eight bytes, with a digit, an uppercase
/// and a lowercase letter, and a special character.
pub fn validate_password(password: &str) -> (r: Result<(), PasswordError>)
    ensures
        r == password_verdict(password),
{
    if password.len() < PASSWORD_MIN_LEN {
        return Err(PasswordError::TooShort);
    }
    password_rules(
        password.len(),
        regex_has_digit(password),
        regex_has_upper(password),
        regex_has_lower(password),
        regex_has_special(password),
    )
}

impl UsernameOrEmail {
    /// An input shaped like an email address names the account by email,
    /// anything else by username.
    pub fn parse(input: &str) -> (r: Self)
        ensures
            match r {
                UsernameOrEmail::Email(e) => email_shaped(input@) && e@ == input@,
                UsernameOrEmail::Username(u) => !email_shaped(input@) && u@ == input@,
            },
    {
        if regex_email_shaped(input) {
            UsernameOrEmail::Email(input.to_string())
        } else {
            UsernameOrEmail::Username(input.to_string())
        }
    }
}

/// An error of a request handler.
#[derive(Clone, Debug)]
pub enum ActixError {
    DatabaseError(String),
    JsonError(String),
    CodeGenError(String),
    TokenGenError(String),
}

impl ActixError {
    /// The HTTP status that reports this error.
    pub fn status_code(&self) -> (r: u16)
        ensures
            r == match self {
                ActixError::DatabaseError(_) => 500u16,
                ActixError::JsonError(_) => 400u16,
                ActixError::CodeGenError(_) => 409u16,
                ActixError::TokenGenError(_) => 500u16,
            },
    {
        match self {
            ActixError::DatabaseError(_) => 500,
            ActixError::JsonError(_) => 400,
            ActixError::CodeGenError(_) => 409,
            ActixError::TokenGenError(_) => 500,
        }
    }
}

/// The id made of a millisecond timestamp, a machine number and a sequence
/// number: 42 bits of time, then 10 of machine, then 12 of sequence.
pub open spec fn uid_of(elapsed_ms: u64, machine: u64, sequence: u64) -> int {
    (elapsed_ms % 0x40000000000) as int * 0x400000 + (machine % 0x400) as int * 0x1000 + (sequence
        % 0x1000) as int
}

/// The 64-bit id of the parts, read as a signed integer.
pub open spec fn signed_uid(elapsed_ms: u64, machine: u64, sequence: u64) -> int {
    if uid_of(elapsed_ms, machine, sequence) < 0x8000000000000000 {
        uid_of(elapsed_ms, machine, sequence)
    } else {
        uid_of(elapsed_ms, machine, sequence) - 0x10000000000000000
    }
}

/// Packs the parts of a user id into one 64-bit integer, read as signed.
pub fn compose_uid(elapsed_ms: u64, machine: u64, sequence: u64) -> (r: i64)
    ensures
        r as int == signed_uid(elapsed_ms, machine, sequence),
{
    let t = elapsed_ms & 0x3FFFFFFFFFF;
    let m = machine & 0x3FF;
    let s = sequence & 0xFFF;
    assert(t == elapsed_ms % 0x40000000000 && m == machine % 0x400 && s == sequence % 0x1000)
        by (bit_vector)
        requires
            t == elapsed_ms & 0x3FFFFFFFFFF,
            m == machine & 0x3FF,
            s == sequence & 0xFFF,
    ;
    assert(t * 0x400000 + m * 0x1000 + s < 0x10000000000000000) by (nonlinear_arith)
        requires
            t < 0x40000000000,
            m < 0x400,
            s < 0x1000,
    ;
    let uid = t * 0x400000 + m * 0x1000 + s;
    if uid < 0x8000000000000000 {
        uid as i64
    } else {
        ((uid - 0x8000000000000000) as i64) + i64::MIN
    }
}

/// Relies on `rand::Rng::gen_range` over the thread-local generator: a value
/// below `bound`, which is not zero.
#[verifier::external_body]
fn draw_below(bound: u64) -> (r: u64)
    requires
        bound > 0,
    ensures
        r < bound,
{
    rand::thread_rng().gen_range(0..bound)
}

/// A fresh user id for the instant `now_ms`, with a random machine and
/// sequence number.
pub fn generate_uid(now_ms: u64) -> (r: i64)
    requires
        now_ms >= UID_EPOCH_MS,
    ensures
        exists|machine: u64, sequence: u64|
            machine < 1024 && sequence < 4096 && r as int == #[trigger] signed_uid(
                (now_ms - UID_EPOCH_MS) as u64,
                machine,
                sequence,
            ),
        now_ms - UID_EPOCH_MS < 0x20000000000 ==> r >= 0 && r as int / 0x400000 == now_ms
            - UID_EPOCH_MS,
{
    let machine = draw_below(1024);
    let sequence = draw_below(4096);
    let elapsed = now_ms - UID_EPOCH_MS;
    let r = compose_uid(elapsed, machine, sequence);
    if elapsed < 0x20000000000 {
        assert(elapsed % 0x40000000000 == elapsed);
        assert(uid_of(elapsed, machine, sequence) / 0x400000 == elapsed
            && uid_of(elapsed, machine, sequence) < 0x8000000000000000) by (nonlinear_arith)
            requires
                uid_of(elapsed, machine, sequence) == elapsed * 0x400000 + (machine % 0x400)
                    * 0x1000 + (sequence % 0x1000),
                elapsed < 0x20000000000,
                0 <= machine % 0x400 < 0x400,
                0 <= sequence % 0x1000 < 0x1000,
        ;
    }
    r
}

} // verus!
