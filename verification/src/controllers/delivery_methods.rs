//! Registering and verifying the channels a user is reached by. A channel is
//! registered with a code that is sent over it; it is enabled once the user
//! gives the code back in time.

use crate::models::{opt_view, DeliveryMethod, Timestamp};
use crate::storage::{is_alphanumeric, random_alphanumeric};
use crate::text::{chars_of, same_text, string_of};
use vstd::prelude::*;
use vstd::string::*;

verus! {

/// The microseconds for which a code sent to an e-reader is good: an hour.
pub const KINDLE_CODE_LIFETIME: i64 = 3_600_000_000;

/// The microseconds for which a code sent as a push message is good: five
/// minutes.
pub const PUSHOVER_CODE_LIFETIME: i64 = 300_000_000;

/// The length of a verification code.
pub const CODE_LENGTH: usize = 10;

#[derive(Debug)]
pub struct ValidateKindleEmailRequest {
    pub user_id: String,
    pub verification_code: String,
}

#[derive(Debug)]
pub struct AddKindleEmailRequest {
    pub user_id: String,
    pub kindle_email: String,
}

#[derive(Debug)]
pub struct GetDeliveryMethodsRequest {
    pub user_id: String,
}

#[derive(Debug)]
pub struct GetDeliveryMethodsResponse {
    pub kindle_email: Option<String>,
    pub pushover_key: Option<String>,
}

#[derive(Debug)]
pub struct ValidatePushoverRequest {
    pub user_id: String,
    pub verification_code: String,
}

#[derive(Debug)]
pub struct AddPushoverRequest {
    pub user_id: String,
    pub pushover_key: String,
}

/// What is written to a user's row about the e-reader channel.
#[derive(Debug)]
pub struct KindleEmailChangeset {
    pub user_id: String,
    pub kindle_email: String,
    pub kindle_email_verified: bool,
    pub kindle_email_enabled: bool,
    pub kindle_email_verification_code_time: Option<Timestamp>,
    pub kindle_email_verification_code: Option<String>,
}

/// What is written to a user's row about the push channel.
#[derive(Debug)]
pub struct PushoverChangeset {
    pub user_id: String,
    pub pushover_key: String,
    pub pushover_key_verified: bool,
    pub pushover_enabled: bool,
    pub pushover_verification_code_time: Option<Timestamp>,
    pub pushover_verification_code: Option<String>,
}

/// Why a request about a channel is refused.
#[derive(Debug)]
pub enum MethodError {
    /// The address is no email address.
    EmailParseError,
    /// The address is not one of an e-reader.
    NotKindleEmailError,
    /// The user's row holds no address to verify.
    NoKindleEmailError,
    /// The user's row holds no key to verify.
    NoPushoverKeyError,
    /// The code is wrong or too old, or none was sent; the text says which.
    Validation(String),
}

/// The channels of a user that are verified and enabled.
pub fn get_delivery_methods(delivery_method: &DeliveryMethod) -> (response:
    GetDeliveryMethodsResponse)
    ensures
        response.kindle_email == delivery_method.email_target(),
        response.pushover_key == delivery_method.push_target(),
{
    let kindle_email = match delivery_method.get_kindle_email() {
        Some(address) => Some(address.clone()),
        None => None,
    };
    let pushover_key = match delivery_method.get_pushover_key() {
        Some(key) => Some(key.clone()),
        None => None,
    };
    GetDeliveryMethodsResponse { kindle_email, pushover_key }
}

/// A code that was sent at `sent` is still good at `now`.
pub open spec fn in_time(sent: Timestamp, now: Timestamp, lifetime: i64) -> bool {
    now - sent < lifetime
}

/// Whether a code that was sent at `sent` is still good at `now`.
pub fn is_in_time(sent: Timestamp, now: Timestamp, lifetime: i64) -> (good: bool)
    ensures
        good == in_time(sent, now, lifetime),
{
    (now as i128) - (sent as i128) < lifetime as i128
}

/// Why the verification of a code fails, if it does.
#[derive(Clone, Copy, Debug, PartialEq, Eq, Structural)]
pub enum Refusal {
    /// No code is waiting to be given back.
    NothingInProgress,
    /// The code is not the one that was sent, or it is too old.
    WrongCode,
    /// The row holds nothing to verify.
    NothingToVerify,
}

/// How the verification of `given` ends against the code and the time that a
/// row holds.
pub open spec fn verdict(
    code: Option<Seq<char>>,
    sent: Option<Timestamp>,
    target: Option<Seq<char>>,
    given: Seq<char>,
    now: Timestamp,
    lifetime: i64,
) -> Result<Seq<char>, Refusal> {
    match (code, sent) {
        (Some(code), Some(sent)) => if given == code && in_time(sent, now, lifetime) {
            match target {
                Some(target) => Ok(target),
                None => Err(Refusal::NothingToVerify),
            }
        } else {
            Err(Refusal::WrongCode)
        },
        _ => Err(Refusal::NothingInProgress),
    }
}

/// The verification of the e-reader address agrees with the verdict.
pub open spec fn kindle_agrees(
    made: Result<KindleEmailChangeset, MethodError>,
    expected: Result<Seq<char>, Refusal>,
    user_id: Seq<char>,
) -> bool {
    match (made, expected) {
        (Ok(changes), Ok(address)) => {
            &&& changes.user_id@ == user_id
            &&& changes.kindle_email@ == address
            &&& changes.kindle_email_verified
            &&& changes.kindle_email_enabled
            &&& changes.kindle_email_verification_code_time is None
            &&& changes.kindle_email_verification_code is None
        },
        (Err(MethodError::Validation(text)), Err(Refusal::NothingInProgress)) => text@
            == "User has no in-progress email validations."@,
        (Err(MethodError::Validation(text)), Err(Refusal::WrongCode)) => text@
            == "User provided the incorrect validation code."@,
        (Err(MethodError::NoKindleEmailError), Err(Refusal::NothingToVerify)) => true,
        _ => false,
    }
}

/// Verifies the code a user gives back for an e-reader address. Where the code
/// is the one that was sent, less than an hour ago, the address becomes
/// verified and enabled and the code is cleared, so that it cannot be used
/// again.
pub fn validate_kindle_email(
    request: &ValidateKindleEmailRequest,
    delivery_method: &DeliveryMethod,
    now: Timestamp,
) -> (made: Result<KindleEmailChangeset, MethodError>)
    ensures
        kindle_agrees(
            made,
            verdict(
                opt_view(delivery_method.kindle_email_verification_code),
                delivery_method.kindle_email_verification_code_time,
                opt_view(delivery_method.kindle_email),
                request.verification_code@,
                now,
                KINDLE_CODE_LIFETIME,
            ),
            request.user_id@,
        ),
{
    match (
        &delivery_method.kindle_email_verification_code,
        delivery_method.kindle_email_verification_code_time,
    ) {
        (Some(code), Some(sent)) => {
            if request.verification_code == *code && is_in_time(sent, now, KINDLE_CODE_LIFETIME) {
                match &delivery_method.kindle_email {
                    Some(address) => Ok(
                        KindleEmailChangeset {
                            user_id: request.user_id.clone(),
                            kindle_email: address.clone(),
                            kindle_email_enabled: true,
                            kindle_email_verified: true,
                            kindle_email_verification_code_time: None,
                            kindle_email_verification_code: None,
                        },
                    ),
                    None => Err(MethodError::NoKindleEmailError),
                }
            } else {
                Err(
                    MethodError::Validation(
                        String::from_str("User provided the incorrect validation code."),
                    ),
                )
            }
        },
        _ => Err(
            MethodError::Validation(String::from_str("User has no in-progress email validations.")),
        ),
    }
}

/// The verification of the push key agrees with the verdict.
pub open spec fn pushover_agrees(
    made: Result<PushoverChangeset, MethodError>,
    expected: Result<Seq<char>, Refusal>,
    user_id: Seq<char>,
) -> bool {
    match (made, expected) {
        (Ok(changes), Ok(key)) => {
            &&& changes.user_id@ == user_id
            &&& changes.pushover_key@ == key
            &&& changes.pushover_key_verified
            &&& changes.pushover_enabled
            &&& changes.pushover_verification_code_time is None
            &&& changes.pushover_verification_code is None
        },
        (Err(MethodError::Validation(text)), Err(Refusal::NothingInProgress)) => text@
            == "User has no in-progress pushover validations."@,
        (Err(MethodError::Validation(text)), Err(Refusal::WrongCode)) => text@
            == "User provided the incorrect validation code."@,
        (Err(MethodError::NoPushoverKeyError), Err(Refusal::NothingToVerify)) => true,
        _ => false,
    }
}

/// Verifies the code a user gives back for a push key. Where the code is the
/// one that was sent, less than five minutes ago, the key becomes verified
/// and enabled and the code is cleared, so that it cannot be used again.
pub fn validate_pushover_key(
    request: &ValidatePushoverRequest,
    delivery_method: &DeliveryMethod,
    now: Timestamp,
) -> (made: Result<PushoverChangeset, MethodError>)
    ensures
        pushover_agrees(
            made,
            verdict(
                opt_view(delivery_method.pushover_verification_code),
                delivery_method.pushover_verification_code_time,
                opt_view(delivery_method.pushover_key),
                request.verification_code@,
                now,
                PUSHOVER_CODE_LIFETIME,
            ),
            request.user_id@,
        ),
{
    match (
        &delivery_method.pushover_verification_code,
        delivery_method.pushover_verification_code_time,
    ) {
        (Some(code), Some(sent)) => {
            if request.verification_code == *code && is_in_time(sent, now, PUSHOVER_CODE_LIFETIME) {
                match &delivery_method.pushover_key {
                    Some(key) => Ok(
                        PushoverChangeset {
                            user_id: request.user_id.clone(),
                            pushover_key: key.clone(),
                            pushover_enabled: true,
                            pushover_key_verified: true,
                            pushover_verification_code_time: None,
                            pushover_verification_code: None,
                        },
                    ),
                    None => Err(MethodError::NoPushoverKeyError),
                }
            } else {
                Err(
                    MethodError::Validation(
                        String::from_str("User provided the incorrect validation code."),
                    ),
                )
            }
        },
        _ => Err(
            MethodError::Validation(
                String::from_str("User has no in-progress pushover validations."),
            ),
        ),
    }
}

/// A digit or a capital letter.
pub open spec fn is_code_char(c: char) -> bool {
    ('0' <= c && c <= '9') || ('A' <= c && c <= 'Z')
}

/// The capital of an ASCII letter; any other character as it is.
pub open spec fn capital(c: char) -> char {
    if 'a' <= c && c <= 'z' {
        ((c as u8) - 32) as char
    } else {
        c
    }
}

/// `text` with its ASCII letters made capital.
pub fn capitals(text: &str) -> (out: String)
    ensures
        out@.len() == text@.len(),
        forall|i: int| 0 <= i < text@.len() ==> out@[i] == capital(text@[i]),
{
    let chars = chars_of(text);
    let mut out: Vec<char> = Vec::new();
    let mut i: usize = 0;
    while i < chars.len()
        invariant
            i <= chars.len(),
            out@.len() == i,
            forall|k: int| 0 <= k < i ==> out@[k] == capital(chars@[k]),
        decreases chars.len() - i,
    {
        let c = chars[i];
        if 'a' <= c && c <= 'z' {
            out.push(((c as u8) - 32) as char);
        } else {
            out.push(c);
        }
        i = i + 1;
    }
    string_of(&out)
}

/// A fresh verification code: ten random digits and capital letters.
pub fn new_code() -> (code: String)
    ensures
        code@.len() == CODE_LENGTH,
        forall|i: int| 0 <= i < code@.len() ==> is_code_char(#[trigger] code@[i]),
{
    let raw = random_alphanumeric(CODE_LENGTH);
    let code = capitals(raw.as_str());
    assert forall|i: int| 0 <= i < code@.len() implies is_code_char(#[trigger] code@[i]) by {
        assert(is_alphanumeric(raw@[i]));
    }
    code
}

/// The host of an email address.
#[derive(Debug)]
pub enum EmailHost {
    /// A domain name.
    Domain(String),
    /// An IP address in brackets.
    IpAddr,
}

/// The mathematical value of an `EmailHost`.
pub enum EmailHostView {
    Domain(Seq<char>),
    IpAddr,
}

impl View for EmailHost {
    type V = EmailHostView;

    open spec fn view(&self) -> EmailHostView {
        match *self {
            EmailHost::Domain(name) => EmailHostView::Domain(name@),
            EmailHost::IpAddr => EmailHostView::IpAddr,
        }
    }
}

/// The host of an email address, or `None` where the text is no email
/// address.
pub uninterp spec fn email_host(address: Seq<char>) -> Option<EmailHostView>;

/// Reads an email address. Trusted: `addr::parse_email_address`, with
/// `Address::host` and, for a domain, `Name::as_str` read off the result. The
/// outcome depends on the text alone.
#[verifier::external_body]
pub(crate) fn host_of_email(address: &str) -> (host: Option<EmailHost>)
    ensures
        match host {
            Some(found) => email_host(address@) == Some(found@),
            None => email_host(address@) is None,
        },
{
    match addr::parse_email_address(address) {
        Ok(parsed) => match parsed.host() {
            addr::email::Host::Domain(name) => Some(EmailHost::Domain(name.as_str().to_string())),
            addr::email::Host::IpAddr(_) => Some(EmailHost::IpAddr),
        },
        Err(_) => None,
    }
}

/// Whether an address may be registered: its host has to be `kindle.com`.
pub open spec fn admission(host: Option<EmailHostView>) -> Result<(), Refused> {
    match host {
        None => Err(Refused::NoAddress),
        Some(EmailHostView::Domain(name)) => if name == "kindle.com"@ {
            Ok(())
        } else {
            Err(Refused::NotKindle)
        },
        Some(EmailHostView::IpAddr) => Err(Refused::NotKindle),
    }
}

/// Why an address may not be registered.
#[derive(Clone, Copy, Debug, PartialEq, Eq, Structural)]
pub enum Refused {
    NoAddress,
    NotKindle,
}

/// A registration of the library agrees with the admission of the address.
pub open spec fn registration_agrees(
    made: Result<KindleEmailChangeset, MethodError>,
    expected: Result<(), Refused>,
    request: AddKindleEmailRequest,
    code: Seq<char>,
    now: Timestamp,
) -> bool {
    match (made, expected) {
        (Ok(changes), Ok(_)) => {
            &&& changes.user_id@ == request.user_id@
            &&& changes.kindle_email@ == request.kindle_email@
            &&& !changes.kindle_email_verified
            &&& !changes.kindle_email_enabled
            &&& changes.kindle_email_verification_code_time == Some(now)
            &&& opt_view(changes.kindle_email_verification_code) == Some(code)
        },
        (Err(MethodError::EmailParseError), Err(Refused::NoAddress)) => true,
        (Err(MethodError::NotKindleEmailError), Err(Refused::NotKindle)) => true,
        _ => false,
    }
}

/// Registers an e-reader address whose host is `host`, with the code that is
/// going to be sent to it. Only addresses at `kindle.com` are taken. The
/// address is neither verified nor enabled until the code comes back.
pub fn kindle_registration(
    request: &AddKindleEmailRequest,
    host: Option<EmailHost>,
    code: &str,
    now: Timestamp,
) -> (made: Result<KindleEmailChangeset, MethodError>)
    ensures
        registration_agrees(
            made,
            admission(
                match host {
                    Some(found) => Some(found@),
                    None => None,
                },
            ),
            *request,
            code@,
            now,
        ),
{
    match host {
        None => Err(MethodError::EmailParseError),
        Some(EmailHost::IpAddr) => Err(MethodError::NotKindleEmailError),
        Some(EmailHost::Domain(name)) => {
            if same_text(name.as_str(), "kindle.com") {
                Ok(
                    KindleEmailChangeset {
                        user_id: request.user_id.clone(),
                        kindle_email: request.kindle_email.clone(),
                        kindle_email_enabled: false,
                        kindle_email_verified: false,
                        kindle_email_verification_code_time: Some(now),
                        kindle_email_verification_code: Some(String::from_str(code)),
                    },
                )
            } else {
                Err(MethodError::NotKindleEmailError)
            }
        },
    }
}

/// Registers the e-reader address of `request` with a fresh code. The code is
/// what `changes.kindle_email_verification_code` holds; it is to be sent to
/// the address in a book.
pub fn register_kindle_email(request: &AddKindleEmailRequest, now: Timestamp) -> (made: Result<
    KindleEmailChangeset,
    MethodError,
>)
    ensures
        match made {
            Ok(changes) => {
                &&& admission(email_host(request.kindle_email@)) is Ok
                &&& changes.kindle_email_verification_code matches Some(code)
                &&& registration_agrees(made, Ok(()), *request, code@, now)
                &&& code@.len() == CODE_LENGTH
                &&& forall|i: int| 0 <= i < code@.len() ==> is_code_char(#[trigger] code@[i])
            },
            Err(MethodError::EmailParseError) => admission(email_host(request.kindle_email@))
                == Err::<(), Refused>(Refused::NoAddress),
            Err(MethodError::NotKindleEmailError) => admission(email_host(request.kindle_email@))
                == Err::<(), Refused>(Refused::NotKindle),
            Err(_) => false,
        },
{
    let host = host_of_email(request.kindle_email.as_str());
    let code = new_code();
    kindle_registration(request, host, code.as_str(), now)
}

/// Registers the push key of `request` with the code that is going to be sent
/// to it. The key is neither verified nor enabled until the code comes back.
pub fn pushover_registration(request: &AddPushoverRequest, code: &str, now: Timestamp) -> (changes:
    PushoverChangeset)
    ensures
        changes.user_id@ == request.user_id@,
        changes.pushover_key@ == request.pushover_key@,
        !changes.pushover_key_verified,
        !changes.pushover_enabled,
        changes.pushover_verification_code_time == Some(now),
        opt_view(changes.pushover_verification_code) == Some(code@),
{
    PushoverChangeset {
        user_id: request.user_id.clone(),
        pushover_key: request.pushover_key.clone(),
        pushover_enabled: false,
        pushover_key_verified: false,
        pushover_verification_code_time: Some(now),
        pushover_verification_code: Some(String::from_str(code)),
    }
}

/// Registers the push key of `request` with a fresh code.
pub fn register_pushover_key(request: &AddPushoverRequest, now: Timestamp) -> (changes:
    PushoverChangeset)
    ensures
        changes.user_id@ == request.user_id@,
        changes.pushover_key@ == request.pushover_key@,
        !changes.pushover_key_verified,
        !changes.pushover_enabled,
        changes.pushover_verification_code_time == Some(now),
        ({
            &&& changes.pushover_verification_code matches Some(code)
            &&& code@.len() == CODE_LENGTH
            &&& forall|i: int| 0 <= i < code@.len() ==> is_code_char(#[trigger] code@[i])
        }),
{
    let code = new_code();
    pushover_registration(request, code.as_str(), now)
}

} // verus!
