//! The push messages.

use vstd::prelude::*;
use vstd::string::*;

verus! {

/// The address that push messages are posted to.
pub open spec fn messages_endpoint() -> Seq<char> {
    "https://api.pushover.net/1/messages.json"@
}

/// A push message as it is posted: the application's token, the user's key
/// and the text.
#[derive(Debug)]
pub struct PushRequest {
    pub token: String,
    pub user: String,
    pub message: String,
}

/// The request that sends `message` to the user with key `user_code`.
pub fn send_message(token: &str, user_code: &str, message: &str) -> (request: PushRequest)
    ensures
        request.token@ == token@,
        request.user@ == user_code@,
        request.message@ == message@,
{
    PushRequest {
        token: String::from_str(token),
        user: String::from_str(user_code),
        message: String::from_str(message),
    }
}

/// The text that carries a verification code to a user.
pub open spec fn verification_text(code: Seq<char>) -> Seq<char> {
    "Thank you for using cereal. Please use the following code to validate your pushover token: "@
        + code
}

/// The request that sends the verification code `code` to the user with key
/// `user_code`.
pub fn send_verification_token(token: &str, user_code: &str, code: &str) -> (request: PushRequest)
    ensures
        request.token@ == token@,
        request.user@ == user_code@,
        request.message@ == verification_text(code@),
{
    let mut message = String::from_str(
        "Thank you for using cereal. Please use the following code to validate your pushover token: ",
    );
    message.append(code);
    send_message(token, user_code, message.as_str())
}

/// Why a push message was not delivered.
#[derive(Clone, Copy, Debug, PartialEq, Eq, Structural)]
pub enum PushError {
    /// The service answered, but not with one of the 2xx; the status is kept.
    NotificationServiceFailure(u16),
    /// The service could not be reached.
    RequestFailure,
}

/// What the answer of the service means: any status but the 2xx is a
/// failure of the service.
pub fn check_status(status: u16) -> (checked: Result<(), PushError>)
    ensures
        checked == if 200 <= status <= 299 {
            Ok::<(), PushError>(())
        } else {
            Err::<(), PushError>(PushError::NotificationServiceFailure(status))
        },
{
    if 200 <= status && status <= 299 {
        Ok(())
    } else {
        Err(PushError::NotificationServiceFailure(status))
    }
}

/// The address that push messages are posted to.
pub fn endpoint() -> (url: String)
    ensures
        url@ == messages_endpoint(),
{
    String::from_str("https://api.pushover.net/1/messages.json")
}

} // verus!
