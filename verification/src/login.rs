//! Choosing the cipher at login: the caller's ceiling against what the
//! camera offers.

use vstd::prelude::*;
use vstd::string::StringExecFns;
use crate::connection::EncryptionMode;
use crate::errors::Error;

verus! {

/// The strongest cipher that the caller accepts.
#[derive(Clone, Copy, Debug, PartialEq, Eq, Structural)]
pub enum MaxEncryption {
    /// Plaintext only.
    Unencrypted,
    /// Up to the vendor's xor cipher.
    BcEncrypt,
    /// Up to AES.
    Aes,
}

/// The ciphers that a camera advertises in its login challenge.
#[derive(Clone, Copy, Debug, PartialEq, Eq, Structural)]
pub struct OfferedEncryption {
    pub unencrypted: bool,
    pub bcencrypt: bool,
    pub aes: bool,
}

/// Ciphers by strength: plaintext, then the xor cipher, then AES.
pub open spec fn strength(mode: EncryptionMode) -> nat {
    match mode {
        EncryptionMode::Unencrypted => 0,
        EncryptionMode::BcEncrypt => 1,
        EncryptionMode::Aes => 2,
    }
}

impl MaxEncryption {
    /// The strength of the strongest cipher accepted.
    pub open spec fn ceiling(self) -> nat {
        match self {
            MaxEncryption::Unencrypted => 0,
            MaxEncryption::BcEncrypt => 1,
            MaxEncryption::Aes => 2,
        }
    }
}

impl OfferedEncryption {
    /// Whether the camera advertises `mode`.
    pub open spec fn has(self, mode: EncryptionMode) -> bool {
        match mode {
            EncryptionMode::Unencrypted => self.unencrypted,
            EncryptionMode::BcEncrypt => self.bcencrypt,
            EncryptionMode::Aes => self.aes,
        }
    }
}

/// `mode` is advertised by the camera and within the caller's ceiling.
pub open spec fn acceptable(
    ceiling: MaxEncryption,
    offered: OfferedEncryption,
    mode: EncryptionMode,
) -> bool {
    offered.has(mode) && strength(mode) <= ceiling.ceiling()
}

/// `mode` is the strongest cipher that is acceptable.
pub open spec fn strongest_acceptable(
    ceiling: MaxEncryption,
    offered: OfferedEncryption,
    mode: EncryptionMode,
) -> bool {
    acceptable(ceiling, offered, mode) && forall|other: EncryptionMode|
        acceptable(ceiling, offered, other) ==> strength(other) <= strength(mode)
}

/// No cipher is both offered and within the ceiling.
pub open spec fn none_acceptable(ceiling: MaxEncryption, offered: OfferedEncryption) -> bool {
    forall|other: EncryptionMode| !acceptable(ceiling, offered, other)
}

/// Picks the strongest cipher that the camera offers and the ceiling admits.
/// Login fails exactly when there is none.
pub fn select_encryption(ceiling: MaxEncryption, offered: OfferedEncryption) -> (choice: Result<
    EncryptionMode,
    Error,
>)
    ensures
        match choice {
            Ok(mode) => strongest_acceptable(ceiling, offered, mode),
            Err(e) => e == Error::AuthFailed && none_acceptable(ceiling, offered),
        },
{
    let allow_aes = match ceiling {
        MaxEncryption::Aes => true,
        _ => false,
    };
    let allow_bc = match ceiling {
        MaxEncryption::Unencrypted => false,
        _ => true,
    };
    if allow_aes && offered.aes {
        Ok(EncryptionMode::Aes)
    } else if allow_bc && offered.bcencrypt {
        Ok(EncryptionMode::BcEncrypt)
    } else if offered.unencrypted {
        Ok(EncryptionMode::Unencrypted)
    } else {
        Err(Error::AuthFailed)
    }
}

/// When the chosen cipher is installed during the modern login.
#[derive(Clone, Copy, Debug, PartialEq, Eq, Structural)]
pub enum InstallPoint {
    /// Nothing to install: the session stays in plaintext.
    Never,
    /// Before the login is sent, which is then encrypted already.
    BeforeSending,
    /// After the reply was received, which is still under the old mode.
    AfterReply,
}

/// The moment at which each cipher takes effect.
pub open spec fn install_point_of(mode: EncryptionMode) -> InstallPoint {
    match mode {
        EncryptionMode::Unencrypted => InstallPoint::Never,
        EncryptionMode::BcEncrypt => InstallPoint::BeforeSending,
        EncryptionMode::Aes => InstallPoint::AfterReply,
    }
}

/// When to install the cipher that login has chosen.
pub fn install_point(mode: EncryptionMode) -> (point: InstallPoint)
    ensures
        point == install_point_of(mode),
{
    match mode {
        EncryptionMode::Unencrypted => InstallPoint::Never,
        EncryptionMode::BcEncrypt => InstallPoint::BeforeSending,
        EncryptionMode::Aes => InstallPoint::AfterReply,
    }
}

/// How far the login exchange has come.
#[derive(Clone, Copy, Debug, PartialEq, Eq, Structural)]
pub enum LoginState {
    /// Nothing was sent yet.
    Start,
    /// The legacy login was sent, in plaintext; its reply is awaited.
    AwaitingProbeReply,
    /// The modern login was sent for this cipher; its reply is awaited.
    AwaitingModernReply(EncryptionMode),
    /// Logged in, with this cipher in force.
    LoggedIn(EncryptionMode),
    /// Login has failed, for good.
    Failed,
}

/// What happened in the login exchange.
#[derive(Clone, Copy, Debug, PartialEq, Eq, Structural)]
pub enum LoginEvent {
    /// The caller asks to log in.
    Begin,
    /// The camera accepted the login last sent.
    Accepted,
    /// The camera answered the legacy login with a challenge that offers
    /// these ciphers.
    Challenged(OfferedEncryption),
    /// The camera rejected the login last sent.
    Rejected,
}

/// What to do next in the login exchange.
#[derive(Clone, Copy, Debug, PartialEq, Eq, Structural)]
pub enum LoginAction {
    /// Send the legacy login, unencrypted, its hashes with the last byte zeroed.
    SendLegacyLogin,
    /// Send the modern login, its hashes truncated. The cipher, if it is
    /// installed before sending, is installed first.
    SendModernLogin(EncryptionMode),
    /// Login is complete. The cipher, if it is installed after the reply, is
    /// installed now.
    Finish(EncryptionMode),
    /// Give up: the credentials or the ciphers were not accepted.
    FailAuth,
    /// Give up: the event has no place at this point of the exchange.
    FailProtocol,
}

/// The login exchange, step by step: a legacy login as a probe; on a
/// challenge the strongest acceptable cipher and a modern login under it; and
/// failure on a rejection, on a challenge without an acceptable cipher, and on
/// anything out of turn.
pub open spec fn login_step_ok(
    state: LoginState,
    event: LoginEvent,
    ceiling: MaxEncryption,
    next: LoginState,
    action: LoginAction,
) -> bool {
    match (state, event) {
        (LoginState::Start, LoginEvent::Begin) => next == LoginState::AwaitingProbeReply && action
            == LoginAction::SendLegacyLogin,
        (LoginState::AwaitingProbeReply, LoginEvent::Accepted) => next == LoginState::LoggedIn(
            EncryptionMode::Unencrypted,
        ) && action == LoginAction::Finish(EncryptionMode::Unencrypted),
        (LoginState::AwaitingProbeReply, LoginEvent::Challenged(offered)) => match next {
            LoginState::AwaitingModernReply(mode) => strongest_acceptable(ceiling, offered, mode)
                && action == LoginAction::SendModernLogin(mode),
            LoginState::Failed => none_acceptable(ceiling, offered) && action
                == LoginAction::FailAuth,
            _ => false,
        },
        (LoginState::AwaitingModernReply(mode), LoginEvent::Accepted) => next
            == LoginState::LoggedIn(mode) && action == LoginAction::Finish(mode),
        (LoginState::AwaitingProbeReply, LoginEvent::Rejected) => next == LoginState::Failed
            && action == LoginAction::FailAuth,
        (LoginState::AwaitingModernReply(_), LoginEvent::Rejected) => next == LoginState::Failed
            && action == LoginAction::FailAuth,
        _ => next == LoginState::Failed && action == LoginAction::FailProtocol,
    }
}

/// Advances the login exchange by one event.
pub fn login_step(state: LoginState, event: LoginEvent, ceiling: MaxEncryption) -> (step: (
    LoginState,
    LoginAction,
))
    ensures
        login_step_ok(state, event, ceiling, step.0, step.1),
{
    match (state, event) {
        (LoginState::Start, LoginEvent::Begin) => (
            LoginState::AwaitingProbeReply,
            LoginAction::SendLegacyLogin,
        ),
        (LoginState::AwaitingProbeReply, LoginEvent::Accepted) => (
            LoginState::LoggedIn(EncryptionMode::Unencrypted),
            LoginAction::Finish(EncryptionMode::Unencrypted),
        ),
        (LoginState::AwaitingProbeReply, LoginEvent::Challenged(offered)) => {
            match select_encryption(ceiling, offered) {
                Ok(mode) => (
                    LoginState::AwaitingModernReply(mode),
                    LoginAction::SendModernLogin(mode),
                ),
                Err(_) => (LoginState::Failed, LoginAction::FailAuth),
            }
        },
        (LoginState::AwaitingModernReply(mode), LoginEvent::Accepted) => (
            LoginState::LoggedIn(mode),
            LoginAction::Finish(mode),
        ),
        (LoginState::AwaitingProbeReply, LoginEvent::Rejected) => (
            LoginState::Failed,
            LoginAction::FailAuth,
        ),
        (LoginState::AwaitingModernReply(_), LoginEvent::Rejected) => (
            LoginState::Failed,
            LoginAction::FailAuth,
        ),
        _ => (LoginState::Failed, LoginAction::FailProtocol),
    }
}

/// The error that an action of the login exchange ends the session with.
pub fn login_failure(action: LoginAction) -> (error: Option<Error>)
    ensures
        match action {
            LoginAction::FailAuth => error == Some(Error::AuthFailed),
            LoginAction::FailProtocol => error == Some(Error::ProtocolError),
            _ => error is None,
        },
{
    match action {
        LoginAction::FailAuth => Some(Error::AuthFailed),
        LoginAction::FailProtocol => Some(Error::ProtocolError),
        _ => None,
    }
}

/// A login that succeeds ends under a cipher that the camera offered and the
/// caller's ceiling admits, and a failed login never recovers: whatever
/// follows, the exchange stays failed.
pub proof fn lemma_login_respects_ceiling(
    state: LoginState,
    event: LoginEvent,
    ceiling: MaxEncryption,
    next: LoginState,
    action: LoginAction,
)
    requires
        login_step_ok(state, event, ceiling, next, action),
    ensures
        state == LoginState::Failed ==> next == LoginState::Failed,
        next matches LoginState::AwaitingModernReply(mode) ==> strength(mode) <= ceiling.ceiling(),
        next matches LoginState::LoggedIn(mode) ==> (state == LoginState::AwaitingModernReply(mode)
            || (state == LoginState::AwaitingProbeReply && mode == EncryptionMode::Unencrypted)),
        (event matches LoginEvent::Challenged(offered) && state == LoginState::AwaitingProbeReply
            && ceiling == MaxEncryption::Unencrypted && !offered.unencrypted) ==> action
            == LoginAction::FailAuth,
{
    if let LoginEvent::Challenged(offered) = event {
        if state == LoginState::AwaitingProbeReply && ceiling == MaxEncryption::Unencrypted
            && !offered.unencrypted {
            if let LoginState::AwaitingModernReply(mode) = next {
                assert(acceptable(ceiling, offered, mode));
            }
        }
    }
}

/// The lower-case form of a text, as `str::to_lowercase` gives it.
pub uninterp spec fn lowercase_of(text: Seq<char>) -> Seq<char>;

/// `str::to_lowercase` returns the lower-case form of the text it is given;
/// the contract gives that form a name and says nothing more of it.
pub assume_specification[ str::to_lowercase ](s: &str) -> (lowered: String)
    ensures
        lowered@ == lowercase_of(s@),
;

/// The ceiling that a lower-case setting stands for; a setting that is not
/// recognised stands for the strictest one.
pub open spec fn ceiling_of_lowered(lowered: Seq<char>) -> MaxEncryption {
    if lowered == "none"@ {
        MaxEncryption::Unencrypted
    } else if lowered == "bcencrypt"@ {
        MaxEncryption::BcEncrypt
    } else {
        MaxEncryption::Aes
    }
}

/// Reads a setting that is already in lower case.
pub fn max_encryption_from_lowered(lowered: &String) -> (ceiling: MaxEncryption)
    ensures
        ceiling == ceiling_of_lowered(lowered@),
{
    let none = String::from_str("none");
    let bcencrypt = String::from_str("bcencrypt");
    if *lowered == none {
        MaxEncryption::Unencrypted
    } else if *lowered == bcencrypt {
        MaxEncryption::BcEncrypt
    } else {
        MaxEncryption::Aes
    }
}

/// Reads the encryption ceiling of a camera's configuration, whatever the
/// case it is written in.
pub fn parse_max_encryption(setting: &str) -> (ceiling: MaxEncryption)
    ensures
        ceiling == ceiling_of_lowered(lowercase_of(setting@)),
{
    let lowered = setting.to_lowercase();
    max_encryption_from_lowered(&lowered)
}

} // verus!
