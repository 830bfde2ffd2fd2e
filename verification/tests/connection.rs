use neolink_core::connection::{BcConnection, Delivery, EncryptionMode};
use neolink_core::errors::Error;
use neolink_core::login::{
    install_point, login_failure, login_step, max_encryption_from_lowered, parse_max_encryption,
    select_encryption, InstallPoint, LoginAction, LoginEvent, LoginState, MaxEncryption,
    OfferedEncryption,
};


#[test]
fn reply_goes_to_its_waiter() {
    let mut conn = BcConnection::new();
    assert!(conn.expect_reply(5));
    assert!(conn.is_waiting(5));
    assert_eq!(conn.route(1, 5), Delivery::Waiter(5));
    assert!(!conn.is_waiting(5));
}

#[test]
fn waiter_is_delivered_once() {
    let mut conn = BcConnection::new();
    conn.expect_reply(5);
    assert_eq!(conn.route(1, 5), Delivery::Waiter(5));
    assert_eq!(conn.route(1, 5), Delivery::Dropped);
}

#[test]
fn one_waiter_per_message_num() {
    let mut conn = BcConnection::new();
    assert!(conn.expect_reply(9));
    assert!(!conn.expect_reply(9));
    assert_eq!(conn.route(0, 9), Delivery::Waiter(9));
    assert_eq!(conn.route(0, 9), Delivery::Dropped);
}

#[test]
fn reply_after_cancellation_is_dropped() {
    let mut conn = BcConnection::new();
    assert!(conn.expect_reply(42));
    assert!(conn.cancel(42));
    assert_eq!(conn.route(1, 42), Delivery::Dropped);
    assert!(conn.expect_reply(43));
    assert_eq!(conn.route(1, 43), Delivery::Waiter(43));
}

#[test]
fn cancel_unknown_number() {
    let mut conn = BcConnection::new();
    assert!(!conn.cancel(1));
    conn.expect_reply(2);
    assert!(!conn.cancel(1));
    assert!(conn.is_waiting(2));
}

#[test]
fn waiter_before_subscriber() {
    let mut conn = BcConnection::new();
    assert!(conn.subscribe(3));
    assert!(!conn.subscribe(3));
    assert!(conn.is_subscribed(3));
    conn.expect_reply(7);
    assert_eq!(conn.route(3, 7), Delivery::Waiter(7));
    assert_eq!(conn.route(3, 7), Delivery::Subscriber(3));
    assert_eq!(conn.route(3, 8), Delivery::Subscriber(3));
    assert_eq!(conn.route(4, 8), Delivery::Dropped);
    assert!(conn.unsubscribe(3));
    assert!(!conn.unsubscribe(3));
    assert_eq!(conn.route(3, 8), Delivery::Dropped);
}

#[test]
fn encryption_starts_plain_and_never_goes_back() {
    let mut conn = BcConnection::new();
    assert_eq!(conn.encryption(), EncryptionMode::Unencrypted);
    assert!(conn.install_encryption(EncryptionMode::Unencrypted));
    assert!(conn.install_encryption(EncryptionMode::BcEncrypt));
    assert_eq!(conn.encryption(), EncryptionMode::BcEncrypt);
    assert!(!conn.install_encryption(EncryptionMode::Unencrypted));
    assert_eq!(conn.encryption(), EncryptionMode::BcEncrypt);
    assert!(!conn.install_encryption(EncryptionMode::Aes));
    assert_eq!(conn.encryption(), EncryptionMode::BcEncrypt);
    assert!(conn.install_encryption(EncryptionMode::BcEncrypt));
}

#[test]
fn aes_is_kept() {
    let mut conn = BcConnection::new();
    assert!(conn.install_encryption(EncryptionMode::Aes));
    assert!(!conn.install_encryption(EncryptionMode::Unencrypted));
    assert!(!conn.install_encryption(EncryptionMode::BcEncrypt));
    assert_eq!(conn.encryption(), EncryptionMode::Aes);
}

fn offer(unencrypted: bool, bcencrypt: bool, aes: bool) -> OfferedEncryption {
    OfferedEncryption {
        unencrypted,
        bcencrypt,
        aes,
    }
}

#[test]
fn plaintext_ceiling_against_aes_only_camera() {
    assert_eq!(
        select_encryption(MaxEncryption::Unencrypted, offer(false, false, true)),
        Err(Error::AuthFailed)
    );
}

#[test]
fn strongest_within_ceiling() {
    let all = offer(true, true, true);
    assert_eq!(
        select_encryption(MaxEncryption::Aes, all),
        Ok(EncryptionMode::Aes)
    );
    assert_eq!(
        select_encryption(MaxEncryption::BcEncrypt, all),
        Ok(EncryptionMode::BcEncrypt)
    );
    assert_eq!(
        select_encryption(MaxEncryption::Unencrypted, all),
        Ok(EncryptionMode::Unencrypted)
    );
    assert_eq!(
        select_encryption(MaxEncryption::Aes, offer(true, true, false)),
        Ok(EncryptionMode::BcEncrypt)
    );
    assert_eq!(
        select_encryption(MaxEncryption::Aes, offer(true, false, false)),
        Ok(EncryptionMode::Unencrypted)
    );
    assert_eq!(
        select_encryption(MaxEncryption::BcEncrypt, offer(false, false, true)),
        Err(Error::AuthFailed)
    );
    assert_eq!(
        select_encryption(MaxEncryption::Aes, offer(false, false, false)),
        Err(Error::AuthFailed)
    );
}

#[test]
fn max_encryption_any_case() {
    assert_eq!(parse_max_encryption("none"), MaxEncryption::Unencrypted);
    assert_eq!(parse_max_encryption("NONE"), MaxEncryption::Unencrypted);
    assert_eq!(parse_max_encryption("None"), MaxEncryption::Unencrypted);
    assert_eq!(parse_max_encryption("BcEncrypt"), MaxEncryption::BcEncrypt);
    assert_eq!(parse_max_encryption("BCENCRYPT"), MaxEncryption::BcEncrypt);
    assert_eq!(parse_max_encryption("aes"), MaxEncryption::Aes);
    assert_eq!(parse_max_encryption("AES"), MaxEncryption::Aes);
}

#[test]
fn max_encryption_unknown_is_strictest() {
    assert_eq!(parse_max_encryption(""), MaxEncryption::Aes);
    assert_eq!(parse_max_encryption("rot13"), MaxEncryption::Aes);
    assert_eq!(parse_max_encryption(" none"), MaxEncryption::Aes);
}

#[test]
fn max_encryption_lowered_is_exact() {
    assert_eq!(
        max_encryption_from_lowered(&String::from("none")),
        MaxEncryption::Unencrypted
    );
    assert_eq!(
        max_encryption_from_lowered(&String::from("bcencrypt")),
        MaxEncryption::BcEncrypt
    );
    assert_eq!(
        max_encryption_from_lowered(&String::from("aes")),
        MaxEncryption::Aes
    );
    assert_eq!(
        max_encryption_from_lowered(&String::from("NONE")),
        MaxEncryption::Aes
    );
}

#[test]
fn cipher_install_points() {
    assert_eq!(install_point(EncryptionMode::Unencrypted), InstallPoint::Never);
    assert_eq!(
        install_point(EncryptionMode::BcEncrypt),
        InstallPoint::BeforeSending
    );
    assert_eq!(install_point(EncryptionMode::Aes), InstallPoint::AfterReply);
}

#[test]
fn transport_failure_fails_every_waiter() {
    let mut conn = BcConnection::new();
    conn.expect_reply(1);
    conn.expect_reply(2);
    conn.expect_reply(2);
    conn.subscribe(9);
    assert_eq!(conn.fail_waiters(), 2);
    assert!(!conn.is_waiting(1));
    assert!(!conn.is_waiting(2));
    assert!(conn.is_subscribed(9));
    assert_eq!(conn.fail_waiters(), 0);
}

#[test]
fn login_with_aes() {
    let ceiling = MaxEncryption::Aes;
    let (s1, a1) = login_step(LoginState::Start, LoginEvent::Begin, ceiling);
    assert_eq!((s1, a1), (LoginState::AwaitingProbeReply, LoginAction::SendLegacyLogin));
    let (s2, a2) = login_step(s1, LoginEvent::Challenged(offer(true, true, true)), ceiling);
    assert_eq!(
        (s2, a2),
        (
            LoginState::AwaitingModernReply(EncryptionMode::Aes),
            LoginAction::SendModernLogin(EncryptionMode::Aes)
        )
    );
    let (s3, a3) = login_step(s2, LoginEvent::Accepted, ceiling);
    assert_eq!(
        (s3, a3),
        (
            LoginState::LoggedIn(EncryptionMode::Aes),
            LoginAction::Finish(EncryptionMode::Aes)
        )
    );
    assert_eq!(login_failure(a3), None);
}

#[test]
fn login_with_bcencrypt_ceiling() {
    let ceiling = MaxEncryption::BcEncrypt;
    let (s2, a2) = login_step(
        LoginState::AwaitingProbeReply,
        LoginEvent::Challenged(offer(true, true, true)),
        ceiling,
    );
    assert_eq!(s2, LoginState::AwaitingModernReply(EncryptionMode::BcEncrypt));
    assert_eq!(a2, LoginAction::SendModernLogin(EncryptionMode::BcEncrypt));
    assert_eq!(install_point(EncryptionMode::BcEncrypt), InstallPoint::BeforeSending);
}

#[test]
fn login_to_legacy_camera() {
    assert_eq!(
        login_step(LoginState::AwaitingProbeReply, LoginEvent::Accepted, MaxEncryption::Aes),
        (
            LoginState::LoggedIn(EncryptionMode::Unencrypted),
            LoginAction::Finish(EncryptionMode::Unencrypted)
        )
    );
}

#[test]
fn login_without_common_cipher_fails() {
    let (state, action) = login_step(
        LoginState::AwaitingProbeReply,
        LoginEvent::Challenged(offer(false, false, true)),
        MaxEncryption::Unencrypted,
    );
    assert_eq!((state, action), (LoginState::Failed, LoginAction::FailAuth));
    assert_eq!(login_failure(action), Some(Error::AuthFailed));
}

#[test]
fn rejected_login_fails() {
    let ceiling = MaxEncryption::Aes;
    assert_eq!(
        login_step(LoginState::AwaitingProbeReply, LoginEvent::Rejected, ceiling),
        (LoginState::Failed, LoginAction::FailAuth)
    );
    assert_eq!(
        login_step(
            LoginState::AwaitingModernReply(EncryptionMode::Aes),
            LoginEvent::Rejected,
            ceiling
        ),
        (LoginState::Failed, LoginAction::FailAuth)
    );
}

#[test]
fn login_events_out_of_turn() {
    let ceiling = MaxEncryption::Aes;
    let out_of_turn = [
        (LoginState::Start, LoginEvent::Accepted),
        (LoginState::Start, LoginEvent::Rejected),
        (LoginState::AwaitingProbeReply, LoginEvent::Begin),
        (
            LoginState::AwaitingModernReply(EncryptionMode::Aes),
            LoginEvent::Challenged(offer(true, true, true)),
        ),
        (LoginState::LoggedIn(EncryptionMode::Aes), LoginEvent::Begin),
        (LoginState::Failed, LoginEvent::Begin),
        (LoginState::Failed, LoginEvent::Accepted),
    ];
    for (state, event) in out_of_turn {
        let (next, action) = login_step(state, event, ceiling);
        assert_eq!(next, LoginState::Failed);
        assert_eq!(action, LoginAction::FailProtocol);
        assert_eq!(login_failure(action), Some(Error::ProtocolError));
    }
}
