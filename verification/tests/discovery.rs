use neolink_core::discovery::{
    race_step, settle_race, AllowedMethods, Discovery, DiscoveryMethods, IpAddress, SocketAddress,
    TaskOutcome,
};
use neolink_core::errors::Error;

fn found(last_octet: u8, session_id: u32) -> Discovery {
    Discovery {
        addr: SocketAddress {
            ip: IpAddress::V4([192, 0, 2, last_octet]),
            port: 9000,
        },
        session_id,
    }
}

fn mask(local: bool, remote: bool, map: bool, relay: bool) -> AllowedMethods {
    AllowedMethods {
        local,
        remote,
        map,
        relay,
    }
}

#[test]
fn allowed_methods_table() {
    assert_eq!(
        DiscoveryMethods::Disabled.allowed_methods(),
        mask(false, false, false, false)
    );
    assert_eq!(
        DiscoveryMethods::Local.allowed_methods(),
        mask(true, false, false, false)
    );
    assert_eq!(
        DiscoveryMethods::Remote.allowed_methods(),
        mask(true, true, false, false)
    );
    assert_eq!(
        DiscoveryMethods::MapServer.allowed_methods(),
        mask(true, true, true, false)
    );
    assert_eq!(
        DiscoveryMethods::Relay.allowed_methods(),
        mask(true, true, true, true)
    );
    assert_eq!(
        DiscoveryMethods::Debug.allowed_methods(),
        mask(false, false, false, true)
    );
}

#[test]
fn each_setting_widens_the_previous() {
    let chain = [
        DiscoveryMethods::Disabled,
        DiscoveryMethods::Local,
        DiscoveryMethods::Remote,
        DiscoveryMethods::MapServer,
        DiscoveryMethods::Relay,
    ];
    for pair in chain.windows(2) {
        let a = pair[0].allowed_methods();
        let b = pair[1].allowed_methods();
        assert!(!a.local || b.local);
        assert!(!a.remote || b.remote);
        assert!(!a.map || b.map);
        assert!(!a.relay || b.relay);
        assert_ne!(a, b);
    }
}

#[test]
fn race_first_success_wins() {
    // Local gives up, the registration server answers first, hole punching later.
    let outcomes = vec![
        TaskOutcome::Failed,
        TaskOutcome::Found(found(10, 500)),
        TaskOutcome::Found(found(11, 600)),
    ];
    assert_eq!(settle_race(&outcomes), Ok(found(10, 500)));
}

#[test]
fn race_arrival_order_not_method_preference() {
    let relay_first = vec![
        TaskOutcome::Found(found(99, 4)),
        TaskOutcome::Found(found(1, 1)),
    ];
    assert_eq!(settle_race(&relay_first), Ok(found(99, 4)));
}

#[test]
fn race_single_method_failing_times_out() {
    assert_eq!(
        settle_race(&vec![TaskOutcome::Failed]),
        Err(Error::DiscoveryTimeout)
    );
}

#[test]
fn race_with_no_method_times_out() {
    assert_eq!(settle_race(&Vec::new()), Err(Error::DiscoveryTimeout));
}

#[test]
fn race_all_failing_times_out() {
    let outcomes = vec![
        TaskOutcome::Failed,
        TaskOutcome::Failed,
        TaskOutcome::Failed,
        TaskOutcome::Failed,
    ];
    assert_eq!(settle_race(&outcomes), Err(Error::DiscoveryTimeout));
}

#[test]
fn race_join_failure_ends_it() {
    let outcomes = vec![
        TaskOutcome::Failed,
        TaskOutcome::Panicked(String::from("task 3 panicked")),
        TaskOutcome::Found(found(10, 1)),
    ];
    assert_eq!(
        settle_race(&outcomes),
        Err(Error::OtherString(String::from(
            "Panic while joining Discovery threads: task 3 panicked"
        )))
    );
}

#[test]
fn race_step_by_step() {
    assert_eq!(race_step(Some(&TaskOutcome::Failed)), None);
    assert_eq!(
        race_step(Some(&TaskOutcome::Found(found(7, 3)))),
        Some(Ok(found(7, 3)))
    );
    assert_eq!(
        race_step(Some(&TaskOutcome::Panicked(String::from("x")))),
        Some(Err(Error::OtherString(String::from(
            "Panic while joining Discovery threads: x"
        ))))
    );
    assert_eq!(race_step(None), Some(Err(Error::DiscoveryTimeout)));
}
