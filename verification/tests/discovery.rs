use robot_comm::robot_discovery::{static_robot_ip, IpAddress, Reconnect, RobotConn, RobotConnState, RobotDiscovery};
use robot_comm::team_number::TeamNumber;

#[test]
fn team_number_parses_decimal() {
    assert_eq!(TeamNumber::parse("1114").unwrap(), TeamNumber(1114));
    assert_eq!(TeamNumber::parse("+42").unwrap(), TeamNumber(42));
    assert_eq!(TeamNumber::parse("007").unwrap(), TeamNumber(7));
    assert_eq!(TeamNumber::parse("65535").unwrap(), TeamNumber(65535));
    let parsed: TeamNumber = "254".parse().unwrap();
    assert_eq!(parsed, TeamNumber(254));
}

#[test]
fn team_number_rejects_other_text() {
    assert!(TeamNumber::parse("65536").is_err());
    assert!(TeamNumber::parse("").is_err());
    assert!(TeamNumber::parse("+").is_err());
    assert!(TeamNumber::parse("-1").is_err());
    assert!(TeamNumber::parse(" 1").is_err());
    assert!(TeamNumber::parse("12a").is_err());
}

#[test]
fn discovery_from_text_prefers_team_number() {
    let d = RobotDiscovery::from_text("1114", Some(IpAddress::V4(0x0a0b_0e02)));
    assert!(matches!(d, RobotDiscovery::TeamNumber(TeamNumber(1114))));
    let d = RobotDiscovery::from_text("10.11.14.2", Some(IpAddress::V4(0x0a0b_0e02)));
    assert!(matches!(d, RobotDiscovery::Ip(IpAddress::V4(0x0a0b_0e02))));
    let d = RobotDiscovery::from_text("roborio-1114-frc.local", None);
    match d {
        RobotDiscovery::HostName(h) => assert_eq!(h, "roborio-1114-frc.local"),
        other => panic!("unexpected {other:?}"),
    }
    assert!(matches!(RobotDiscovery::from(254u16), RobotDiscovery::TeamNumber(TeamNumber(254))));
}

#[test]
fn connection_looks_up_a_new_target_once() {
    let (mut conn, mut shared) = RobotConn::new(Some(RobotDiscovery::TeamNumber(TeamNumber(1114))));
    let mut lookups = 0;
    let addr = conn.connect(&mut shared, |d| {
        lookups += 1;
        match d {
            RobotDiscovery::TeamNumber(TeamNumber(n)) => Some(IpAddress::V4(0x0a00_0000 | n as u32)),
            _ => None,
        }
    });
    assert_eq!(addr, Some(IpAddress::V4(0x0a00_045a)));
    assert!(matches!(shared.state, RobotConnState::Connected(IpAddress::V4(0x0a00_045a))));
    let again = conn.connect(&mut shared, |_| panic!("already connected"));
    assert_eq!(again, Some(IpAddress::V4(0x0a00_045a)));
    assert_eq!(lookups, 1);
}

#[test]
fn connection_failed_lookup_disconnects() {
    let (mut conn, mut shared) = RobotConn::new(Some(RobotDiscovery::HostName("nowhere".to_string())));
    assert_eq!(conn.connect(&mut shared, |_| None), None);
    assert!(matches!(shared.state, RobotConnState::Disconnected));
    assert_eq!(conn.connect(&mut shared, |_| panic!("nothing to look up")), None);
}

#[test]
fn reconnect_counts_and_retargets() {
    let (mut conn, mut shared) = RobotConn::new(None);
    assert!(matches!(shared.state, RobotConnState::Disconnected));
    conn.reconnect(&mut shared, Some(RobotDiscovery::Ip(IpAddress::V6(1))));
    assert_eq!(shared.reconnect, 1);
    assert_eq!(conn.connect(&mut shared, |d| match d {
        RobotDiscovery::Ip(a) => Some(a),
        _ => None,
    }), Some(IpAddress::V6(1)));
    assert_eq!(conn.reconnect, 1);
    shared.reconnect = usize::MAX;
    shared.reconnect(None);
    assert_eq!(shared.reconnect, 0);
}

#[test]
fn reset_is_noticed_once() {
    let (mut conn, mut shared) = RobotConn::new(None);
    assert!(!conn.should_restart_conn(&shared));
    conn.reset_conn(&mut shared);
    assert!(conn.should_restart_conn(&shared));
    assert!(!conn.should_restart_conn(&shared));
}

#[test]
fn check_reconnect_answers_after_reset() {
    let (mut conn, mut shared) = RobotConn::new(Some(RobotDiscovery::Ip(IpAddress::V4(7))));
    assert_eq!(conn.check_reconnect(&mut shared, |_| panic!("no reset yet")), Reconnect::No);
    shared.reset_conn();
    let r = conn.check_reconnect(&mut shared, |d| match d {
        RobotDiscovery::Ip(a) => Some(a),
        _ => None,
    });
    assert_eq!(r, Reconnect::Yes(Some(IpAddress::V4(7))));
    assert_eq!(conn.check_reconnect(&mut shared, |_| None), Reconnect::Yes(Some(IpAddress::V4(7))));
    assert!(conn.should_restart_conn(&shared));
    assert_eq!(conn.check_reconnect(&mut shared, |_| None), Reconnect::No);
}

#[test]
fn static_address_spells_the_team_number() {
    assert_eq!(static_robot_ip(TeamNumber(1114)), Some(IpAddress::V4(0x0a0b_0e16)));
    assert_eq!(static_robot_ip(TeamNumber(254)), Some(IpAddress::V4(0x0a02_3616)));
    assert_eq!(static_robot_ip(TeamNumber(9999)), Some(IpAddress::V4(0x0a63_6316)));
    assert_eq!(static_robot_ip(TeamNumber(10000)), None);
}
