use neolink_core::cmdline::{Command, Opt};
use neolink_core::discovery::{DiscoveryMethods, IpAddress, SocketAddress};
use neolink_core::errors::Error;
use neolink_core::login::MaxEncryption;
use neolink_core::session::{PrintFormat, SocketAddrOrUid};
use neolink_core::utils::{
    connect_and_login, find_camera_by_name, AddressOrUid, CameraConfig, Config, ConfigError,
};

fn addr(last_octet: u8) -> SocketAddress {
    SocketAddress {
        ip: IpAddress::V4([192, 0, 2, last_octet]),
        port: 9000,
    }
}

fn entry(name: &str, address: Option<&str>, uid: Option<&str>, max_encryption: &str) -> CameraConfig {
    CameraConfig {
        name: String::from(name),
        camera_addr: address.map(String::from),
        camera_uid: uid.map(String::from),
        discovery: DiscoveryMethods::Local,
        channel_id: 0,
        username: String::from("admin"),
        password: Some(String::from("test")),
        max_encryption: String::from(max_encryption),
        print_format: PrintFormat::Quiet,
    }
}

#[test]
fn target_from_fields() {
    let m = DiscoveryMethods::Remote;
    assert_eq!(
        AddressOrUid::new(&None, &None, &m),
        Err(ConfigError::NoAddressOrUid)
    );
    assert_eq!(
        AddressOrUid::new(&Some(String::from("cam.lan")), &None, &m),
        Ok(AddressOrUid::Address(String::from("cam.lan")))
    );
    assert_eq!(
        AddressOrUid::new(&None, &Some(String::from("ABCDEF0123456789")), &m),
        Ok(AddressOrUid::Uid(String::from("ABCDEF0123456789"), m))
    );
    assert_eq!(
        AddressOrUid::new(
            &Some(String::from("cam.lan")),
            &Some(String::from("ABCDEF0123456789")),
            &m
        ),
        Ok(AddressOrUid::AddressWithUid(
            String::from("cam.lan"),
            String::from("ABCDEF0123456789"),
            m
        ))
    );
}

#[test]
fn target_in_words() {
    let m = DiscoveryMethods::Relay;
    assert_eq!(
        AddressOrUid::Address(String::from("192.0.2.10:9000")).to_string(),
        "Address: 192.0.2.10:9000"
    );
    assert_eq!(
        AddressOrUid::Uid(String::from("ABCDEF0123456789"), m).to_string(),
        "UID: ABCDEF0123456789"
    );
    assert_eq!(
        AddressOrUid::AddressWithUid(
            String::from("192.0.2.10"),
            String::from("ABCDEF0123456789"),
            m
        )
        .to_string(),
        "Address: 192.0.2.10, UID: ABCDEF0123456789"
    );
}

#[test]
fn target_host() {
    let m = DiscoveryMethods::Relay;
    assert_eq!(
        AddressOrUid::Address(String::from("a")).host(),
        Some(&String::from("a"))
    );
    assert_eq!(
        AddressOrUid::AddressWithUid(String::from("a"), String::from("u"), m).host(),
        Some(&String::from("a"))
    );
    assert_eq!(AddressOrUid::Uid(String::from("u"), m).host(), None);
}

#[test]
fn config_error_in_words() {
    assert_eq!(
        ConfigError::NoAddressOrUid.message(),
        "Neither address or uid given"
    );
    assert_eq!(
        ConfigError::CameraNotFound(String::from("porch")).message(),
        "Camera porch not found in the config file"
    );
}

#[test]
fn connect_camera_by_address() {
    let target = AddressOrUid::Address(String::from("cam.lan"));
    let plan = target
        .connect_camera(
            Some(vec![addr(1), addr(2)]),
            3,
            String::from("admin"),
            None,
            PrintFormat::Human,
        )
        .unwrap();
    assert_eq!(
        plan.candidates,
        vec![
            SocketAddrOrUid::SocketAddr(addr(1)),
            SocketAddrOrUid::SocketAddr(addr(2))
        ]
    );
    assert_eq!(plan.channel_id, 3);
    assert_eq!(
        target.connect_camera(None, 3, String::from("admin"), None, PrintFormat::Human),
        Err(Error::AddrResolutionError)
    );
}

#[test]
fn connect_camera_by_uid() {
    let target = AddressOrUid::Uid(String::from("ABCDEF0123456789"), DiscoveryMethods::Local);
    let plan = target
        .connect_camera(None, 0, String::from("admin"), None, PrintFormat::Quiet)
        .unwrap();
    assert_eq!(
        plan.candidates,
        vec![SocketAddrOrUid::Uid(
            String::from("ABCDEF0123456789"),
            None,
            DiscoveryMethods::Local
        )]
    );
}

#[test]
fn connect_camera_by_uid_and_address() {
    let target = AddressOrUid::AddressWithUid(
        String::from("cam.lan"),
        String::from("ABCDEF0123456789"),
        DiscoveryMethods::Relay,
    );
    let plan = target
        .connect_camera(
            Some(vec![addr(9)]),
            0,
            String::from("admin"),
            None,
            PrintFormat::Quiet,
        )
        .unwrap();
    assert_eq!(
        plan.candidates,
        vec![SocketAddrOrUid::Uid(
            String::from("ABCDEF0123456789"),
            Some(vec![addr(9)]),
            DiscoveryMethods::Relay
        )]
    );
    assert_eq!(
        target.connect_camera(None, 0, String::from("admin"), None, PrintFormat::Quiet),
        Err(Error::AddrResolutionError)
    );
}

#[test]
fn direct_login_plan() {
    let cfg = entry("porch", Some("192.0.2.10:9000"), None, "aes");
    let plan = connect_and_login(&cfg, Some(vec![addr(10)])).unwrap();
    assert_eq!(
        plan.connect.candidates,
        vec![SocketAddrOrUid::SocketAddr(addr(10))]
    );
    assert_eq!(plan.connect.username, "admin");
    assert_eq!(plan.connect.passwd, Some(String::from("test")));
    assert_eq!(plan.connect.channel_id, 0);
    assert_eq!(plan.max_encryption, MaxEncryption::Aes);
}

#[test]
fn uid_login_plan() {
    let mut cfg = entry("yard", None, Some("ABCDEF0123456789"), "BcEncrypt");
    cfg.password = None;
    let plan = connect_and_login(&cfg, None).unwrap();
    assert_eq!(
        plan.connect.candidates,
        vec![SocketAddrOrUid::Uid(
            String::from("ABCDEF0123456789"),
            None,
            DiscoveryMethods::Local
        )]
    );
    assert_eq!(plan.connect.passwd, None);
    assert_eq!(plan.max_encryption, MaxEncryption::BcEncrypt);
}

#[test]
fn login_plan_for_unresolved_address() {
    let cfg = entry("porch", Some("nowhere.invalid"), None, "none");
    assert_eq!(connect_and_login(&cfg, None), Err(Error::AddrResolutionError));
}

#[test]
fn find_camera() {
    let mut second = entry("yard", Some("b"), None, "aes");
    second.channel_id = 1;
    let mut shadowed = entry("yard", Some("c"), None, "aes");
    shadowed.channel_id = 2;
    let config = Config {
        cameras: vec![entry("porch", Some("a"), None, "aes"), second, shadowed],
    };
    assert_eq!(find_camera_by_name(&config, "porch").unwrap().camera_addr, Some(String::from("a")));
    assert_eq!(find_camera_by_name(&config, "yard").unwrap().channel_id, 1);
    assert_eq!(
        find_camera_by_name(&config, "attic"),
        Err(ConfigError::CameraNotFound(String::from("attic")))
    );
    assert_eq!(
        find_camera_by_name(&config, "Porch"),
        Err(ConfigError::CameraNotFound(String::from("Porch")))
    );
}

#[test]
fn find_camera_in_empty_config() {
    let config = Config { cameras: Vec::new() };
    assert_eq!(
        find_camera_by_name(&config, "porch"),
        Err(ConfigError::CameraNotFound(String::from("porch")))
    );
}

#[test]
fn command_line_options() {
    let opt = Opt {
        config: Some(String::from("neolink.toml")),
        cmd: Some(Command::Reboot),
    };
    assert_eq!(opt.cmd, Some(Command::Reboot));
    assert_ne!(opt.cmd, Some(Command::Rtsp));
    assert_eq!(opt.config.as_deref(), Some("neolink.toml"));
}
