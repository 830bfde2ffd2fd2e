//! What the subcommands share: finding a camera in the configuration and
//! turning its entry into a plan to connect and log in.

use vstd::prelude::*;
use vstd::string::StringExecFns;
use crate::discovery::{DiscoveryMethods, SocketAddress};
use crate::errors::Error;
use crate::login::{ceiling_of_lowered, lowercase_of, parse_max_encryption, MaxEncryption};
use crate::session::{address_candidates, BcCamera, ConnectPlan, PrintFormat, SocketAddrOrUid};

verus! {

/// The configuration entry of one camera.
#[derive(Debug, PartialEq, Eq)]
pub struct CameraConfig {
    pub name: String,
    pub camera_addr: Option<String>,
    pub camera_uid: Option<String>,
    pub discovery: DiscoveryMethods,
    pub channel_id: u8,
    pub username: String,
    pub password: Option<String>,
    pub max_encryption: String,
    pub print_format: PrintFormat,
}

/// The configuration: the cameras, in the order of the file.
#[derive(Debug, PartialEq, Eq)]
pub struct Config {
    pub cameras: Vec<CameraConfig>,
}

/// What is wrong with a configuration.
#[derive(Debug, PartialEq, Eq)]
pub enum ConfigError {
    /// An entry names neither an address nor a UID.
    NoAddressOrUid,
    /// No entry has the name asked for, which is carried along.
    CameraNotFound(String),
}

/// How a camera's entry says to reach it.
#[derive(Debug, PartialEq, Eq)]
pub enum AddressOrUid {
    /// By host name or address.
    Address(String),
    /// By UID, with the discovery allowed.
    Uid(String, DiscoveryMethods),
    /// By UID with an address to help discovery: address, UID, discovery allowed.
    AddressWithUid(String, String, DiscoveryMethods),
}

/// The plan carries these session parameters.
pub open spec fn plan_carries(
    plan: ConnectPlan,
    channel_id: u8,
    username: String,
    passwd: Option<String>,
    aux_print_format: PrintFormat,
) -> bool {
    &&& plan.channel_id == channel_id
    &&& plan.username == username
    &&& plan.passwd == passwd
    &&& plan.aux_info_format == aux_print_format
}

/// The way to reach a camera that an entry's address and UID fields select.
pub open spec fn target_of(
    address: Option<String>,
    uid: Option<String>,
    method: DiscoveryMethods,
) -> Option<AddressOrUid> {
    match (address, uid) {
        (None, None) => None,
        (Some(host), Some(uid)) => Some(AddressOrUid::AddressWithUid(host, uid, method)),
        (Some(host), None) => Some(AddressOrUid::Address(host)),
        (None, Some(uid)) => Some(AddressOrUid::Uid(uid, method)),
    }
}

impl ConfigError {
    /// The complaint in words.
    pub fn message(&self) -> (text: String)
        ensures
            text@ == match *self {
                ConfigError::NoAddressOrUid => "Neither address or uid given"@,
                ConfigError::CameraNotFound(name) => "Camera "@ + name@
                    + " not found in the config file"@,
            },
    {
        match self {
            ConfigError::NoAddressOrUid => String::from_str("Neither address or uid given"),
            ConfigError::CameraNotFound(name) => String::from_str("Camera ").concat(
                name.as_str(),
            ).concat(" not found in the config file"),
        }
    }
}

impl AddressOrUid {
    /// The plan that connecting to this target amounts to, given what its
    /// address resolved to (`None` when it did not resolve).
    pub open spec fn plans(
        self,
        resolved: Option<Vec<SocketAddress>>,
        channel_id: u8,
        username: String,
        passwd: Option<String>,
        aux_print_format: PrintFormat,
        plan: Result<ConnectPlan, Error>,
    ) -> bool {
        match plan {
            Ok(plan) => plan_carries(plan, channel_id, username, passwd, aux_print_format)
                && match self {
                AddressOrUid::Address(_) => resolved is Some && plan.candidates@
                    == address_candidates(resolved.unwrap()@),
                AddressOrUid::Uid(uid, method) => plan.candidates@ == seq![
                    SocketAddrOrUid::Uid(uid, None, method),
                ],
                AddressOrUid::AddressWithUid(_, uid, method) => resolved is Some
                    && plan.candidates@ == seq![SocketAddrOrUid::Uid(uid, resolved, method)],
            },
            Err(e) => e == Error::AddrResolutionError && resolved is None && !(self is Uid),
        }
    }

    /// Reads the target out of an entry's address and UID fields. An entry
    /// with both is reached by UID with the address as a hint; one with
    /// neither is refused.
    pub fn new(address: &Option<String>, uid: &Option<String>, method: &DiscoveryMethods) -> (target:
        Result<AddressOrUid, ConfigError>)
        ensures
            match target {
                Ok(target) => target_of(*address, *uid, *method) == Some(target),
                Err(e) => e == ConfigError::NoAddressOrUid && target_of(*address, *uid, *method)
                    is None,
            },
    {
        match (address, uid) {
            (None, None) => Err(ConfigError::NoAddressOrUid),
            (Some(host), Some(uid)) => Ok(
                AddressOrUid::AddressWithUid(host.clone(), uid.clone(), *method),
            ),
            (Some(host), None) => Ok(AddressOrUid::Address(host.clone())),
            (None, Some(host)) => Ok(AddressOrUid::Uid(host.clone(), *method)),
        }
    }

    /// The target in words, as it appears in log lines.
    pub fn to_string(&self) -> (text: String)
        ensures
            text@ == match *self {
                AddressOrUid::AddressWithUid(addr, uid, _) => "Address: "@ + addr@ + ", UID: "@
                    + uid@,
                AddressOrUid::Address(host) => "Address: "@ + host@,
                AddressOrUid::Uid(host, _) => "UID: "@ + host@,
            },
    {
        match self {
            AddressOrUid::AddressWithUid(addr, uid, _) => String::from_str("Address: ").concat(
                addr.as_str(),
            ).concat(", UID: ").concat(uid.as_str()),
            AddressOrUid::Address(host) => String::from_str("Address: ").concat(host.as_str()),
            AddressOrUid::Uid(host, _) => String::from_str("UID: ").concat(host.as_str()),
        }
    }

    /// The host name or address that has to be resolved before connecting,
    /// if the target has one.
    pub fn host(&self) -> (host: Option<&String>)
        ensures
            match *self {
                AddressOrUid::Address(h) => host == Some(&h),
                AddressOrUid::AddressWithUid(h, _, _) => host == Some(&h),
                AddressOrUid::Uid(_, _) => host is None,
            },
    {
        match self {
            AddressOrUid::Address(h) => Some(h),
            AddressOrUid::AddressWithUid(h, _, _) => Some(h),
            AddressOrUid::Uid(_, _) => None,
        }
    }

    /// The plan to connect to this target. `resolved` holds what the
    /// target's address resolved to, `None` when it did not resolve; a
    /// target without an address ignores it.
    pub fn connect_camera(
        &self,
        resolved: Option<Vec<SocketAddress>>,
        channel_id: u8,
        username: String,
        passwd: Option<String>,
        aux_print_format: PrintFormat,
    ) -> (plan: Result<ConnectPlan, Error>)
        ensures
            self.plans(resolved, channel_id, username, passwd, aux_print_format, plan),
            self is Uid ==> plan is Ok,
            resolved is Some ==> plan is Ok,
    {
        match self {
            AddressOrUid::AddressWithUid(_, uid, method) => BcCamera::new_with_uid_and_addr(
                uid.clone(),
                resolved,
                channel_id,
                username,
                passwd,
                *method,
                aux_print_format,
            ),
            AddressOrUid::Address(_) => BcCamera::new_with_addr(
                resolved,
                channel_id,
                username,
                passwd,
                aux_print_format,
            ),
            AddressOrUid::Uid(host, method) => Ok(
                BcCamera::new_with_uid(
                    host.clone(),
                    channel_id,
                    username,
                    passwd,
                    *method,
                    aux_print_format,
                ),
            ),
        }
    }
}

/// What to do for a camera: the plan to connect, and the encryption ceiling
/// to log in with.
#[derive(Debug, PartialEq, Eq)]
pub struct LoginPlan {
    pub connect: ConnectPlan,
    pub max_encryption: MaxEncryption,
}

/// The plan to connect to a configured camera and log in to it: the target
/// comes from the entry's address and UID, the session parameters from its
/// other fields, and the encryption ceiling from its setting read without
/// regard to case. `resolved` holds what the entry's address resolved to.
pub fn connect_and_login(camera_config: &CameraConfig, resolved: Option<Vec<SocketAddress>>) -> (plan:
    Result<LoginPlan, Error>)
    requires
        camera_config.camera_addr is Some || camera_config.camera_uid is Some,
    ensures
        match plan {
            Ok(plan) => target_of(
                camera_config.camera_addr,
                camera_config.camera_uid,
                camera_config.discovery,
            ).unwrap().plans(
                resolved,
                camera_config.channel_id,
                camera_config.username,
                camera_config.password,
                camera_config.print_format,
                Ok(plan.connect),
            ) && plan.max_encryption == ceiling_of_lowered(
                lowercase_of(camera_config.max_encryption@),
            ),
            Err(e) => e == Error::AddrResolutionError && resolved is None
                && camera_config.camera_addr is Some,
        },
        resolved is Some ==> plan is Ok,
        camera_config.camera_addr is None ==> plan is Ok,
{
    let target = match AddressOrUid::new(
        &camera_config.camera_addr,
        &camera_config.camera_uid,
        &camera_config.discovery,
    ) {
        Ok(target) => target,
        // Not reached: the entry names an address or a UID.
        Err(_) => {
            return Err(Error::AddrResolutionError);
        },
    };
    let password = match &camera_config.password {
        Some(p) => Some(p.clone()),
        None => None,
    };
    let connect = target.connect_camera(
        resolved,
        camera_config.channel_id,
        camera_config.username.clone(),
        password,
        camera_config.print_format,
    )?;
    let max_encryption = parse_max_encryption(camera_config.max_encryption.as_str());
    Ok(LoginPlan { connect, max_encryption })
}

/// Every entry before position `i` has another name.
pub open spec fn no_match_before(cameras: Seq<CameraConfig>, name: Seq<char>, i: int) -> bool {
    forall|j: int| 0 <= j < i ==> (#[trigger] cameras[j]).name@ != name
}

/// The first camera of the configuration that has the name asked for.
pub fn find_camera_by_name<'a>(config: &'a Config, name: &str) -> (found: Result<
    &'a CameraConfig,
    ConfigError,
>)
    ensures
        match found {
            Ok(camera) => exists|i: int|
                0 <= i < config.cameras@.len() && no_match_before(config.cameras@, name@, i)
                    && #[trigger] config.cameras@[i] == *camera && camera.name@ == name@,
            Err(ConfigError::CameraNotFound(wanted)) => wanted@ == name@ && no_match_before(
                config.cameras@,
                name@,
                config.cameras@.len() as int,
            ),
            Err(_) => false,
        },
{
    let wanted = String::from_str(name);
    let mut i: usize = 0;
    while i < config.cameras.len()
        invariant
            i <= config.cameras@.len(),
            wanted@ == name@,
            no_match_before(config.cameras@, name@, i as int),
        decreases config.cameras@.len() - i,
    {
        if config.cameras[i].name == wanted {
            return Ok(&config.cameras[i]);
        }
        i += 1;
    }
    Err(ConfigError::CameraNotFound(wanted))
}

} // verus!
