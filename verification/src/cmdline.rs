//! What the command line selects.

use vstd::prelude::*;

verus! {

/// The options common to every subcommand.
#[derive(Debug, PartialEq, Eq)]
pub struct Opt {
    /// Path of the configuration file, if one was given.
    pub config: Option<String>,
    /// The subcommand, if one was given.
    pub cmd: Option<Command>,
}

/// The subcommands.
#[derive(Clone, Copy, Debug, PartialEq, Eq, Structural)]
pub enum Command {
    /// Serve the cameras' streams over RTSP.
    Rtsp,
    /// Switch the status light.
    StatusLight,
    /// Reboot the camera.
    Reboot,
    /// Switch the infrared motion sensor.
    Pir,
    /// Talk back through the camera's speaker.
    Talk,
    /// Bridge the camera to an MQTT broker.
    Mqtt,
    /// Fetch a still image.
    Image,
}

} // verus!
