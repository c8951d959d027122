//! Process-level state behind the command surface: settings, the running
//! flag and the two registries that stopping the service empties.

use crate::connections::ConnectionRegistry;
use crate::discovery::{DeviceRegistry, DiscoveredDevice};
use vstd::prelude::*;

verus! {

/// User settings.
#[derive(Debug)]
pub struct AppSettings {
    pub device_name: String,
    pub quality: String,
    pub fps: u32,
    /// Toolbar resolution choice (0 = 720p, 1 = 1080p, 2 = 1440p,
    /// 3 = source size).
    pub default_resolution: u32,
    /// Toolbar bitrate choice (0 = 2, 1 = 4, 2 = 8, 3 = 12 Mbps).
    pub default_bitrate: u32,
}

impl AppSettings {
    /// The default settings for a device called `device_name`: automatic
    /// quality, 30 fps, 1080p and 4 Mbps.
    pub fn with_device_name(device_name: String) -> (r: Self)
        ensures
            r.device_name == device_name,
            r.quality@ == "auto"@,
            r.fps == 30,
            r.default_resolution == 1,
            r.default_bitrate == 1,
    {
        AppSettings {
            device_name,
            quality: "auto".to_string(),
            fps: 30,
            default_resolution: 1,
            default_bitrate: 1,
        }
    }
}

/// The toolbar's default resolution and bitrate choices.
pub fn get_default_streaming_indices(settings: &AppSettings) -> (r: (usize, usize))
    ensures
        r.0 == settings.default_resolution,
        r.1 == settings.default_bitrate,
{
    (settings.default_resolution as usize, settings.default_bitrate as usize)
}

/// Our own identity as shown to the user.
#[derive(Debug)]
pub struct SelfInfo {
    pub id: String,
    pub name: String,
    pub ip: String,
}

/// The service: whether it runs, the discovered devices and the live
/// connections.
pub struct Service<C> {
    pub running: bool,
    pub devices: DeviceRegistry,
    pub connections: ConnectionRegistry<C>,
}

impl<C> Service<C> {
    /// A stopped service with empty registries.
    pub fn new() -> (r: Self)
        ensures
            !r.is_running(),
            r.devices.wf(),
            r.devices@ == Seq::<DiscoveredDevice>::empty(),
            r.connections@ == Seq::<(String, C)>::empty(),
    {
        Service { running: false, devices: DeviceRegistry::new(), connections: ConnectionRegistry::new() }
    }

    /// Whether the service runs.
    pub open spec fn is_running(&self) -> bool {
        self.running
    }

    /// Whether the service runs.
    pub fn is_service_running(&self) -> (r: bool)
        ensures
            r == self.is_running(),
    {
        self.running
    }

    /// Whether a start request has to bring the service up (`false` when it
    /// already runs).
    pub fn start_service(&self) -> (r: bool)
        ensures
            r == !self.is_running(),
    {
        !self.running
    }

    /// Records that the service is up.
    pub fn mark_running(&mut self)
        ensures
            final(self).is_running(),
            final(self).devices == old(self).devices,
            final(self).connections == old(self).connections,
    {
        self.running = true;
    }

    /// Stops the service: both registries are emptied.
    pub fn stop_service(&mut self)
        ensures
            !final(self).is_running(),
            final(self).devices.wf(),
            final(self).devices@ == Seq::<DiscoveredDevice>::empty(),
            final(self).connections@ == Seq::<(String, C)>::empty(),
    {
        self.connections.clear();
        self.devices.clear_devices();
        self.running = false;
    }
}

} // verus!
