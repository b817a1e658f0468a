//! The data the engine works on: disk descriptors and the application state.

use vstd::prelude::*;

verus! {

/// The storage technology of a device, which decides how it can be erased.
#[derive(Clone, Copy, PartialEq, Eq, Structural, Debug)]
pub enum MediaType {
    Ssd,
    Hdd,
    Unknown,
}

/// The interconnect of a device, which decides which secure-erase command
/// family applies.
#[derive(Clone, Copy, PartialEq, Eq, Structural, Debug)]
pub enum Transport {
    Sata,
    Usb,
    Nvme,
    Unknown,
}

/// Whether a descriptor comes from the identification tools or was made up
/// as a stand-in when nothing could be detected.
#[derive(Clone, Copy, PartialEq, Eq, Structural, Debug)]
pub enum Origin {
    Detected,
    Synthesized,
}

/// One physical device, as classified by the detection pass.
#[derive(Debug)]
pub struct DiskInfo {
    /// The block-device path, such as `/dev/sda`.
    pub device_name: String,
    /// Human-readable model text, or a placeholder naming the device.
    pub model: String,
    pub device_type: MediaType,
    pub transport: Transport,
    pub origin: Origin,
}

/// The mathematical content of a [`DiskInfo`].
pub struct DiskView {
    pub path: Seq<char>,
    pub model: Seq<char>,
    pub media: MediaType,
    pub transport: Transport,
    pub origin: Origin,
}

impl View for DiskInfo {
    type V = DiskView;

    open spec fn view(&self) -> DiskView {
        DiskView {
            path: self.device_name@,
            model: self.model@,
            media: self.device_type,
            transport: self.transport,
            origin: self.origin,
        }
    }
}

/// What identifies a device across detection passes: its path, media type
/// and transport, leaving out the model text.
pub open spec fn disk_key(d: DiskView) -> (Seq<char>, MediaType, Transport) {
    (d.path, d.media, d.transport)
}

impl DiskInfo {
    /// A copy of this descriptor.
    pub fn duplicate(&self) -> (r: DiskInfo)
        ensures
            r@ == self@,
    {
        DiskInfo {
            device_name: self.device_name.clone(),
            model: self.model.clone(),
            device_type: self.device_type,
            transport: self.transport,
            origin: self.origin,
        }
    }
}

/// The state that the application shell keeps between commands.
#[derive(Debug)]
pub struct AppState {
    /// The device paths that the user selected for erasure.
    pub selected_disks: Vec<String>,
}

impl Default for AppState {
    fn default() -> (r: AppState)
        ensures
            r.selected_disks@.len() == 0,
    {
        AppState { selected_disks: Vec::new() }
    }
}

} // verus!
