//! User and group ids reserved by the platform.
use vstd::prelude::*;

use crate::error::CoreError;

verus! {

/// A user or group id.
#[derive(Debug, Clone, Copy, PartialEq, Eq, Structural)]
pub struct DacId(pub u32);

impl DacId {
    pub fn get(&self) -> (r: u32)
        ensures
            r == self.0,
    {
        self.0
    }
}

/// Ids used for DAC configuration, defined by the platform. These ids must
/// not be changed.
#[derive(Debug, Clone, Copy, PartialEq, Eq, Structural)]
pub enum PlatformDacIds {
    Root,
    Daemon,
    Bin,
    System,
    Radio,
    Bluetooth,
    Graphics,
    Input,
    Audio,
    Camera,
    Log,
    Compass,
    Mount,
    Wifi,
    Debug,
    Install,
    Media,
    Dhcp,
    RemovableStorageRW,
    Vpn,
    Keystore,
    Usb,
    Drm,
    Mdns,
    Gps,
    Reserved1,
    MediaRW,
    Mtp,
    Reserved2,
    DrmRpc,
    Nfc,
    RemovableStorageR,
    Clat,
    Reserved3,
    MediaDrm,
    PackageInfo,
    Reserved4,
    Reserved5,
    Reserved6,
    LogDaemon,
    Reserved7,
    DBus,
    TlsDate,
    Reserved8,
    AudioManager,
    MetricsCollector,
    Reserved9,
    Webserver,
    Debugger,
    MediaCodec,
    Unused,
    Firewall,
    Reserved10,
    Nvram,
    Dns,
    Tether,
    Reserved11,
    VehicleNetwork,
    MediaAudio,
    MediaVideo,
    MediaImage,
    TombstoneD,
    Reserved12,
    EmbeddedSecureElement,
    OtaUpdate,
    EarlyAutomotiveSystem,
    LoWpan,
    Hsm,
    ReservedStorage,
    StatsD,
    IncidentD,
    SecureElement,
    LowMemoryKillerD,
    Reserved13,
    IoReadahead,
    Gpu,
    NetworkStack,
    Reserved14,
    FsVerityCertificate,
    CredentialStore,
    ExternalStorage,
    LifecycleManager,
    Shell,
    Cache,
    Diagnostics,
    ReadProc,
    OemReservedStart,
    OemResedvedEnd,
    SystemReservedStart,
    SystemReservedEnd,
    OdmReservedStart,
    OdmReservedEnd,
    Everybody,
    Misc,
    Nobody,
    IsolatedProcessIdStart,
    IsolatedProcessIdEnd,
    UserStart,
    UserEnd,
}

impl PlatformDacIds {
    /// The numeric id.
    pub open spec fn spec_id(self) -> u32 {
        match self {
            PlatformDacIds::Root => 0,
            PlatformDacIds::Daemon => 1,
            PlatformDacIds::Bin => 2,
            PlatformDacIds::System => 1000,
            PlatformDacIds::Radio => 1001,
            PlatformDacIds::Bluetooth => 1002,
            PlatformDacIds::Graphics => 1003,
            PlatformDacIds::Input => 1004,
            PlatformDacIds::Audio => 1005,
            PlatformDacIds::Camera => 1006,
            PlatformDacIds::Log => 1007,
            PlatformDacIds::Compass => 1008,
            PlatformDacIds::Mount => 1009,
            PlatformDacIds::Wifi => 1010,
            PlatformDacIds::Debug => 1011,
            PlatformDacIds::Install => 1012,
            PlatformDacIds::Media => 1013,
            PlatformDacIds::Dhcp => 1014,
            PlatformDacIds::RemovableStorageRW => 1015,
            PlatformDacIds::Vpn => 1016,
            PlatformDacIds::Keystore => 1017,
            PlatformDacIds::Usb => 1018,
            PlatformDacIds::Drm => 1019,
            PlatformDacIds::Mdns => 1020,
            PlatformDacIds::Gps => 1021,
            PlatformDacIds::Reserved1 => 1022,
            PlatformDacIds::MediaRW => 1023,
            PlatformDacIds::Mtp => 1024,
            PlatformDacIds::Reserved2 => 1025,
            PlatformDacIds::DrmRpc => 1026,
            PlatformDacIds::Nfc => 1027,
            PlatformDacIds::RemovableStorageR => 1028,
            PlatformDacIds::Clat => 1029,
            PlatformDacIds::Reserved3 => 1030,
            PlatformDacIds::MediaDrm => 1031,
            PlatformDacIds::PackageInfo => 1032,
            PlatformDacIds::Reserved4 => 1033,
            PlatformDacIds::Reserved5 => 1034,
            PlatformDacIds::Reserved6 => 1035,
            PlatformDacIds::LogDaemon => 1036,
            PlatformDacIds::Reserved7 => 1037,
            PlatformDacIds::DBus => 1038,
            PlatformDacIds::TlsDate => 1039,
            PlatformDacIds::Reserved8 => 1040,
            PlatformDacIds::AudioManager => 1041,
            PlatformDacIds::MetricsCollector => 1042,
            PlatformDacIds::Reserved9 => 1043,
            PlatformDacIds::Webserver => 1044,
            PlatformDacIds::Debugger => 1045,
            PlatformDacIds::MediaCodec => 1046,
            PlatformDacIds::Unused => 1047,
            PlatformDacIds::Firewall => 1048,
            PlatformDacIds::Reserved10 => 1049,
            PlatformDacIds::Nvram => 1050,
            PlatformDacIds::Dns => 1051,
            PlatformDacIds::Tether => 1052,
            PlatformDacIds::Reserved11 => 1053,
            PlatformDacIds::VehicleNetwork => 1054,
            PlatformDacIds::MediaAudio => 1055,
            PlatformDacIds::MediaVideo => 1056,
            PlatformDacIds::MediaImage => 1057,
            PlatformDacIds::TombstoneD => 1058,
            PlatformDacIds::Reserved12 => 1059,
            PlatformDacIds::EmbeddedSecureElement => 1060,
            PlatformDacIds::OtaUpdate => 1061,
            PlatformDacIds::EarlyAutomotiveSystem => 1062,
            PlatformDacIds::LoWpan => 1063,
            PlatformDacIds::Hsm => 1064,
            PlatformDacIds::ReservedStorage => 1065,
            PlatformDacIds::StatsD => 1066,
            PlatformDacIds::IncidentD => 1067,
            PlatformDacIds::SecureElement => 1068,
            PlatformDacIds::LowMemoryKillerD => 1069,
            PlatformDacIds::Reserved13 => 1070,
            PlatformDacIds::IoReadahead => 1071,
            PlatformDacIds::Gpu => 1072,
            PlatformDacIds::NetworkStack => 1073,
            PlatformDacIds::Reserved14 => 1074,
            PlatformDacIds::FsVerityCertificate => 1075,
            PlatformDacIds::CredentialStore => 1076,
            PlatformDacIds::ExternalStorage => 1077,
            PlatformDacIds::LifecycleManager => 1078,
            PlatformDacIds::Shell => 2000,
            PlatformDacIds::Cache => 2001,
            PlatformDacIds::Diagnostics => 2002,
            PlatformDacIds::ReadProc => 3009,
            PlatformDacIds::OemReservedStart => 5000,
            PlatformDacIds::OemResedvedEnd => 5999,
            PlatformDacIds::SystemReservedStart => 6000,
            PlatformDacIds::SystemReservedEnd => 6499,
            PlatformDacIds::OdmReservedStart => 7000,
            PlatformDacIds::OdmReservedEnd => 7499,
            PlatformDacIds::Everybody => 9997,
            PlatformDacIds::Misc => 9998,
            PlatformDacIds::Nobody => 9999,
            PlatformDacIds::IsolatedProcessIdStart => 90000,
            PlatformDacIds::IsolatedProcessIdEnd => 99999,
            PlatformDacIds::UserStart => 100000,
            PlatformDacIds::UserEnd => 900000,
        }
    }

    /// The numeric id.
    pub fn id(&self) -> (r: u32)
        ensures
            r == self.spec_id(),
    {
        match self {
            PlatformDacIds::Root => 0,
            PlatformDacIds::Daemon => 1,
            PlatformDacIds::Bin => 2,
            PlatformDacIds::System => 1000,
            PlatformDacIds::Radio => 1001,
            PlatformDacIds::Bluetooth => 1002,
            PlatformDacIds::Graphics => 1003,
            PlatformDacIds::Input => 1004,
            PlatformDacIds::Audio => 1005,
            PlatformDacIds::Camera => 1006,
            PlatformDacIds::Log => 1007,
            PlatformDacIds::Compass => 1008,
            PlatformDacIds::Mount => 1009,
            PlatformDacIds::Wifi => 1010,
            PlatformDacIds::Debug => 1011,
            PlatformDacIds::Install => 1012,
            PlatformDacIds::Media => 1013,
            PlatformDacIds::Dhcp => 1014,
            PlatformDacIds::RemovableStorageRW => 1015,
            PlatformDacIds::Vpn => 1016,
            PlatformDacIds::Keystore => 1017,
            PlatformDacIds::Usb => 1018,
            PlatformDacIds::Drm => 1019,
            PlatformDacIds::Mdns => 1020,
            PlatformDacIds::Gps => 1021,
            PlatformDacIds::Reserved1 => 1022,
            PlatformDacIds::MediaRW => 1023,
            PlatformDacIds::Mtp => 1024,
            PlatformDacIds::Reserved2 => 1025,
            PlatformDacIds::DrmRpc => 1026,
            PlatformDacIds::Nfc => 1027,
            PlatformDacIds::RemovableStorageR => 1028,
            PlatformDacIds::Clat => 1029,
            PlatformDacIds::Reserved3 => 1030,
            PlatformDacIds::MediaDrm => 1031,
            PlatformDacIds::PackageInfo => 1032,
            PlatformDacIds::Reserved4 => 1033,
            PlatformDacIds::Reserved5 => 1034,
            PlatformDacIds::Reserved6 => 1035,
            PlatformDacIds::LogDaemon => 1036,
            PlatformDacIds::Reserved7 => 1037,
            PlatformDacIds::DBus => 1038,
            PlatformDacIds::TlsDate => 1039,
            PlatformDacIds::Reserved8 => 1040,
            PlatformDacIds::AudioManager => 1041,
            PlatformDacIds::MetricsCollector => 1042,
            PlatformDacIds::Reserved9 => 1043,
            PlatformDacIds::Webserver => 1044,
            PlatformDacIds::Debugger => 1045,
            PlatformDacIds::MediaCodec => 1046,
            PlatformDacIds::Unused => 1047,
            PlatformDacIds::Firewall => 1048,
            PlatformDacIds::Reserved10 => 1049,
            PlatformDacIds::Nvram => 1050,
            PlatformDacIds::Dns => 1051,
            PlatformDacIds::Tether => 1052,
            PlatformDacIds::Reserved11 => 1053,
            PlatformDacIds::VehicleNetwork => 1054,
            PlatformDacIds::MediaAudio => 1055,
            PlatformDacIds::MediaVideo => 1056,
            PlatformDacIds::MediaImage => 1057,
            PlatformDacIds::TombstoneD => 1058,
            PlatformDacIds::Reserved12 => 1059,
            PlatformDacIds::EmbeddedSecureElement => 1060,
            PlatformDacIds::OtaUpdate => 1061,
            PlatformDacIds::EarlyAutomotiveSystem => 1062,
            PlatformDacIds::LoWpan => 1063,
            PlatformDacIds::Hsm => 1064,
            PlatformDacIds::ReservedStorage => 1065,
            PlatformDacIds::StatsD => 1066,
            PlatformDacIds::IncidentD => 1067,
            PlatformDacIds::SecureElement => 1068,
            PlatformDacIds::LowMemoryKillerD => 1069,
            PlatformDacIds::Reserved13 => 1070,
            PlatformDacIds::IoReadahead => 1071,
            PlatformDacIds::Gpu => 1072,
            PlatformDacIds::NetworkStack => 1073,
            PlatformDacIds::Reserved14 => 1074,
            PlatformDacIds::FsVerityCertificate => 1075,
            PlatformDacIds::CredentialStore => 1076,
            PlatformDacIds::ExternalStorage => 1077,
            PlatformDacIds::LifecycleManager => 1078,
            PlatformDacIds::Shell => 2000,
            PlatformDacIds::Cache => 2001,
            PlatformDacIds::Diagnostics => 2002,
            PlatformDacIds::ReadProc => 3009,
            PlatformDacIds::OemReservedStart => 5000,
            PlatformDacIds::OemResedvedEnd => 5999,
            PlatformDacIds::SystemReservedStart => 6000,
            PlatformDacIds::SystemReservedEnd => 6499,
            PlatformDacIds::OdmReservedStart => 7000,
            PlatformDacIds::OdmReservedEnd => 7499,
            PlatformDacIds::Everybody => 9997,
            PlatformDacIds::Misc => 9998,
            PlatformDacIds::Nobody => 9999,
            PlatformDacIds::IsolatedProcessIdStart => 90000,
            PlatformDacIds::IsolatedProcessIdEnd => 99999,
            PlatformDacIds::UserStart => 100000,
            PlatformDacIds::UserEnd => 900000,
        }
    }

    /// The id at `offset` in the range of the first to the last id given;
    /// `err` when it lies past the last.
    fn in_range(first: PlatformDacIds, last: PlatformDacIds, offset: u32, err: CoreError) -> (r: Result<
        DacId,
        CoreError,
    >)
        requires
            first.spec_id() <= last.spec_id(),
        ensures
            first.spec_id() + offset <= last.spec_id() ==> r == Ok::<DacId, CoreError>(
                DacId((first.spec_id() + offset) as u32),
            ),
            first.spec_id() + offset > last.spec_id() ==> r == Err::<DacId, CoreError>(err),
    {
        let start = first.id();
        let end = last.id();
        if offset <= end - start {
            Ok(DacId(start + offset))
        } else {
            Err(err)
        }
    }

    /// An id reserved for OEM use, at `offset` from the start of the
    /// reserved range; `InvalidArgument` past its end.
    pub fn get_oem_id(offset: u32) -> (r: Result<DacId, CoreError>)
        ensures
            offset <= 499 ==> r == Ok::<DacId, CoreError>(DacId((7000 + offset) as u32)),
            offset > 499 ==> r == Err::<DacId, CoreError>(CoreError::InvalidArgument),
    {
        Self::in_range(
            PlatformDacIds::OdmReservedStart,
            PlatformDacIds::OdmReservedEnd,
            offset,
            CoreError::InvalidArgument,
        )
    }

    /// An id of the system's reserved range, at `offset` from its start;
    /// `InputOutOfRange` past its end.
    pub fn get_system_id(offset: u32) -> (r: Result<DacId, CoreError>)
        ensures
            offset <= 499 ==> r == Ok::<DacId, CoreError>(DacId((6000 + offset) as u32)),
            offset > 499 ==> r == Err::<DacId, CoreError>(CoreError::InputOutOfRange),
    {
        Self::in_range(
            PlatformDacIds::SystemReservedStart,
            PlatformDacIds::SystemReservedEnd,
            offset,
            CoreError::InputOutOfRange,
        )
    }

    /// An id of the ODM's reserved range, at `offset` from its start;
    /// `InputOutOfRange` past its end.
    pub fn get_odm_id(offset: u32) -> (r: Result<DacId, CoreError>)
        ensures
            offset <= 499 ==> r == Ok::<DacId, CoreError>(DacId((7000 + offset) as u32)),
            offset > 499 ==> r == Err::<DacId, CoreError>(CoreError::InputOutOfRange),
    {
        Self::in_range(
            PlatformDacIds::OdmReservedStart,
            PlatformDacIds::OdmReservedEnd,
            offset,
            CoreError::InputOutOfRange,
        )
    }

    /// An id for an isolated process, at `offset` from the start of their
    /// range; `InputOutOfRange` past its end.
    pub fn get_isolated_id(offset: u32) -> (r: Result<DacId, CoreError>)
        ensures
            offset <= 9999 ==> r == Ok::<DacId, CoreError>(DacId((90000 + offset) as u32)),
            offset > 9999 ==> r == Err::<DacId, CoreError>(CoreError::InputOutOfRange),
    {
        Self::in_range(
            PlatformDacIds::IsolatedProcessIdStart,
            PlatformDacIds::IsolatedProcessIdEnd,
            offset,
            CoreError::InputOutOfRange,
        )
    }

    /// A user id, at `offset` from the start of the user range;
    /// `InputOutOfRange` past its end.
    pub fn get_user_id(offset: u32) -> (r: Result<DacId, CoreError>)
        ensures
            offset <= 800000 ==> r == Ok::<DacId, CoreError>(DacId((100000 + offset) as u32)),
            offset > 800000 ==> r == Err::<DacId, CoreError>(CoreError::InputOutOfRange),
    {
        Self::in_range(
            PlatformDacIds::UserStart,
            PlatformDacIds::UserEnd,
            offset,
            CoreError::InputOutOfRange,
        )
    }
}

impl From<PlatformDacIds> for DacId {
    fn from(id: PlatformDacIds) -> (r: Self)
        ensures
            r == DacId(id.spec_id()),
    {
        DacId(id.id())
    }
}

impl vstd::std_specs::convert::FromSpecImpl<PlatformDacIds> for DacId {
    open spec fn obeys_from_spec() -> bool {
        true
    }

    open spec fn from_spec(id: PlatformDacIds) -> Self {
        DacId(id.spec_id())
    }
}

} // verus!
