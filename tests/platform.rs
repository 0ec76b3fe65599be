use early_boot::api_trait::{EventCacheUpdatePolicy, SubscriptionState};
use early_boot::error::{CoreError, ECode};
use early_boot::ids::{DacId, PlatformDacIds};
use early_boot::instance_specifier::InstanceSpecifier;
use early_boot::timesync::TimeBaseType;
use early_boot::{id_of_service, is_platform_service_id};

#[test]
fn platform_ids() {
    assert_eq!(PlatformDacIds::ReadProc.id(), 3009);
    assert_eq!(PlatformDacIds::Root.id(), 0);
    assert_eq!(PlatformDacIds::LifecycleManager.id(), 1078);
    assert_eq!(DacId::from(PlatformDacIds::Shell).get(), 2000);
    assert_eq!(PlatformDacIds::get_system_id(0).unwrap().get(), 6000);
    assert_eq!(PlatformDacIds::get_system_id(499).unwrap().get(), 6499);
    assert_eq!(PlatformDacIds::get_system_id(500).unwrap_err(), CoreError::InputOutOfRange);
    assert_eq!(PlatformDacIds::get_odm_id(10).unwrap().get(), 7010);
    assert_eq!(PlatformDacIds::get_oem_id(10).unwrap().get(), 7010);
    assert_eq!(PlatformDacIds::get_oem_id(u32::MAX).unwrap_err(), CoreError::InvalidArgument);
    assert_eq!(PlatformDacIds::get_isolated_id(9999).unwrap().get(), 99999);
    assert_eq!(PlatformDacIds::get_user_id(800000).unwrap().get(), 900000);
    assert_eq!(PlatformDacIds::get_user_id(u32::MAX).unwrap_err(), CoreError::InputOutOfRange);
}

#[test]
fn service_ids() {
    assert_eq!(id_of_service("dev.sabaton.ApplicationControl"), Some(1));
    assert_eq!(id_of_service("dev.sabaton.LifecycleControl"), Some(2));
    assert_eq!(id_of_service("dev.sabaton.ApplicationServer"), Some(3));
    assert_eq!(id_of_service("dev.sabaton.Other"), None);
    assert!(is_platform_service_id(1024));
    assert!(!is_platform_service_id(1025));
}

#[test]
fn instance_specifier_keeps_name() {
    let s = InstanceSpecifier::from("/app/instance").unwrap();
    assert_eq!(s.get(), "/app/instance");
}

#[test]
fn plain_values() {
    assert_eq!(ECode::from_raw_error(-2), ECode(-2));
    assert_eq!(CoreError::ErrorCode(ECode(5)), CoreError::ErrorCode(ECode::from_raw_error(5)));
    assert_ne!(EventCacheUpdatePolicy::LastN(1), EventCacheUpdatePolicy::NewestN(1));
    assert_ne!(SubscriptionState::Subscribed, SubscriptionState::Unsubscribed);
    assert_ne!(TimeBaseType::Local, TimeBaseType::OffsetMaster);
}
