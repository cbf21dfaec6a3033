use spell_framework::wayland_adapter::window::wayland::{
    Capability, NewDevice, ReleasedDevice, SeatDevices,
};

type Devices = SeatDevices<&'static str, &'static str, &'static str, u32>;

#[test]
fn new_capability_asks_for_missing_devices_only() {
    let mut devices: Devices = SeatDevices::new();
    assert_eq!(devices.new_capability(Capability::Keyboard), Some(Capability::Keyboard));
    devices.store_device(NewDevice::Keyboard("kbd"));
    assert_eq!(devices.new_capability(Capability::Keyboard), None);
    assert_eq!(devices.new_capability(Capability::Pointer), Some(Capability::Pointer));
    assert_eq!(devices.new_capability(Capability::Touch), Some(Capability::Touch));
}

#[test]
fn store_device_fills_only_its_slot() {
    let mut devices: Devices = SeatDevices::new();
    devices.store_device(NewDevice::Touch("touch"));
    assert_eq!(devices.touch, Some("touch"));
    assert_eq!(devices.keyboard, None);
    assert_eq!(devices.pointer, None);
    assert_eq!(devices.pointer_data, None);
    devices.store_device(NewDevice::Pointer("ptr", 7));
    assert_eq!(devices.pointer, Some("ptr"));
    assert_eq!(devices.pointer_data, Some(7));
    assert_eq!(devices.touch, Some("touch"));
}

#[test]
fn remove_capability_releases_that_device() {
    let mut devices: Devices = SeatDevices::new();
    devices.store_device(NewDevice::Keyboard("kbd"));
    devices.store_device(NewDevice::Pointer("ptr", 3));
    match devices.remove_capability(Capability::Pointer) {
        Some(ReleasedDevice::Pointer(p)) => assert_eq!(p, "ptr"),
        _ => panic!("the pointer should be released"),
    }
    assert_eq!(devices.pointer, None);
    assert_eq!(devices.pointer_data, Some(3));
    assert_eq!(devices.keyboard, Some("kbd"));
    assert!(devices.remove_capability(Capability::Touch).is_none());
    assert!(devices.remove_capability(Capability::Pointer).is_none());
}

#[test]
fn lost_capability_is_asked_for_again() {
    let mut devices: Devices = SeatDevices::new();
    devices.store_device(NewDevice::Touch("touch"));
    assert_eq!(devices.new_capability(Capability::Touch), None);
    match devices.remove_capability(Capability::Touch) {
        Some(ReleasedDevice::Touch(t)) => assert_eq!(t, "touch"),
        _ => panic!("the touch device should be released"),
    }
    assert_eq!(devices.new_capability(Capability::Touch), Some(Capability::Touch));
}
