//! Decisions of the window's seat handling: which input device to create
//! when a seat gains a capability, how the created device is held, and which
//! device to release when the seat loses a capability.
use vstd::prelude::*;

verus! {

/// A capability that a seat gains or loses.
#[derive(Debug, Clone, Copy, PartialEq, Eq, Structural)]
pub enum Capability {
    Keyboard,
    Pointer,
    Touch,
}

/// The input devices the window holds on its seat, one of each kind at most,
/// and the data of the seat its pointer was created on. That data is set
/// with the pointer and kept when the pointer is released.
pub struct SeatDevices<K, P, T, D> {
    pub keyboard: Option<K>,
    pub pointer: Option<P>,
    pub touch: Option<T>,
    pub pointer_data: Option<D>,
}

/// A device created for a capability the seat gained; a pointer comes with
/// the data of its seat.
pub enum NewDevice<K, P, T, D> {
    Keyboard(K),
    Pointer(P, D),
    Touch(T),
}

impl<K, P, T, D> NewDevice<K, P, T, D> {
    /// The capability the device serves.
    pub open spec fn capability(&self) -> Capability {
        match self {
            NewDevice::Keyboard(_) => Capability::Keyboard,
            NewDevice::Pointer(_, _) => Capability::Pointer,
            NewDevice::Touch(_) => Capability::Touch,
        }
    }
}

/// A device that a lost capability takes away, to be released.
pub enum ReleasedDevice<K, P, T> {
    Keyboard(K),
    Pointer(P),
    Touch(T),
}

impl<K, P, T, D> SeatDevices<K, P, T, D> {
    /// The window holds a device for `capability`.
    pub open spec fn has(&self, capability: Capability) -> bool {
        match capability {
            Capability::Keyboard => self.keyboard is Some,
            Capability::Pointer => self.pointer is Some,
            Capability::Touch => self.touch is Some,
        }
    }

    /// The device held for `capability`, as it is handed back when released.
    pub open spec fn device_of(&self, capability: Capability) -> Option<ReleasedDevice<K, P, T>> {
        match capability {
            Capability::Keyboard => match self.keyboard {
                Some(k) => Some(ReleasedDevice::Keyboard(k)),
                None => None,
            },
            Capability::Pointer => match self.pointer {
                Some(p) => Some(ReleasedDevice::Pointer(p)),
                None => None,
            },
            Capability::Touch => match self.touch {
                Some(t) => Some(ReleasedDevice::Touch(t)),
                None => None,
            },
        }
    }

    /// These devices without the one for `capability`; the pointer's seat
    /// data stays.
    pub open spec fn without(self, capability: Capability) -> Self {
        match capability {
            Capability::Keyboard => SeatDevices { keyboard: None, ..self },
            Capability::Pointer => SeatDevices { pointer: None, ..self },
            Capability::Touch => SeatDevices { touch: None, ..self },
        }
    }

    /// These devices holding `device` in the slot of its capability, a
    /// pointer with its seat data; the other slots unchanged.
    pub open spec fn with_device(self, device: NewDevice<K, P, T, D>) -> Self {
        match device {
            NewDevice::Keyboard(k) => SeatDevices { keyboard: Some(k), ..self },
            NewDevice::Pointer(p, d) => SeatDevices { pointer: Some(p), pointer_data: Some(d), ..self },
            NewDevice::Touch(t) => SeatDevices { touch: Some(t), ..self },
        }
    }

    /// No device yet.
    pub fn new() -> (r: Self)
        ensures
            !r.has(Capability::Keyboard),
            !r.has(Capability::Pointer),
            !r.has(Capability::Touch),
            r.pointer_data is None,
    {
        SeatDevices { keyboard: None, pointer: None, touch: None, pointer_data: None }
    }

    /// The device to create when the seat gains `capability`: that
    /// capability's, where the window holds none yet.
    pub fn new_capability(&self, capability: Capability) -> (r: Option<Capability>)
        ensures
            r == (if self.has(capability) { None } else { Some(capability) }),
    {
        if capability == Capability::Keyboard && self.keyboard.is_none() {
            return Some(Capability::Keyboard);
        }
        if capability == Capability::Touch && self.touch.is_none() {
            return Some(Capability::Touch);
        }
        if capability == Capability::Pointer && self.pointer.is_none() {
            return Some(Capability::Pointer);
        }
        None
    }

    /// Holds `device`, created for a capability the seat gained, in the slot
    /// of its capability; a pointer's seat data is kept beside it.
    pub fn store_device(&mut self, device: NewDevice<K, P, T, D>)
        ensures
            *final(self) == old(self).with_device(device),
    {
        match device {
            NewDevice::Keyboard(k) => {
                self.keyboard = Some(k);
            },
            NewDevice::Pointer(p, d) => {
                self.pointer = Some(p);
                self.pointer_data = Some(d);
            },
            NewDevice::Touch(t) => {
                self.touch = Some(t);
            },
        }
    }

    /// Takes away the device of a capability that the seat lost, handing it
    /// back to be released; `None` where the window held none.
    pub fn remove_capability(&mut self, capability: Capability) -> (r: Option<ReleasedDevice<K, P, T>>)
        ensures
            *final(self) == old(self).without(capability),
            r == old(self).device_of(capability),
            r is Some == old(self).has(capability),
    {
        if capability == Capability::Keyboard && self.keyboard.is_some() {
            return Some(ReleasedDevice::Keyboard(self.keyboard.take().unwrap()));
        }
        if capability == Capability::Pointer && self.pointer.is_some() {
            return Some(ReleasedDevice::Pointer(self.pointer.take().unwrap()));
        }
        if capability == Capability::Touch && self.touch.is_some() {
            return Some(ReleasedDevice::Touch(self.touch.take().unwrap()));
        }
        None
    }
}

/// Law: a device released for a lost capability is asked for again when the
/// seat gains that capability back, and losing one capability touches the
/// devices of no other.
pub proof fn law_lost_capability_is_recreated<K, P, T, D>(
    devices: SeatDevices<K, P, T, D>,
    lost: Capability,
    other: Capability,
)
    requires
        other != lost,
    ensures
        !devices.without(lost).has(lost),
        devices.without(lost).has(other) == devices.has(other),
        devices.without(lost).device_of(other) == devices.device_of(other),
{
}

/// Law: a device stored for a gained capability is held afterwards, no more
/// is asked for that capability, the other slots keep their devices, and
/// losing the capability releases exactly that device and leaves the slot
/// empty again, the pointer's seat data kept.
pub proof fn law_stored_device_is_released<K, P, T, D>(
    devices: SeatDevices<K, P, T, D>,
    device: NewDevice<K, P, T, D>,
    other: Capability,
)
    requires
        other != device.capability(),
    ensures
        devices.with_device(device).has(device.capability()),
        devices.with_device(device).device_of(other) == devices.device_of(other),
        devices.with_device(device).device_of(device.capability()) == Some(match device {
            NewDevice::Keyboard(k) => ReleasedDevice::<K, P, T>::Keyboard(k),
            NewDevice::Pointer(p, _) => ReleasedDevice::<K, P, T>::Pointer(p),
            NewDevice::Touch(t) => ReleasedDevice::<K, P, T>::Touch(t),
        }),
        !devices.with_device(device).without(device.capability()).has(device.capability()),
        devices.with_device(device).without(device.capability()).device_of(other) == devices.device_of(other),
        device matches NewDevice::Pointer(_, d) ==> devices.with_device(device).without(Capability::Pointer).pointer_data
            == Some(d),
{
}

} // verus!
