//! The power and backlight mirrors over the kernel's device filesystem.
//!
//! Devices are enumerated from a class directory; each exposes attribute
//! files whose contents are numbers or names surrounded by whitespace.  The
//! mirror decodes attribute values, classifies power-supply devices, matches
//! kernel hot-plug notifications against the watched device, and coalesces
//! polled battery readings so only an actual change is delivered.

use vstd::prelude::*;

use crate::text;

verus! {

/// A device in one class of the device filesystem.
#[derive(Clone, Debug)]
pub struct Device {
    /// Name of the device: the directory name.
    pub name: String,
    /// The device's directory path.
    pub path: String,
}

impl Device {
    /// A device of a class directory, named by its directory entry.
    pub fn new(class_dir: &str, name: &str) -> (r: Self)
        ensures
            r.name@ == name@,
            r.path@ == class_dir@ + "/"@ + name@,
    {
        let mut path = class_dir.to_owned();
        path.append("/");
        path.append(name);
        Device { name: name.to_owned(), path }
    }

    /// The path of one attribute file of this device.
    pub fn attribute_path(&self, attribute: &str) -> (r: String)
        ensures
            r@ == self.path@ + "/"@ + attribute@,
    {
        let mut path = self.path.clone();
        path.append("/");
        path.append(attribute);
        path
    }

    /// An exact copy.
    pub fn duplicate(&self) -> (r: Self)
        ensures
            r == *self,
    {
        Device { name: self.name.clone(), path: self.path.clone() }
    }
}

/// Decodes an integer attribute file: the number its trimmed contents
/// denote, if they form a signed decimal numeral in range.
pub fn parse_attribute_int(raw: &str) -> (r: Option<i64>)
    ensures
        ({
            let t = text::trimmed(raw@);
            match r {
                Some(v) => text::is_signed_numeral(t) && v == text::signed_value(t),
                None => !text::is_signed_numeral(t) || text::signed_value(t) > i64::MAX
                    || text::signed_value(t) < i64::MIN,
            }
        }),
{
    text::parse_i64(text::trim(raw))
}

/// The type of a power-supply device.
#[derive(Clone, Copy, Debug, PartialEq, Eq, Structural)]
pub enum PowerDeviceKind {
    /// A mains power supply.
    Mains,
    /// A battery.
    Battery,
    /// Any other supply; it is not mirrored.
    Unknown,
}

impl PowerDeviceKind {
    /// Decodes the `type` attribute, whitespace trimmed; an unrecognized
    /// type is unknown, never an error.
    pub fn parse(string: &str) -> (r: Self)
        ensures
            ({
                let t = text::trimmed(string@);
                if t == "Mains"@ {
                    r is Mains
                } else if t == "Battery"@ {
                    r is Battery
                } else {
                    r is Unknown
                }
            }),
    {
        let t = text::trim(string);
        if text::str_eq(t, "Mains") {
            Self::Mains
        } else if text::str_eq(t, "Battery") {
            Self::Battery
        } else {
            Self::Unknown
        }
    }
}

/// A device of the power-supply class with its decoded type.
#[derive(Clone, Debug)]
pub struct PowerDevice {
    /// The underlying device.
    pub device: Device,
    /// The type of the device.
    pub kind: PowerDeviceKind,
}

impl PowerDevice {
    /// Classifies an enumerated power-supply device by its `type` attribute;
    /// a device whose attribute could not be read is unknown.
    pub fn classify(device: Device, type_attribute: Option<&str>) -> (r: Self)
        ensures
            r.device == device,
            match type_attribute {
                Some(t) => {
                    let v = text::trimmed(t@);
                    if v == "Mains"@ {
                        r.kind is Mains
                    } else if v == "Battery"@ {
                        r.kind is Battery
                    } else {
                        r.kind is Unknown
                    }
                },
                None => r.kind is Unknown,
            },
    {
        let kind = match type_attribute {
            Some(t) => PowerDeviceKind::parse(t),
            None => PowerDeviceKind::Unknown,
        };
        PowerDevice { device, kind }
    }

    /// An exact copy.
    pub fn duplicate(&self) -> (r: Self)
        ensures
            r == *self,
    {
        PowerDevice { device: self.device.duplicate(), kind: self.kind }
    }
}

/// A power-supply device that is a mains supply.
#[derive(Clone, Debug)]
pub struct MainsPowerDevice(pub PowerDevice);

impl MainsPowerDevice {
    /// Decodes the `online` attribute: on exactly when it reads one.
    pub fn online_from_attribute(raw: &str) -> (r: Option<bool>)
        ensures
            ({
                let t = text::trimmed(raw@);
                match r {
                    Some(v) => text::is_signed_numeral(t) && i64::MIN <= text::signed_value(t)
                        <= i64::MAX && v == (text::signed_value(t) == 1),
                    None => !text::is_signed_numeral(t) || text::signed_value(t) > i64::MAX
                        || text::signed_value(t) < i64::MIN,
                }
            }),
    {
        match parse_attribute_int(raw) {
            Some(v) => Some(v == 1),
            None => None,
        }
    }

    /// Whether a hot-plug notification concerns this device: only then is
    /// the online state re-read.
    pub fn matches_event(&self, sysname: &str) -> (r: bool)
        ensures
            r == (sysname@ == self.0.device.name@),
    {
        text::str_eq(sysname, self.0.device.name.as_str())
    }
}

/// A power-supply device that is a battery.
#[derive(Clone, Debug)]
pub struct BatteryPowerDevice(pub PowerDevice);

impl BatteryPowerDevice {
    /// Decodes the `capacity` attribute: the charge as an integer percent.
    pub fn charge_percent_from_attribute(raw: &str) -> (r: Option<i64>)
        ensures
            ({
                let t = text::trimmed(raw@);
                match r {
                    Some(v) => text::is_signed_numeral(t) && v == text::signed_value(t),
                    None => !text::is_signed_numeral(t) || text::signed_value(t) > i64::MAX
                        || text::signed_value(t) < i64::MIN,
                }
            }),
    {
        parse_attribute_int(raw)
    }
}

/// The coalescing state of a polled battery reading: a poll result is
/// delivered only when it differs from the last delivered one, so a slow
/// poll cycle never floods subscribers with echoes.
pub struct ChargePoller {
    /// The last delivered reading.
    pub last: Option<i64>,
}

impl ChargePoller {
    /// A poller that has delivered nothing yet: the first reading is always
    /// delivered.
    pub fn new() -> (r: Self)
        ensures
            r.last is None,
    {
        ChargePoller { last: None }
    }

    /// Takes one poll result: delivered exactly when it differs from the
    /// last delivered reading.
    pub fn on_reading(&mut self, value: i64) -> (emit: bool)
        ensures
            emit == (old(self).last != Some(value)),
            final(self).last == Some(value),
    {
        let emit = match self.last {
            Some(last) => last != value,
            None => true,
        };
        self.last = Some(value);
        emit
    }
}

/// A device of the backlight class with its maximum brightness.
#[derive(Clone, Debug)]
pub struct BacklightDevice {
    /// The underlying device.
    pub device: Device,
    /// Maximum brightness of the device.
    pub max: u32,
}

impl BacklightDevice {
    /// Admits an enumerated backlight device whose `max_brightness`
    /// attribute reads as a number in range; anything else is skipped.
    pub fn accept(device: Device, max_attribute: &str) -> (r: Option<Self>)
        ensures
            ({
                let t = text::trimmed(max_attribute@);
                match r {
                    Some(b) => {
                        &&& b.device == device
                        &&& text::is_signed_numeral(t)
                        &&& 0 <= text::signed_value(t) <= u32::MAX
                        &&& b.max == text::signed_value(t)
                    },
                    None => !text::is_signed_numeral(t) || text::signed_value(t) < 0
                        || text::signed_value(t) > u32::MAX,
                }
            }),
    {
        match parse_attribute_int(max_attribute) {
            Some(v) => {
                if 0 <= v && v <= u32::MAX as i64 {
                    Some(BacklightDevice { device, max: v as u32 })
                } else {
                    None
                }
            },
            None => None,
        }
    }

    /// The brightness as a fraction of the maximum, in thousandths; a
    /// degenerate device with no range reads as dark.
    pub fn brightness_permille(&self, brightness: u32) -> (r: u64)
        ensures
            self.max > 0 ==> r == brightness * 1000 / self.max as int,
            self.max == 0 ==> r == 0,
    {
        if self.max == 0 {
            return 0;
        }
        (brightness as u64 * 1000) / self.max as u64
    }

    /// Whether a hot-plug notification concerns this device.
    pub fn matches_event(&self, sysname: &str) -> (r: bool)
        ensures
            r == (sysname@ == self.device.name@),
    {
        text::str_eq(sysname, self.device.name.as_str())
    }
}

} // verus!
