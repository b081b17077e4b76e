use vstd::prelude::*;
use crate::text::text_eq;

verus! {

/// The hardware controllers that slidershim reads directly.
#[derive(Debug, Clone, Copy, PartialEq, Eq, Structural)]
pub enum HardwareSpec {
    TasollerOne,
    TasollerTwo,
    Yuancon,
    YuanconThree,
    Yubideck,
    YubideckThree,
}

/// The Brokenithm page layouts.
#[derive(Debug, Clone, Copy, PartialEq, Eq, Structural)]
pub enum BrokenithmSpec {
    Basic,
    GroundOnly,
    Nostalgia,
}

/// The input device selected in the settings.
#[derive(Debug, Clone)]
pub enum DeviceMode {
    NoDevice,
    Hardware { spec: HardwareSpec, disable_air: bool },
    Brokenithm { spec: BrokenithmSpec, lights_enabled: bool, port: u16, ground_percent: u8 },
    DivaSlider { port: String, brightness: u8 },
}

/// What a [`DeviceMode`] is, with the serial port name taken by its characters.
pub enum DeviceModeView {
    NoDevice,
    Hardware { spec: HardwareSpec, disable_air: bool },
    Brokenithm { spec: BrokenithmSpec, lights_enabled: bool, port: u16, ground_percent: u8 },
    DivaSlider { port: Seq<char>, brightness: u8 },
}

impl View for DeviceMode {
    type V = DeviceModeView;

    open spec fn view(&self) -> DeviceModeView {
        match self {
            DeviceMode::NoDevice => DeviceModeView::NoDevice,
            DeviceMode::Hardware { spec, disable_air } => DeviceModeView::Hardware {
                spec: *spec,
                disable_air: *disable_air,
            },
            DeviceMode::Brokenithm { spec, lights_enabled, port, ground_percent } =>
                DeviceModeView::Brokenithm {
                spec: *spec,
                lights_enabled: *lights_enabled,
                port: *port,
                ground_percent: *ground_percent,
            },
            DeviceMode::DivaSlider { port, brightness } => DeviceModeView::DivaSlider {
                port: port@,
                brightness: *brightness,
            },
        }
    }
}


/// The value of one setting, as far as device selection reads it: a JSON
/// boolean, string or integer; every other JSON value (null, a float, an array,
/// an object) is `Other`.
#[derive(Debug, Clone, Default)]
pub enum ConfigField {
    #[default]
    Other,
    Bool(bool),
    Text(String),
    Integer(i128),
}

impl ConfigField {
    pub open spec fn spec_as_str(self) -> Option<Seq<char>> {
        match self {
            ConfigField::Text(s) => Some(s@),
            _ => None,
        }
    }

    pub open spec fn spec_as_bool(self) -> Option<bool> {
        match self {
            ConfigField::Bool(b) => Some(b),
            _ => None,
        }
    }

    /// The integer, where it fits in an `i64`.
    pub open spec fn spec_as_i64(self) -> Option<i64> {
        match self {
            ConfigField::Integer(n) => if i64::MIN <= n <= i64::MAX {
                Some(n as i64)
            } else {
                None
            },
            _ => None,
        }
    }

    /// The integer, where it fits in a `u64`.
    pub open spec fn spec_as_u64(self) -> Option<u64> {
        match self {
            ConfigField::Integer(n) => if 0 <= n <= u64::MAX {
                Some(n as u64)
            } else {
                None
            },
            _ => None,
        }
    }

    pub fn as_str(&self) -> (r: Option<&str>)
        ensures
            r matches Some(s) ==> self.spec_as_str() == Some(s@),
            r is None ==> self.spec_as_str() is None,
    {
        match self {
            ConfigField::Text(s) => Some(s.as_str()),
            _ => None,
        }
    }

    pub fn as_bool(&self) -> (r: Option<bool>)
        ensures
            r == self.spec_as_bool(),
    {
        match self {
            ConfigField::Bool(b) => Some(*b),
            _ => None,
        }
    }

    pub fn as_i64(&self) -> (r: Option<i64>)
        ensures
            r == self.spec_as_i64(),
    {
        match self {
            ConfigField::Integer(n) => if i64::MIN as i128 <= *n && *n <= i64::MAX as i128 {
                Some(*n as i64)
            } else {
                None
            },
            _ => None,
        }
    }

    pub fn as_u64(&self) -> (r: Option<u64>)
        ensures
            r == self.spec_as_u64(),
    {
        match self {
            ConfigField::Integer(n) => if 0 <= *n && *n <= u64::MAX as i128 {
                Some(*n as u64)
            } else {
                None
            },
            _ => None,
        }
    }
}

/// The settings object: its members, in order, by name. Names are unique,
/// as in a JSON object; a name that is absent reads as JSON null.
#[derive(Debug, Clone, Default)]
pub struct ConfigValue {
    pub entries: Vec<(String, ConfigField)>,
}

/// The member named `key`, or `Other` (null) where there is none.
pub open spec fn lookup_field(entries: Seq<(String, ConfigField)>, key: Seq<char>) -> ConfigField
    decreases entries.len(),
{
    if entries.len() == 0 {
        ConfigField::Other
    } else if entries[0].0@ == key {
        entries[0].1
    } else {
        lookup_field(entries.drop_first(), key)
    }
}

impl ConfigValue {
    pub open spec fn field(&self, key: Seq<char>) -> ConfigField {
        lookup_field(self.entries@, key)
    }

    /// The member named `key`; `None` where there is no such member.
    pub fn get(&self, key: &str) -> (r: Option<&ConfigField>)
        ensures
            r matches Some(f) ==> *f == self.field(key@),
            r is None ==> self.field(key@) == ConfigField::Other,
    {
        let mut i: usize = 0;
        assert(self.entries@.skip(0) =~= self.entries@);
        while i < self.entries.len()
            invariant
                i <= self.entries@.len(),
                lookup_field(self.entries@, key@) == lookup_field(self.entries@.skip(i as int), key@),
            decreases self.entries@.len() - i,
        {
            assert(self.entries@.skip(i as int)[0] == self.entries@[i as int]);
            if text_eq(self.entries[i].0.as_str(), key) {
                return Some(&self.entries[i].1);
            }
            assert(self.entries@.skip(i as int).drop_first() =~= self.entries@.skip(i + 1));
            i = i + 1;
        }
        None
    }

    /// `self[key].as_str()`.
    fn text(&self, key: &str) -> (r: Option<&str>)
        ensures
            r matches Some(t) ==> self.field(key@).spec_as_str() == Some(t@),
            r is None ==> self.field(key@).spec_as_str() is None,
    {
        match self.get(key) {
            Some(f) => f.as_str(),
            None => None,
        }
    }

    /// `self[key].as_bool()`.
    fn flag(&self, key: &str) -> (r: Option<bool>)
        ensures
            r == self.field(key@).spec_as_bool(),
    {
        match self.get(key) {
            Some(f) => f.as_bool(),
            None => None,
        }
    }

    /// `self[key].as_i64()`.
    fn signed(&self, key: &str) -> (r: Option<i64>)
        ensures
            r == self.field(key@).spec_as_i64(),
    {
        match self.get(key) {
            Some(f) => f.as_i64(),
            None => None,
        }
    }

    /// `self[key].as_u64()`.
    fn unsigned(&self, key: &str) -> (r: Option<u64>)
        ensures
            r == self.field(key@).spec_as_u64(),
    {
        match self.get(key) {
            Some(f) => f.as_u64(),
            None => None,
        }
    }
}

/// The port that Brokenithm listens on where the configured one does not fit in a `u16`.
pub const DEFAULT_BROKENITHM_PORT: u16 = 1606;

/// The ground share that a settings object without a usable one gets.
pub const DEFAULT_GROUND_PERCENT: u8 = 50;

pub open spec fn clamp_percent(p: u8) -> u8 {
    if p < 20 {
        20
    } else if p > 80 {
        80
    } else {
        p
    }
}

/// The share of the page's height given to the ground keys: the
/// `brokenithmGroundPercent` member where it is an integer from 0 to 255,
/// else 50, then held to 20..=80.
pub open spec fn spec_ground_percent(v: ConfigValue) -> u8 {
    clamp_percent(
        match v.field("brokenithmGroundPercent"@).spec_as_u64() {
            Some(n) => if n <= 255 {
                n as u8
            } else {
                DEFAULT_GROUND_PERCENT
            },
            None => DEFAULT_GROUND_PERCENT,
        },
    )
}

/// The Brokenithm port: `None` where `brokenithmPort` is no `i64`, else the
/// port where it fits in a `u16`, else 1606.
pub open spec fn spec_brokenithm_port(v: ConfigValue) -> Option<u16> {
    match v.field("brokenithmPort"@).spec_as_i64() {
        Some(n) => Some(
            if 0 <= n <= u16::MAX {
                n as u16
            } else {
                DEFAULT_BROKENITHM_PORT
            },
        ),
        None => None,
    }
}

/// The controller that a `deviceMode` name other than `none`, `diva` and the
/// Brokenithm names selects.
pub open spec fn hardware_named(mode: Seq<char>) -> Option<HardwareSpec> {
    if mode == "tasoller-one"@ {
        Some(HardwareSpec::TasollerOne)
    } else if mode == "tasoller-two"@ {
        Some(HardwareSpec::TasollerTwo)
    } else if mode == "yuancon"@ {
        Some(HardwareSpec::Yuancon)
    } else if mode == "yuancon-three"@ {
        Some(HardwareSpec::YuanconThree)
    } else if mode == "yubideck"@ {
        Some(HardwareSpec::Yubideck)
    } else if mode == "yubideck-three"@ {
        Some(HardwareSpec::YubideckThree)
    } else {
        None
    }
}

/// The layout of the plain and LED Brokenithm modes: ground only when the air
/// strings are disabled.
pub open spec fn brokenithm_layout(disable_air: bool) -> BrokenithmSpec {
    if disable_air {
        BrokenithmSpec::GroundOnly
    } else {
        BrokenithmSpec::Basic
    }
}

/// The device that the settings select for the `deviceMode` named `mode`.
pub open spec fn spec_mode_named(v: ConfigValue, mode: Seq<char>) -> Option<DeviceModeView> {
    if mode == "none"@ {
        Some(DeviceModeView::NoDevice)
    } else if hardware_named(mode) is Some {
        match v.field("disableAirStrings"@).spec_as_bool() {
            Some(b) => Some(DeviceModeView::Hardware { spec: hardware_named(mode).unwrap(), disable_air: b }),
            None => None,
        }
    } else if mode == "diva"@ {
        match (v.field("divaSerialPort"@).spec_as_str(), v.field("divaBrightness"@).spec_as_i64()) {
            (Some(port), Some(b)) => if 0 <= b <= 255 {
                Some(DeviceModeView::DivaSlider { port, brightness: b as u8 })
            } else {
                None
            },
            _ => None,
        }
    } else if mode == "brokenithm"@ {
        match (v.field("disableAirStrings"@).spec_as_bool(), spec_brokenithm_port(v)) {
            (Some(b), Some(port)) => Some(DeviceModeView::Brokenithm {
                spec: brokenithm_layout(b),
                lights_enabled: false,
                port,
                ground_percent: spec_ground_percent(v),
            }),
            _ => None,
        }
    } else if mode == "brokenithm-led"@ {
        match (v.field("disableAirStrings"@).spec_as_bool(), spec_brokenithm_port(v)) {
            (Some(b), Some(port)) => Some(DeviceModeView::Brokenithm {
                spec: brokenithm_layout(b),
                lights_enabled: true,
                port,
                ground_percent: spec_ground_percent(v),
            }),
            _ => None,
        }
    } else if mode == "brokenithm-nostalgia"@ {
        match spec_brokenithm_port(v) {
            Some(port) => Some(DeviceModeView::Brokenithm {
                spec: BrokenithmSpec::Nostalgia,
                lights_enabled: false,
                port,
                ground_percent: spec_ground_percent(v),
            }),
            None => None,
        }
    } else {
        None
    }
}

/// The device that a settings object selects: `None` where `deviceMode` is no
/// string, names no device, or a member that the device needs is missing or
/// out of range.
pub open spec fn spec_device_mode(v: ConfigValue) -> Option<DeviceModeView> {
    match v.field("deviceMode"@).spec_as_str() {
        Some(mode) => spec_mode_named(v, mode),
        None => None,
    }
}

/// The ground share of the Brokenithm page, from `brokenithmGroundPercent`.
pub fn brokenithm_ground_percent(v: &ConfigValue) -> (r: u8)
    ensures
        r == spec_ground_percent(*v),
        20 <= r <= 80,
{
    let p: u8 = match v.unsigned("brokenithmGroundPercent") {
        Some(n) => if n <= 255 {
            n as u8
        } else {
            DEFAULT_GROUND_PERCENT
        },
        None => DEFAULT_GROUND_PERCENT,
    };
    if p < 20 {
        20
    } else if p > 80 {
        80
    } else {
        p
    }
}

fn brokenithm_port(v: &ConfigValue) -> (r: Option<u16>)
    ensures
        r == spec_brokenithm_port(*v),
{
    match v.signed("brokenithmPort") {
        Some(n) => if 0 <= n && n <= u16::MAX as i64 {
            Some(n as u16)
        } else {
            Some(DEFAULT_BROKENITHM_PORT)
        },
        None => None,
    }
}

fn hardware_mode(v: &ConfigValue, spec: HardwareSpec) -> (r: Option<DeviceMode>)
    ensures
        match r {
            Some(m) => v.field("disableAirStrings"@).spec_as_bool() matches Some(b)
                && m@ == DeviceModeView::Hardware { spec, disable_air: b },
            None => v.field("disableAirStrings"@).spec_as_bool() is None,
        },
{
    match v.flag("disableAirStrings") {
        Some(disable_air) => Some(DeviceMode::Hardware { spec, disable_air }),
        None => None,
    }
}

fn brokenithm_mode(v: &ConfigValue, lights_enabled: bool) -> (r: Option<DeviceMode>)
    ensures
        match r {
            Some(m) => {
                &&& v.field("disableAirStrings"@).spec_as_bool() matches Some(b)
                &&& spec_brokenithm_port(*v) matches Some(port)
                &&& m@ == DeviceModeView::Brokenithm {
                    spec: brokenithm_layout(b),
                    lights_enabled,
                    port,
                    ground_percent: spec_ground_percent(*v),
                }
            },
            None => v.field("disableAirStrings"@).spec_as_bool() is None
                || spec_brokenithm_port(*v) is None,
        },
{
    let disable_air = match v.flag("disableAirStrings") {
        Some(b) => b,
        None => return None,
    };
    let spec = if disable_air {
        BrokenithmSpec::GroundOnly
    } else {
        BrokenithmSpec::Basic
    };
    let port = match brokenithm_port(v) {
        Some(p) => p,
        None => return None,
    };
    Some(DeviceMode::Brokenithm { spec, lights_enabled, port, ground_percent: brokenithm_ground_percent(v) })
}

impl DeviceMode {
    /// The device that the settings object `v` selects (see [`spec_device_mode`]).
    pub fn from_serde_value(v: &ConfigValue) -> (r: Option<DeviceMode>)
        ensures
            match r {
                Some(m) => spec_device_mode(*v) == Some(m@),
                None => spec_device_mode(*v) is None,
            },
    {
        let mode = match v.text("deviceMode") {
            Some(m) => m,
            None => return None,
        };
        if text_eq(mode, "none") {
            Some(DeviceMode::NoDevice)
        } else if text_eq(mode, "tasoller-one") {
            hardware_mode(v, HardwareSpec::TasollerOne)
        } else if text_eq(mode, "tasoller-two") {
            hardware_mode(v, HardwareSpec::TasollerTwo)
        } else if text_eq(mode, "yuancon") {
            hardware_mode(v, HardwareSpec::Yuancon)
        } else if text_eq(mode, "yuancon-three") {
            hardware_mode(v, HardwareSpec::YuanconThree)
        } else if text_eq(mode, "yubideck") {
            hardware_mode(v, HardwareSpec::Yubideck)
        } else if text_eq(mode, "yubideck-three") {
            hardware_mode(v, HardwareSpec::YubideckThree)
        } else if text_eq(mode, "diva") {
            let port = match v.text("divaSerialPort") {
                Some(p) => p.to_owned(),
                None => return None,
            };
            let brightness = match v.signed("divaBrightness") {
                Some(b) => b,
                None => return None,
            };
            if 0 <= brightness && brightness <= 255 {
                Some(DeviceMode::DivaSlider { port, brightness: brightness as u8 })
            } else {
                None
            }
        } else if text_eq(mode, "brokenithm") {
            brokenithm_mode(v, false)
        } else if text_eq(mode, "brokenithm-led") {
            brokenithm_mode(v, true)
        } else if text_eq(mode, "brokenithm-nostalgia") {
            let port = match brokenithm_port(v) {
                Some(p) => p,
                None => return None,
            };
            Some(DeviceMode::Brokenithm {
                spec: BrokenithmSpec::Nostalgia,
                lights_enabled: false,
                port,
                ground_percent: brokenithm_ground_percent(v),
            })
        } else {
            None
        }
    }

    /// The TCP port of the Brokenithm server, for the Brokenithm modes only.
    pub fn get_port(&self) -> (r: Option<u16>)
        ensures
            r == spec_get_port(self@),
    {
        match self {
            DeviceMode::Brokenithm { port, .. } => Some(*port),
            _ => None,
        }
    }
}

pub open spec fn spec_get_port(m: DeviceModeView) -> Option<u16> {
    match m {
        DeviceModeView::Brokenithm { port, .. } => Some(port),
        _ => None,
    }
}

/// The ground share is always from 20 to 80; it is the configured share where
/// that lies from 20 to 80, 20 for a smaller one, 80 for a larger one up to
/// 255, and 50 where the settings hold no integer share from 0 to 255.
pub proof fn lemma_ground_percent_range(v: ConfigValue)
    ensures
        20 <= spec_ground_percent(v) <= 80,
        match v.field("brokenithmGroundPercent"@).spec_as_u64() {
            Some(n) => {
                &&& 20 <= n <= 80 ==> spec_ground_percent(v) == n
                &&& n < 20 ==> spec_ground_percent(v) == 20
                &&& 80 < n <= 255 ==> spec_ground_percent(v) == 80
                &&& n > 255 ==> spec_ground_percent(v) == 50
            },
            None => spec_ground_percent(v) == 50,
        },
{
}

/// Whether `mode` names one of the Brokenithm modes.
pub open spec fn is_brokenithm_mode(mode: Seq<char>) -> bool {
    mode == "brokenithm"@ || mode == "brokenithm-led"@ || mode == "brokenithm-nostalgia"@
}

/// A Brokenithm mode with an integer `brokenithmPort` (and, but for
/// Nostalgia, a boolean `disableAirStrings`) selects a Brokenithm device whose
/// port is the configured one where it fits in a `u16` and 1606 otherwise, and
/// whose ground share is that of the settings; without an integer port no
/// device is selected.
pub proof fn lemma_brokenithm_port(v: ConfigValue)
    requires
        v.field("deviceMode"@).spec_as_str() matches Some(mode) && is_brokenithm_mode(mode),
    ensures
        v.field("brokenithmPort"@).spec_as_i64() is None ==> spec_device_mode(v) is None,
        ({
            let mode = v.field("deviceMode"@).spec_as_str().unwrap();
            match v.field("brokenithmPort"@).spec_as_i64() {
                Some(n) => (mode != "brokenithm-nostalgia"@ ==> v.field("disableAirStrings"@).spec_as_bool() is Some)
                    ==> {
                    &&& spec_device_mode(v) matches Some(m)
                    &&& m is Brokenithm
                    &&& spec_get_port(m) == Some(
                        if 0 <= n <= u16::MAX {
                            n as u16
                        } else {
                            DEFAULT_BROKENITHM_PORT
                        },
                    )
                    &&& m->Brokenithm_ground_percent == spec_ground_percent(v)
                },
                None => true,
            }
        }),
{
    reveal_strlit("none");
    reveal_strlit("tasoller-one");
    reveal_strlit("tasoller-two");
    reveal_strlit("yuancon");
    reveal_strlit("yuancon-three");
    reveal_strlit("yubideck");
    reveal_strlit("yubideck-three");
    reveal_strlit("diva");
    reveal_strlit("brokenithm");
    reveal_strlit("brokenithm-led");
    reveal_strlit("brokenithm-nostalgia");
    let mode = v.field("deviceMode"@).spec_as_str().unwrap();
    // The Brokenithm names start with `b`, the other device names do not, and
    // the three Brokenithm names differ in length.
    assert(mode[0] == 'b');
    assert("none"@[0] != 'b' && "diva"@[0] != 'b');
    assert("tasoller-one"@[0] != 'b' && "tasoller-two"@[0] != 'b');
    assert("yuancon"@[0] != 'b' && "yuancon-three"@[0] != 'b');
    assert("yubideck"@[0] != 'b' && "yubideck-three"@[0] != 'b');
    assert(hardware_named(mode) is None);
    assert("brokenithm"@.len() == 10 && "brokenithm-led"@.len() == 14);
    assert("brokenithm-nostalgia"@.len() == 20);
}

/// The device names differ pairwise: by length, by their first character,
/// or (the two Tasoller names) by the character at index 9.
proof fn lemma_mode_names_distinct()
    ensures
        "none"@.len() == 4 && "none"@[0] == 'n',
        "tasoller-one"@.len() == 12 && "tasoller-one"@[0] == 't' && "tasoller-one"@[9] == 'o',
        "tasoller-two"@.len() == 12 && "tasoller-two"@[0] == 't' && "tasoller-two"@[9] == 't',
        "yuancon"@.len() == 7 && "yuancon"@[0] == 'y',
        "yuancon-three"@.len() == 13 && "yuancon-three"@[0] == 'y',
        "yubideck"@.len() == 8 && "yubideck"@[0] == 'y',
        "yubideck-three"@.len() == 14 && "yubideck-three"@[0] == 'y',
        "diva"@.len() == 4 && "diva"@[0] == 'd',
        "brokenithm"@.len() == 10 && "brokenithm"@[0] == 'b',
        "brokenithm-led"@.len() == 14 && "brokenithm-led"@[0] == 'b',
        "brokenithm-nostalgia"@.len() == 20 && "brokenithm-nostalgia"@[0] == 'b',
{
    reveal_strlit("none");
    reveal_strlit("tasoller-one");
    reveal_strlit("tasoller-two");
    reveal_strlit("yuancon");
    reveal_strlit("yuancon-three");
    reveal_strlit("yubideck");
    reveal_strlit("yubideck-three");
    reveal_strlit("diva");
    reveal_strlit("brokenithm");
    reveal_strlit("brokenithm-led");
    reveal_strlit("brokenithm-nostalgia");
}

/// `deviceMode` `none` selects no device; each controller name selects that
/// controller, with `disableAirStrings` as its air setting, and nothing where
/// that member is no boolean.
pub proof fn lemma_hardware_modes(v: ConfigValue)
    ensures
        ({
            let mode = v.field("deviceMode"@).spec_as_str();
            let air = v.field("disableAirStrings"@).spec_as_bool();
            let hw = |spec: HardwareSpec|
                match air {
                    Some(b) => Some(DeviceModeView::Hardware { spec, disable_air: b }),
                    None => None,
                };
            &&& mode == Some("none"@) ==> spec_device_mode(v) == Some(DeviceModeView::NoDevice)
            &&& mode == Some("tasoller-one"@) ==> spec_device_mode(v) == hw(HardwareSpec::TasollerOne)
            &&& mode == Some("tasoller-two"@) ==> spec_device_mode(v) == hw(HardwareSpec::TasollerTwo)
            &&& mode == Some("yuancon"@) ==> spec_device_mode(v) == hw(HardwareSpec::Yuancon)
            &&& mode == Some("yuancon-three"@) ==> spec_device_mode(v) == hw(HardwareSpec::YuanconThree)
            &&& mode == Some("yubideck"@) ==> spec_device_mode(v) == hw(HardwareSpec::Yubideck)
            &&& mode == Some("yubideck-three"@) ==> spec_device_mode(v) == hw(HardwareSpec::YubideckThree)
        }),
{
    lemma_mode_names_distinct();
    let mode = v.field("deviceMode"@).spec_as_str();
    if mode == Some("tasoller-two"@) {
        assert("tasoller-two"@[9] != "tasoller-one"@[9]);
    }
}

/// `deviceMode` `diva` selects the DIVA slider on the `divaSerialPort` string
/// with the `divaBrightness` integer as its brightness where that is from 0 to
/// 255; an integer outside that range, or a missing port or brightness,
/// selects nothing.
pub proof fn lemma_diva_mode(v: ConfigValue)
    requires
        v.field("deviceMode"@).spec_as_str() == Some("diva"@),
    ensures
        match (v.field("divaSerialPort"@).spec_as_str(), v.field("divaBrightness"@).spec_as_i64()) {
            (Some(port), Some(n)) => if 0 <= n <= 255 {
                spec_device_mode(v) == Some(DeviceModeView::DivaSlider { port, brightness: n as u8 })
            } else {
                spec_device_mode(v) is None
            },
            _ => spec_device_mode(v) is None,
        },
{
    lemma_mode_names_distinct();
}

/// The three Brokenithm modes: `brokenithm` and `brokenithm-led` need a
/// boolean `disableAirStrings` and give the ground-only layout exactly when it
/// is true (the basic one when false); only `brokenithm-led` turns the lights
/// on; `brokenithm-nostalgia` gives the Nostalgia layout without lights. All
/// need an integer `brokenithmPort`, used where it fits in a `u16` and
/// replaced by 1606 otherwise.
pub proof fn lemma_brokenithm_modes(v: ConfigValue)
    ensures
        ({
            let mode = v.field("deviceMode"@).spec_as_str();
            let air = v.field("disableAirStrings"@).spec_as_bool();
            let port = v.field("brokenithmPort"@).spec_as_i64();
            let fit = |n: i64|
                if 0 <= n <= 65535 {
                    n as u16
                } else {
                    1606u16
                };
            &&& (mode == Some("brokenithm"@) || mode == Some("brokenithm-led"@)) ==> match (air, port) {
                (Some(b), Some(n)) => spec_device_mode(v) == Some(
                    DeviceModeView::Brokenithm {
                        spec: if b {
                            BrokenithmSpec::GroundOnly
                        } else {
                            BrokenithmSpec::Basic
                        },
                        lights_enabled: mode == Some("brokenithm-led"@),
                        port: fit(n),
                        ground_percent: spec_ground_percent(v),
                    },
                ),
                _ => spec_device_mode(v) is None,
            }
            &&& mode == Some("brokenithm-nostalgia"@) ==> match port {
                Some(n) => spec_device_mode(v) == Some(
                    DeviceModeView::Brokenithm {
                        spec: BrokenithmSpec::Nostalgia,
                        lights_enabled: false,
                        port: fit(n),
                        ground_percent: spec_ground_percent(v),
                    },
                ),
                None => spec_device_mode(v) is None,
            }
        }),
{
    lemma_mode_names_distinct();
}

/// A settings object without a string `deviceMode`, or whose `deviceMode`
/// names none of the devices, selects nothing.
pub proof fn lemma_unknown_mode_selects_nothing(v: ConfigValue)
    ensures
        match v.field("deviceMode"@).spec_as_str() {
            None => spec_device_mode(v) is None,
            Some(mode) => (mode != "none"@ && mode != "tasoller-one"@ && mode != "tasoller-two"@
                && mode != "yuancon"@ && mode != "yuancon-three"@ && mode != "yubideck"@
                && mode != "yubideck-three"@ && mode != "diva"@ && mode != "brokenithm"@
                && mode != "brokenithm-led"@ && mode != "brokenithm-nostalgia"@)
                ==> spec_device_mode(v) is None,
        },
{
}

/// A member is read by name: where no entry has the name it reads as null
/// (`Other`); else it is the value of the first entry with that name.
pub proof fn lemma_lookup_field(entries: Seq<(String, ConfigField)>, key: Seq<char>)
    ensures
        (forall|i: int| 0 <= i < entries.len() ==> #[trigger] entries[i].0@ != key)
            ==> lookup_field(entries, key) == ConfigField::Other,
        forall|i: int|
            0 <= i < entries.len() && #[trigger] entries[i].0@ == key && (forall|j: int|
                0 <= j < i ==> entries[j].0@ != key) ==> lookup_field(entries, key) == entries[i].1,
    decreases entries.len(),
{
    if entries.len() > 0 {
        let rest = entries.drop_first();
        lemma_lookup_field(rest, key);
        assert forall|i: int|
            0 <= i < entries.len() && #[trigger] entries[i].0@ == key && (forall|j: int|
                0 <= j < i ==> entries[j].0@ != key) implies lookup_field(entries, key)
            == entries[i].1 by {
            if i > 0 {
                assert(entries[0].0@ != key);
                assert(rest[i - 1] == entries[i]);
                assert forall|j: int| 0 <= j < i - 1 implies rest[j].0@ != key by {
                    assert(rest[j] == entries[j + 1]);
                }
            }
        }
        if forall|i: int| 0 <= i < entries.len() ==> #[trigger] entries[i].0@ != key {
            assert forall|i: int| 0 <= i < rest.len() implies #[trigger] rest[i].0@ != key by {
                assert(rest[i] == entries[i + 1]);
            }
        }
    }
}

/// A JSON integer reads as an `i64` exactly when it lies from -2^63 to
/// 2^63 - 1 and as a `u64` exactly when it lies from 0 to 2^64 - 1, as that
/// same number; a boolean or string reads as neither.
pub proof fn lemma_integer_reads(f: ConfigField)
    ensures
        f matches ConfigField::Integer(n) ==> {
            &&& (-0x8000_0000_0000_0000 <= n <= 0x7fff_ffff_ffff_ffff) == (f.spec_as_i64() is Some)
            &&& (0 <= n <= 0xffff_ffff_ffff_ffff) == (f.spec_as_u64() is Some)
            &&& f.spec_as_i64() matches Some(m) ==> m == n
            &&& f.spec_as_u64() matches Some(m) ==> m == n
        },
        !(f is Integer) ==> f.spec_as_i64() is None && f.spec_as_u64() is None,
        f.spec_as_bool() is Some <==> f is Bool,
        f.spec_as_str() is Some <==> f is Text,
{
}

} // verus!
