use vstd::prelude::*;
use crate::sensor::Reading;

verus! {

/// The guest components that the host can run.
#[derive(Clone, Copy, Debug, PartialEq, Eq, Structural)]
pub enum Guest {
    /// The HTS221 sensor guest, which reports the temperature.
    Sensor,
    /// The HD44780 character LCD guest.
    LCDDisplay,
    /// The seven-segment LED display guest.
    SegmentLEDDisplay,
}

/// The component world that a guest is instantiated in.
#[derive(Clone, Copy, Debug, PartialEq, Eq, Structural)]
pub enum World {
    /// Reads the sensor over the I2C connection.
    Sensor,
    /// Writes a message to a display over the I2C connection.
    Screen,
}

/// Where the host takes the compiled component from.
#[derive(Clone, Copy, Debug, PartialEq, Eq, Structural)]
pub enum ComponentSource {
    /// Compile the guest's WebAssembly file, and when `serialize` is set,
    /// also store the compiled component for later runs.
    File { guest: Guest, serialize: bool },
    /// Load the component stored by an earlier run.
    Serialized,
}

/// The command-line name of each guest.
pub open spec fn guest_name(guest: Guest) -> Seq<char> {
    match guest {
        Guest::Sensor => "sensor"@,
        Guest::LCDDisplay => "display"@,
        Guest::SegmentLEDDisplay => "segment"@,
    }
}

/// The guest that the command-line name `name` selects, if any.
pub open spec fn guest_named(name: Seq<char>) -> Option<Guest> {
    if name == "sensor"@ {
        Some(Guest::Sensor)
    } else if name == "display"@ {
        Some(Guest::LCDDisplay)
    } else if name == "segment"@ {
        Some(Guest::SegmentLEDDisplay)
    } else {
        None
    }
}

/// The WebAssembly file of each guest.
pub open spec fn component_path(guest: Guest) -> Seq<char> {
    match guest {
        Guest::Sensor => "hat.wasm"@,
        Guest::LCDDisplay => "lcd.wasm"@,
        Guest::SegmentLEDDisplay => "led.wasm"@,
    }
}

/// The option that asks the host to store the compiled component.
pub open spec fn serialize_option() -> Seq<char> {
    "serialize"@
}

/// The file in which a compiled component is stored.
pub const SERIALIZED_COMPONENT: &'static str = "./component.serialized";

/// The message that the host asks a display guest to show.
pub const DISPLAY_MESSAGE: &'static str = "1234";

/// Whether `s` holds exactly the characters `expected`.
fn str_is(s: &str, expected: &str) -> (r: bool)
    ensures
        r == (s@ == expected@),
{
    let a: String = s.to_owned();
    let b: String = expected.to_owned();
    a == b
}

impl Guest {
    /// The guest named `name` on the command line, if there is one.
    pub fn from_name(name: &str) -> (guest: Option<Guest>)
        ensures
            guest == guest_named(name@),
    {
        if str_is(name, "sensor") {
            Some(Guest::Sensor)
        } else if str_is(name, "display") {
            Some(Guest::LCDDisplay)
        } else if str_is(name, "segment") {
            Some(Guest::SegmentLEDDisplay)
        } else {
            None
        }
    }

    /// The WebAssembly file that holds the guest.
    pub fn component_file(self) -> (path: &'static str)
        ensures
            path@ == component_path(self),
    {
        match self {
            Guest::Sensor => "hat.wasm",
            Guest::LCDDisplay => "lcd.wasm",
            Guest::SegmentLEDDisplay => "led.wasm",
        }
    }

    /// The world that the guest is instantiated in: the sensor reads, both
    /// displays write.
    pub fn world(self) -> (world: World)
        ensures
            world == (if self == Guest::Sensor {
                World::Sensor
            } else {
                World::Screen
            }),
    {
        match self {
            Guest::Sensor => World::Sensor,
            Guest::LCDDisplay | Guest::SegmentLEDDisplay => World::Screen,
        }
    }
}

/// Where to take the component of `guest` from: with no option, or with
/// the option `serialize`, compile the guest's file (and with `serialize`,
/// store the result); with any other option, load the stored component.
pub fn component_source(guest: Guest, option: Option<&str>) -> (source: ComponentSource)
    ensures
        source == (match option {
            None => ComponentSource::File { guest, serialize: false },
            Some(o) => if o@ == serialize_option() {
                ComponentSource::File { guest, serialize: true }
            } else {
                ComponentSource::Serialized
            },
        }),
{
    match option {
        None => ComponentSource::File { guest, serialize: false },
        Some(o) => {
            if str_is(o, "serialize") {
                ComponentSource::File { guest, serialize: true }
            } else {
                ComponentSource::Serialized
            }
        },
    }
}

/// The reading that the command component takes for the device named
/// `device`: the temperature for `screen`. It serves no other device:
/// `None` marks the branch that is left unimplemented, on which the
/// component stops (panics) without touching the connection.
pub fn command_reading(device: &str) -> (reading: Option<Reading>)
    ensures
        reading == (if device@ == "screen"@ {
            Some(Reading::Temperature)
        } else {
            None
        }),
{
    if str_is(device, "screen") {
        Some(Reading::Temperature)
    } else {
        None
    }
}

/// Every guest is found again under its own name, and the names differ.
pub proof fn lemma_name_round_trip(guest: Guest)
    ensures
        guest_named(guest_name(guest)) == Some(guest),
{
    reveal_strlit("sensor");
    reveal_strlit("display");
    reveal_strlit("segment");
    assert("sensor"@.len() == 6 && "display"@.len() == 7 && "segment"@.len() == 7);
    assert("display"@[0] != "segment"@[0]);
}

/// Different guests are loaded from different files, each a `.wasm` file.
pub proof fn lemma_component_files(a: Guest, b: Guest)
    ensures
        a != b ==> component_path(a) != component_path(b),
        component_path(a).len() == 8,
        component_path(a).subrange(3, 8) == ".wasm"@,
{
    reveal_strlit("hat.wasm");
    reveal_strlit("lcd.wasm");
    reveal_strlit("led.wasm");
    reveal_strlit(".wasm");
    assert("hat.wasm"@[0] != "lcd.wasm"@[0] && "hat.wasm"@[0] != "led.wasm"@[0] && "lcd.wasm"@[1]
        != "led.wasm"@[1]);
    assert("hat.wasm"@.subrange(3, 8) =~= ".wasm"@);
    assert("lcd.wasm"@.subrange(3, 8) =~= ".wasm"@);
    assert("led.wasm"@.subrange(3, 8) =~= ".wasm"@);
}

} // verus!
