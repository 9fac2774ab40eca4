//! The pin capability: a uniform read/write interface with a physical
//! (hardware-backed) and a simulated (in-memory) implementation.
use vstd::prelude::*;

verus! {

/// A pin index: one addressable digital line.
pub type GpioIndex = u8;

/// The logical state of a digital line: one of exactly two levels.
#[derive(Clone, Copy, PartialEq, Eq, Structural, Debug)]
pub enum Level {
    High,
    Low,
}

/// Holds the level of one simulated line.
pub struct LevelContainer {
    pub level: Level,
}

impl LevelContainer {
    pub fn set(&mut self, level: &Level)
        ensures
            final(self).level == *level,
    {
        self.level = *level;
    }

    pub fn get(&self) -> (r: Level)
        ensures
            r == self.level,
    {
        self.level
    }
}

/// The uniform pin interface. `level_known` says whether the pin's level is
/// tracked by the library: a simulated pin's is, a physical pin's is decided
/// by the hardware and is not modeled.
pub trait DiscreteIO {
    spec fn level_known(&self) -> bool;

    spec fn level(&self) -> Level;

    fn get_state(&self) -> (r: Level)
        ensures
            self.level_known() ==> r == self.level(),
    ;

    /// What one write guarantees beyond the tracked level: a simulated
    /// pin's cell holds the level; a physical pin keeps its line and
    /// direction and has the matching drive command issued.
    spec fn wrote(&self, post: &Self, level: Level) -> bool;

    fn set_state(&mut self, level: &Level)
        ensures
            final(self).level_known() == old(self).level_known(),
            old(self).level_known() ==> final(self).level() == *level,
            old(self).wrote(final(self), *level),
    ;
}

/// A pin backed by an in-memory cell, initialized to Low.
pub struct SimulatedPin {
    pub level: LevelContainer,
}

impl SimulatedPin {
    pub fn new() -> (r: SimulatedPin)
        ensures
            r.level.level == Level::Low,
    {
        SimulatedPin { level: LevelContainer { level: Level::Low } }
    }
}

impl DiscreteIO for SimulatedPin {
    open spec fn level_known(&self) -> bool {
        true
    }

    open spec fn level(&self) -> Level {
        self.level.level
    }

    open spec fn wrote(&self, post: &Self, level: Level) -> bool {
        post.level.level == level
    }

    fn get_state(&self) -> (r: Level) {
        self.level.get()
    }

    fn set_state(&mut self, level: &Level) {
        self.level.set(level);
    }
}

#[verifier::external_type_specification]
#[verifier::external_body]
pub struct ExIoPin(rppal::gpio::IoPin);

#[verifier::external_type_specification]
#[verifier::external_body]
pub struct ExGpio(rppal::gpio::Gpio);

/// A pin backed by a real hardware line, already configured as input or
/// output when it was acquired. `index` is the line it was acquired on and
/// `is_output` the direction it was configured with; `commanded` tracks the
/// last drive command issued through it, so that contracts can say which
/// command a write sends.
pub struct PhysicalPin {
    pub io_pin: rppal::gpio::IoPin,
    pub index: GpioIndex,
    pub is_output: bool,
    pub commanded: Ghost<Option<Level>>,
}

/// The level a hardware line's boolean reading stands for.
pub fn level_from_bool(high: bool) -> (r: Level)
    ensures
        (r == Level::High) <==> high,
{
    if high {
        Level::High
    } else {
        Level::Low
    }
}

impl PhysicalPin {
    pub fn new(io_pin: rppal::gpio::IoPin, index: GpioIndex, output: bool) -> (r: PhysicalPin)
        ensures
            r.index == index,
            r.is_output == output,
            r.commanded@ is None,
    {
        PhysicalPin { io_pin, index, is_output: output, commanded: Ghost(None) }
    }

    /// Relies on rppal's IoPin::is_high: whether the hardware line currently
    /// reads logic high. The hardware decides the answer, so nothing is
    /// promised of it.
    #[verifier::external_body]
    fn line_is_high(&self) -> bool {
        self.io_pin.is_high()
    }

    /// Relies on rppal's IoPin::set_high: drives the hardware line high.
    /// Only the line state changes; the pin keeps its identity, and the
    /// command is recorded.
    #[verifier::external_body]
    fn drive_high(&mut self)
        ensures
            final(self).index == old(self).index,
            final(self).is_output == old(self).is_output,
            final(self).commanded@ == Some(Level::High),
    {
        self.io_pin.set_high()
    }

    /// Relies on rppal's IoPin::set_low: drives the hardware line low.
    /// Only the line state changes; the pin keeps its identity, and the
    /// command is recorded.
    #[verifier::external_body]
    fn drive_low(&mut self)
        ensures
            final(self).index == old(self).index,
            final(self).is_output == old(self).is_output,
            final(self).commanded@ == Some(Level::Low),
    {
        self.io_pin.set_low()
    }
}

impl DiscreteIO for PhysicalPin {
    /// The level of a hardware line is not modeled: reads go to the board.
    open spec fn level_known(&self) -> bool {
        false
    }

    /// Never relied on: `level_known` is false for every physical pin.
    open spec fn level(&self) -> Level {
        Level::Low
    }

    open spec fn wrote(&self, post: &Self, level: Level) -> bool {
        post.index == self.index && post.is_output == self.is_output && post.commanded@ == Some(
            level,
        )
    }

    fn get_state(&self) -> (r: Level) {
        level_from_bool(self.line_is_high())
    }

    fn set_state(&mut self, level: &Level) {
        match level {
            Level::High => self.drive_high(),
            Level::Low => self.drive_low(),
        }
    }
}

/// Relies on rppal's Gpio::new: acquires a handle to the GPIO peripheral,
/// failing on machines that have none.
#[verifier::external_body]
pub(crate) fn gpio_new() -> Result<rppal::gpio::Gpio, String> {
    match rppal::gpio::Gpio::new() {
        Ok(g) => Ok(g),
        Err(e) => Err(e.to_string()),
    }
}

/// Relies on rppal's Gpio::get and Pin::into_io: claims the line with the
/// given index and configures it as output (when `output`) or input.
/// Acquisition fails when the line is unavailable. The returned pin is the
/// line that was asked for, in the direction that was asked for.
#[verifier::external_body]
pub(crate) fn acquire_io_pin(gpio: &rppal::gpio::Gpio, index: u8, output: bool) -> (r: Result<
    PhysicalPin,
    String,
>)
    ensures
        r matches Ok(p) ==> p.index == index && p.is_output == output,
{
    match gpio.get(index) {
        Ok(pin) => {
            let mode = if output {
                rppal::gpio::Mode::Output
            } else {
                rppal::gpio::Mode::Input
            };
            Ok(PhysicalPin::new(pin.into_io(mode), index, output))
        },
        Err(e) => Err(e.to_string()),
    }
}

} // verus!
