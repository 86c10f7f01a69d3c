//! Configuration consumed once when the driver is constructed.

use vstd::prelude::*;

verus! {

/// Clock source feeding the CAN protocol engine's prescaler.
#[derive(Clone, Copy, Debug, PartialEq, Eq, Structural)]
pub enum ClockSource {
    /// The oscillator-derived clock; its frequency must be lower than the
    /// bus clock.
    Soscdiv2,
    /// The peripheral (system) clock.
    Sys,
}

impl Default for ClockSource {
    fn default() -> (r: Self)
        ensures
            r == ClockSource::Soscdiv2,
    {
        ClockSource::Soscdiv2
    }
}

/// Options applied while the peripheral is initialized.  They are consumed
/// at construction; there is no runtime reconfiguration.
#[derive(Clone, Copy, Debug, PartialEq, Eq, Structural)]
pub struct CanSettings {
    /// Enable the error-rate warning interrupt flags.
    pub warning_interrupt: bool,

    /// Allow the module to receive frames transmitted by itself.
    pub self_reception: bool,

    /// Reroute the low mailboxes into FIFO mode (unused by this driver).
    pub rx_fifo: bool,

    /// Match received frames against per-mailbox masks instead of the
    /// global acceptance mask.
    pub individual_masking: bool,

    /// Feed the transmitter's bit stream back into the receiver for
    /// self-test, ignoring the bus pins.
    pub loopback_mode: bool,

    /// Clock source for the protocol engine.
    pub clock_source: ClockSource,

    /// Target bus bit rate in hertz.
    pub can_frequency: u32,
}

impl Default for CanSettings {
    fn default() -> (r: Self)
        ensures
            r == (CanSettings {
                warning_interrupt: false,
                self_reception: true,
                rx_fifo: false,
                individual_masking: false,
                loopback_mode: false,
                can_frequency: 1000000,
                clock_source: ClockSource::Soscdiv2,
            }),
    {
        CanSettings {
            warning_interrupt: false,
            self_reception: true,
            rx_fifo: false,
            individual_masking: false,
            loopback_mode: false,
            can_frequency: 1000000,
            clock_source: ClockSource::Soscdiv2,
        }
    }
}

} // verus!
