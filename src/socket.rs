use vstd::prelude::*;

verus! {

/// Bits of the power a socket draws while enabled: `3.5_f32.to_bits()`.
pub const NOMINAL_POWER: u32 = 0x4060_0000;

/// Bits of `0.0_f32`, the power of a disabled socket.
pub const ZERO_POWER: u32 = 0;

/// The power that goes with an on/off flag: the socket is binary, with a
/// fixed draw while on and none while off.
pub open spec fn power_for(enabled: bool) -> u32 {
    if enabled {
        NOMINAL_POWER
    } else {
        ZERO_POWER
    }
}

/// State of one switchable socket. `power` holds the bits of an `f32`.
#[derive(Debug, Clone, Copy, PartialEq, Eq, Structural)]
pub struct SmartSocket {
    pub is_enabled: bool,
    pub power: u32,
}

impl SmartSocket {
    /// The power agrees with the on/off flag.
    pub open spec fn wf(self) -> bool {
        self.power == power_for(self.is_enabled)
    }

    /// The state after switching on, whatever the state before.
    pub open spec fn enabled() -> SmartSocket {
        SmartSocket { is_enabled: true, power: NOMINAL_POWER }
    }

    /// The state after switching off, whatever the state before.
    pub open spec fn disabled() -> SmartSocket {
        SmartSocket { is_enabled: false, power: ZERO_POWER }
    }

    /// Switches the socket on. Idempotent.
    pub fn enable(&mut self)
        ensures
            *final(self) == SmartSocket::enabled(),
            final(self).wf(),
        no_unwind
    {
        self.is_enabled = true;
        self.power = NOMINAL_POWER;
    }

    /// Switches the socket off. Idempotent.
    pub fn disable(&mut self)
        ensures
            *final(self) == SmartSocket::disabled(),
            final(self).wf(),
        no_unwind
    {
        self.is_enabled = false;
        self.power = ZERO_POWER;
    }
}

impl Default for SmartSocket {
    /// A socket as created at start-up: off, drawing nothing.
    fn default() -> (s: SmartSocket)
        ensures
            s == SmartSocket::disabled(),
            s.wf(),
    {
        SmartSocket { is_enabled: false, power: ZERO_POWER }
    }
}

/// Returns the given socket switched on.
pub fn enable(socket: SmartSocket) -> (s: SmartSocket)
    ensures
        s == SmartSocket::enabled(),
{
    let mut s = socket;
    s.enable();
    s
}

/// Returns the given socket switched off.
pub fn disable(socket: SmartSocket) -> (s: SmartSocket)
    ensures
        s == SmartSocket::disabled(),
{
    let mut s = socket;
    s.disable();
    s
}

} // verus!
