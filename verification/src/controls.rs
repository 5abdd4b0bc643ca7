use vstd::prelude::*;

verus! {

/// Neutral steering pulse width.
pub const STEER_NEUTRAL_PWM_US: u16 = 1500;
/// Neutral throttle pulse width.
pub const THROTTLE_NEUTRAL_PWM_US: u16 = 1500;
/// Throttle pulse widths this close to neutral command no acceleration.
pub const THROTTLE_DEADBAND_US: u16 = 25;
/// Beyond neutral, this many microseconds command full acceleration or braking.
pub const THROTTLE_FULL_SCALE_US: u16 = 500;
/// The narrowest pulse width a command may carry.
pub const PWM_MIN_US: u16 = 1000;
/// The widest pulse width a command may carry.
pub const PWM_MAX_US: u16 = 2000;

/// The steering and throttle pulse widths, in microseconds, that drive the
/// vehicle.
#[derive(Clone, Copy, Debug, PartialEq, Eq, Structural)]
pub struct ControlInput {
    pub steer_pwm_us: u16,
    pub throttle_pwm_us: u16,
}

/// `v` limited to the pulse widths a command may carry.
pub open spec fn clamp_pwm(v: u16) -> u16 {
    if v < PWM_MIN_US {
        PWM_MIN_US
    } else if v > PWM_MAX_US {
        PWM_MAX_US
    } else {
        v
    }
}

/// Limits a pulse width to `1000..=2000` µs.
pub fn clamp_pwm_us(v: u16) -> (r: u16)
    ensures
        r == clamp_pwm(v),
{
    if v < PWM_MIN_US {
        PWM_MIN_US
    } else if v > PWM_MAX_US {
        PWM_MAX_US
    } else {
        v
    }
}

impl ControlInput {
    /// Both pulse widths at neutral.
    pub fn neutral() -> (c: ControlInput)
        ensures
            c.steer_pwm_us == STEER_NEUTRAL_PWM_US,
            c.throttle_pwm_us == THROTTLE_NEUTRAL_PWM_US,
    {
        ControlInput { steer_pwm_us: STEER_NEUTRAL_PWM_US, throttle_pwm_us: THROTTLE_NEUTRAL_PWM_US }
    }
}

/// A control override from the UI: each value given replaces the current one,
/// limited to `1000..=2000` µs; a value not given leaves it as it is.
pub fn apply_control_update(current: ControlInput, steer_pwm_us: Option<u16>, throttle_pwm_us: Option<u16>) -> (r: ControlInput)
    ensures
        r.steer_pwm_us == match steer_pwm_us {
            Some(v) => clamp_pwm(v),
            None => current.steer_pwm_us,
        },
        r.throttle_pwm_us == match throttle_pwm_us {
            Some(v) => clamp_pwm(v),
            None => current.throttle_pwm_us,
        },
{
    let steer = match steer_pwm_us {
        Some(v) => clamp_pwm_us(v),
        None => current.steer_pwm_us,
    };
    let throttle = match throttle_pwm_us {
        Some(v) => clamp_pwm_us(v),
        None => current.throttle_pwm_us,
    };
    ControlInput { steer_pwm_us: steer, throttle_pwm_us: throttle }
}

/// What a throttle pulse width asks of the drive: nothing inside the deadband,
/// otherwise acceleration or braking with an effort of up to 500 µs beyond
/// neutral (500 being full effort).
#[derive(Clone, Copy, Debug, PartialEq, Eq, Structural)]
pub enum ThrottleCommand {
    Coast,
    Accelerate { effort_us: u16 },
    Brake { effort_us: u16 },
}

/// The throttle command for a pulse width.
pub open spec fn throttle_command_of(pwm: u16) -> ThrottleCommand {
    let delta = pwm - THROTTLE_NEUTRAL_PWM_US;
    if -(THROTTLE_DEADBAND_US as int) <= delta <= THROTTLE_DEADBAND_US {
        ThrottleCommand::Coast
    } else if delta > 0 {
        ThrottleCommand::Accelerate {
            effort_us: if delta > THROTTLE_FULL_SCALE_US {
                THROTTLE_FULL_SCALE_US
            } else {
                delta as u16
            },
        }
    } else {
        ThrottleCommand::Brake {
            effort_us: if -delta > THROTTLE_FULL_SCALE_US {
                THROTTLE_FULL_SCALE_US
            } else {
                (-delta) as u16
            },
        }
    }
}

/// Reads a throttle pulse width as a drive command.
pub fn throttle_command(throttle_pwm_us: u16) -> (c: ThrottleCommand)
    ensures
        c == throttle_command_of(throttle_pwm_us),
{
    if throttle_pwm_us >= THROTTLE_NEUTRAL_PWM_US {
        let delta = throttle_pwm_us - THROTTLE_NEUTRAL_PWM_US;
        if delta <= THROTTLE_DEADBAND_US {
            ThrottleCommand::Coast
        } else if delta > THROTTLE_FULL_SCALE_US {
            ThrottleCommand::Accelerate { effort_us: THROTTLE_FULL_SCALE_US }
        } else {
            ThrottleCommand::Accelerate { effort_us: delta }
        }
    } else {
        let delta = THROTTLE_NEUTRAL_PWM_US - throttle_pwm_us;
        if delta <= THROTTLE_DEADBAND_US {
            ThrottleCommand::Coast
        } else if delta > THROTTLE_FULL_SCALE_US {
            ThrottleCommand::Brake { effort_us: THROTTLE_FULL_SCALE_US }
        } else {
            ThrottleCommand::Brake { effort_us: delta }
        }
    }
}

/// What the controller's telemetry has told the simulator of the pulse
/// widths it drives: the command the vehicle follows, the last widths
/// received, and how many lines carried them.
#[derive(Clone, Copy, Debug, PartialEq, Eq, Structural)]
pub struct ControllerFeedback {
    pub command: ControlInput,
    pub rx_steer_pwm_us: Option<u16>,
    pub rx_throttle_pwm_us: Option<u16>,
    pub rx_lines: u64,
}

impl ControllerFeedback {
    /// Takes the pulse widths of one telemetry line: both, limited to
    /// `1000..=2000` µs, become the command and the last widths received, and
    /// the count of such lines grows by one (saturating).
    pub fn record_pwm(&mut self, steer_pwm_us: u16, throttle_pwm_us: u16)
        ensures
            final(self).command.steer_pwm_us == clamp_pwm(steer_pwm_us),
            final(self).command.throttle_pwm_us == clamp_pwm(throttle_pwm_us),
            final(self).rx_steer_pwm_us == Some(clamp_pwm(steer_pwm_us)),
            final(self).rx_throttle_pwm_us == Some(clamp_pwm(throttle_pwm_us)),
            final(self).rx_lines == if old(self).rx_lines == u64::MAX {
                u64::MAX
            } else {
                (old(self).rx_lines + 1) as u64
            },
    {
        let s = clamp_pwm_us(steer_pwm_us);
        let t = clamp_pwm_us(throttle_pwm_us);
        self.command = ControlInput { steer_pwm_us: s, throttle_pwm_us: t };
        self.rx_steer_pwm_us = Some(s);
        self.rx_throttle_pwm_us = Some(t);
        self.rx_lines = self.rx_lines.saturating_add(1);
    }
}

/// A clamped pulse width is always one a command may carry, and clamping it
/// again changes nothing.
pub proof fn law_clamp_pwm_in_range(v: u16)
    ensures
        PWM_MIN_US <= clamp_pwm(v) <= PWM_MAX_US,
        clamp_pwm(clamp_pwm(v)) == clamp_pwm(v),
        PWM_MIN_US <= v <= PWM_MAX_US ==> clamp_pwm(v) == v,
{
}

/// A throttle pulse width within 25 µs of the 1500 µs neutral coasts;
/// further out, it accelerates (above neutral) or brakes (below) with an
/// effort equal to its distance from neutral, saturated at 500 µs.
pub proof fn law_throttle_effort_is_distance_from_neutral(p: u16)
    ensures
        1475 <= p <= 1525 ==> (throttle_command_of(p) is Coast),
        p > 1525 ==> (throttle_command_of(p) matches ThrottleCommand::Accelerate { effort_us: e }
            && e as int == (if p - 1500 < 500 { p - 1500 } else { 500 })),
        p < 1475 ==> (throttle_command_of(p) matches ThrottleCommand::Brake { effort_us: e }
            && e as int == (if 1500 - p < 500 { 1500 - p } else { 500 })),
{
}

/// Pulse widths the same distance either side of neutral ask for the same
/// effort, one to accelerate and one to brake.
pub proof fn law_throttle_symmetric(d: u16)
    requires
        THROTTLE_DEADBAND_US < d <= THROTTLE_NEUTRAL_PWM_US,
    ensures
        throttle_command_of((THROTTLE_NEUTRAL_PWM_US + d) as u16) matches ThrottleCommand::Accelerate {
            effort_us: a,
        } && throttle_command_of((THROTTLE_NEUTRAL_PWM_US - d) as u16) matches ThrottleCommand::Brake {
            effort_us: b,
        } && a == b,
{
}

} // verus!
