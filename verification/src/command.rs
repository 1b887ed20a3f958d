//! Commands the dashboard sends to a car, and their encoding in the car's protocol:
//! a drive order is the text `<left>,<right>\n`, everything else is a control opcode.

use vstd::prelude::*;

use crate::decimal::{push_signed_decimal, signed_decimal};

verus! {

/// Body of `POST /api/cars/{id}/cmd`.
#[derive(Debug, Clone, Copy, PartialEq, Eq, Structural)]
pub enum Command {
    /// Brake and latch.
    EStop,
    /// Release the latch.
    Clear,
    /// Per-mille per side.
    Drive {
        /// `-1000..=1000`.
        left: i16,
        /// `-1000..=1000`.
        right: i16,
    },
    /// Lidar on/off.
    Lidar {
        /// Desired state.
        on: bool,
    },
    /// Duty cap.
    MaxDuty {
        /// `0..=1000`.
        permille: u16,
    },
}

/// Reply of the cmd endpoint.
#[derive(Debug, Clone, Copy, PartialEq, Eq, Structural)]
pub struct CmdReply {
    /// Bytes published to `olivaw/<car>/cmd`.
    pub bytes: usize,
}

/// The car's control opcodes, whose byte encoding belongs to the car protocol crate.
#[derive(Debug, Clone, Copy, PartialEq, Eq, Structural)]
pub enum Control {
    /// Brake and latch.
    EStop,
    /// Release the latch.
    Clear,
    /// Spin the lidar up.
    LidarOn,
    /// Spin the lidar down.
    LidarOff,
    /// Cap the motor duty, per mille.
    SetMaxDuty(u16),
}

/// What goes out on `olivaw/<car>/cmd` for one command.
#[derive(Debug, Clone, PartialEq, Eq)]
pub enum CommandPayload {
    /// Raw bytes, ready to publish.
    Text(Vec<u8>),
    /// A control opcode, published in its protocol encoding.
    Control(Control),
}

/// The drive frame `<left>,<right>\n`.
pub open spec fn drive_text(left: i16, right: i16) -> Seq<u8> {
    signed_decimal(left as int) + seq![44u8] + signed_decimal(right as int) + seq![10u8]
}

/// The control opcode a command maps to, if it is not a drive order.
pub open spec fn control_of(command: Command) -> Option<Control> {
    match command {
        Command::EStop => Some(Control::EStop),
        Command::Clear => Some(Control::Clear),
        Command::Drive { .. } => None,
        Command::Lidar { on } => Some(if on { Control::LidarOn } else { Control::LidarOff }),
        Command::MaxDuty { permille } => Some(Control::SetMaxDuty(permille)),
    }
}

/// Encodes a command for the car.
pub fn encode(command: &Command) -> (p: CommandPayload)
    ensures
        match *command {
            Command::Drive { left, right } => p matches CommandPayload::Text(t) && t@ == drive_text(
                left,
                right,
            ),
            _ => p == CommandPayload::Control(control_of(*command).unwrap()),
        },
{
    match command {
        Command::EStop => CommandPayload::Control(Control::EStop),
        Command::Clear => CommandPayload::Control(Control::Clear),
        Command::Drive { left, right } => {
            let mut out: Vec<u8> = Vec::new();
            push_signed_decimal(&mut out, *left as i64);
            out.push(44u8);
            push_signed_decimal(&mut out, *right as i64);
            out.push(10u8);
            assert(out@ =~= drive_text(*left, *right));
            CommandPayload::Text(out)
        },
        Command::Lidar { on } => {
            if *on {
                CommandPayload::Control(Control::LidarOn)
            } else {
                CommandPayload::Control(Control::LidarOff)
            }
        },
        Command::MaxDuty { permille } => CommandPayload::Control(Control::SetMaxDuty(*permille)),
    }
}

impl CmdReply {
    /// The reply for a published payload of `len` bytes.
    pub fn published(len: usize) -> (r: CmdReply)
        ensures
            r.bytes == len,
    {
        CmdReply { bytes: len }
    }
}

} // verus!
