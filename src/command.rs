use vstd::prelude::*;

verus! {

/// A one-byte instruction sent from a controller to a device.
#[derive(Debug, Clone, Copy, PartialEq, Eq, Structural)]
pub enum Command {
    TurnOn,
    TurnOff,
    QueryInfo,
    Unknown,
}

/// The command that a request byte stands for: `0`, `1` and `2` are the three
/// meaningful commands; every other byte is `Unknown`.
pub open spec fn command_of(byte: u8) -> Command {
    if byte == 0 {
        Command::TurnOn
    } else if byte == 1 {
        Command::TurnOff
    } else if byte == 2 {
        Command::QueryInfo
    } else {
        Command::Unknown
    }
}

/// The request byte that carries a command; `Unknown` is sent as `255`.
pub open spec fn byte_of(command: Command) -> u8 {
    match command {
        Command::TurnOn => 0,
        Command::TurnOff => 1,
        Command::QueryInfo => 2,
        Command::Unknown => 255,
    }
}

/// Reads a request byte. Total: a byte outside `{0, 1, 2}` is not an error
/// but the `Unknown` command.
pub fn decode_command(byte: u8) -> (command: Command)
    ensures
        command == command_of(byte),
        byte != 0 && byte != 1 && byte != 2 ==> command == Command::Unknown,
{
    match byte {
        0 => Command::TurnOn,
        1 => Command::TurnOff,
        2 => Command::QueryInfo,
        _ => Command::Unknown,
    }
}

/// Writes a command as its request byte.
pub fn encode_command(command: Command) -> (byte: u8)
    ensures
        byte == byte_of(command),
{
    match command {
        Command::TurnOn => 0,
        Command::TurnOff => 1,
        Command::QueryInfo => 2,
        Command::Unknown => 255,
    }
}

/// Every byte other than the three command bytes decodes to `Unknown`.
pub proof fn lemma_other_bytes_are_unknown(byte: u8)
    requires
        byte != 0,
        byte != 1,
        byte != 2,
    ensures
        command_of(byte) == Command::Unknown,
{
}

/// Encoding a command and decoding the byte gives the command back.
pub proof fn lemma_command_round_trip(command: Command)
    ensures
        command_of(byte_of(command)) == command,
{
}

impl From<Command> for u8 {
    fn from(command: Command) -> (byte: u8) {
        encode_command(command)
    }
}

impl vstd::std_specs::convert::FromSpecImpl<Command> for u8 {
    open spec fn obeys_from_spec() -> bool {
        true
    }

    open spec fn from_spec(command: Command) -> u8 {
        byte_of(command)
    }
}

} // verus!
