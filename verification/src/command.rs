//! Commands and status exchanged between the control nodes, and their
//! encodings as flat arrays of primitive values.

use vstd::prelude::*;

verus! {

/// Why a flat array of values could not be turned into a message.
#[derive(Debug, Clone, Copy, PartialEq, Eq, Structural)]
pub enum DecodeError {
    /// The array held `found` elements where the message needs `expected`.
    WrongLength { expected: usize, found: usize },
    /// The single element of a command array is no known command code.
    InvalidCode(u8),
}

/// The result of checking that an array holds exactly `expected` elements.
pub open spec fn element_count_result(found: usize, expected: usize) -> Result<(), DecodeError> {
    if found == expected {
        Ok(())
    } else {
        Err(DecodeError::WrongLength { expected, found })
    }
}

/// Checks that an array of `found` elements has the `expected` length of a message.
pub fn expect_elements(found: usize, expected: usize) -> (r: Result<(), DecodeError>)
    ensures
        r == element_count_result(found, expected),
{
    if found == expected {
        Ok(())
    } else {
        Err(DecodeError::WrongLength { expected, found })
    }
}


/// A request sent to the servo board.
#[derive(Debug, Clone, Copy, PartialEq, Eq, Structural)]
pub enum MainCommand {
    Setup,
    GetStatus,
    AttachServo,
    DetachServo,
}

/// The one-byte code of each command on the wire.
pub open spec fn command_code(c: MainCommand) -> u8 {
    match c {
        MainCommand::Setup => 0,
        MainCommand::GetStatus => 1,
        MainCommand::AttachServo => 2,
        MainCommand::DetachServo => 3,
    }
}

/// The command a code stands for, or the error for an unknown code.
pub open spec fn command_from_code(code: u8) -> Result<MainCommand, DecodeError> {
    if code == 0 {
        Ok(MainCommand::Setup)
    } else if code == 1 {
        Ok(MainCommand::GetStatus)
    } else if code == 2 {
        Ok(MainCommand::AttachServo)
    } else if code == 3 {
        Ok(MainCommand::DetachServo)
    } else {
        Err(DecodeError::InvalidCode(code))
    }
}

/// What decoding a one-element command array gives.
pub open spec fn command_decode_result(values: Seq<u8>) -> Result<MainCommand, DecodeError> {
    if values.len() != 1 {
        Err(DecodeError::WrongLength { expected: 1, found: values.len() as usize })
    } else {
        command_from_code(values[0])
    }
}

impl MainCommand {
    /// The code of this command.
    pub fn code(&self) -> (c: u8)
        ensures
            c == command_code(*self),
    {
        match self {
            MainCommand::Setup => 0,
            MainCommand::GetStatus => 1,
            MainCommand::AttachServo => 2,
            MainCommand::DetachServo => 3,
        }
    }

    /// The command with the given code; codes above 3 are refused.
    pub fn from_code(code: u8) -> (r: Result<MainCommand, DecodeError>)
        ensures
            r == command_from_code(code),
    {
        match code {
            0 => Ok(MainCommand::Setup),
            1 => Ok(MainCommand::GetStatus),
            2 => Ok(MainCommand::AttachServo),
            3 => Ok(MainCommand::DetachServo),
            _ => Err(DecodeError::InvalidCode(code)),
        }
    }

    /// The command as a flat array: its code alone.
    pub fn encode(&self) -> (v: Vec<u8>)
        ensures
            v@ == seq![command_code(*self)],
    {
        let mut v: Vec<u8> = Vec::new();
        v.push(self.code());
        v
    }

    /// Reads a command from a flat array, which must hold exactly one known code.
    pub fn decode(values: &[u8]) -> (r: Result<MainCommand, DecodeError>)
        ensures
            r == command_decode_result(values@),
    {
        match expect_elements(values.len(), 1) {
            Err(e) => Err(e),
            Ok(()) => MainCommand::from_code(values[0]),
        }
    }
}

/// The command that the test sender issues at its `counter`-th tick.
pub open spec fn command_at(counter: u64) -> MainCommand {
    if counter % 4 == 0 {
        MainCommand::AttachServo
    } else if counter % 4 == 1 {
        MainCommand::DetachServo
    } else if counter % 4 == 2 {
        MainCommand::GetStatus
    } else {
        MainCommand::Setup
    }
}

/// The command to send at tick number `counter`: the four commands in turn,
/// starting with attaching the servos.
pub fn command_for_tick(counter: u64) -> (c: MainCommand)
    ensures
        c == command_at(counter),
{
    match counter % 4 {
        0 => MainCommand::AttachServo,
        1 => MainCommand::DetachServo,
        2 => MainCommand::GetStatus,
        _ => MainCommand::Setup,
    }
}

/// Decoding the encoding of a command gives the command back.
pub proof fn lemma_command_roundtrip(c: MainCommand)
    ensures
        command_from_code(command_code(c)) == Ok::<MainCommand, DecodeError>(c),
        command_decode_result(seq![command_code(c)]) == Ok::<MainCommand, DecodeError>(c),
{
}

/// A code that decodes to a command is that command's code.
pub proof fn lemma_command_code_unique(code: u8)
    ensures
        command_from_code(code) matches Ok(c) ==> command_code(c) == code,
        command_from_code(code) is Ok <==> code < 4,
{
}

/// The sender's sequence of commands repeats every four ticks, and any four
/// consecutive ticks issue four different commands (so each of them once).
pub proof fn lemma_command_cycle(counter: u64)
    requires
        counter <= u64::MAX - 4,
    ensures
        command_at((counter + 4) as u64) == command_at(counter),
        forall|i: u64, j: u64|
            i < j < 4 ==> #[trigger] command_at((counter + i) as u64) != #[trigger] command_at(
                (counter + j) as u64,
            ),
{
}

/// A servo command: one target for each of the four servos.
pub struct BattCommand {
    pub servo: [u16; 4],
}

impl Default for BattCommand {
    fn default() -> (b: BattCommand)
        ensures
            b.servo@ == seq![0u16, 0u16, 0u16, 0u16],
    {
        BattCommand { servo: [0, 0, 0, 0] }
    }
}

/// What decoding a flat array into a servo command gives.
pub open spec fn batt_decode_result(values: Seq<u16>) -> Result<Seq<u16>, DecodeError> {
    if values.len() != 4 {
        Err(DecodeError::WrongLength { expected: 4, found: values.len() as usize })
    } else {
        Ok(values)
    }
}

impl BattCommand {
    /// The four servo targets, in order, as a flat array.
    pub fn encode(&self) -> (v: Vec<u16>)
        ensures
            v@ == self.servo@,
    {
        let mut v: Vec<u16> = Vec::new();
        v.push(self.servo[0]);
        v.push(self.servo[1]);
        v.push(self.servo[2]);
        v.push(self.servo[3]);
        assert(v@ =~= self.servo@);
        v
    }

    /// Reads a servo command from a flat array of exactly four targets.
    pub fn decode(values: &[u16]) -> (r: Result<BattCommand, DecodeError>)
        ensures
            match (r, batt_decode_result(values@)) {
                (Ok(b), Ok(s)) => b.servo@ == s,
                (Err(e), Err(f)) => e == f,
                _ => false,
            },
    {
        match expect_elements(values.len(), 4) {
            Err(e) => Err(e),
            Ok(()) => {
                let b = BattCommand { servo: [values[0], values[1], values[2], values[3]] };
                assert(b.servo@ =~= values@);
                Ok(b)
            },
        }
    }
}

/// Decoding the encoding of a servo command gives the same four targets.
pub proof fn lemma_batt_roundtrip(b: BattCommand)
    ensures
        batt_decode_result(b.servo@) == Ok::<Seq<u16>, DecodeError>(b.servo@),
{
}

/// The status that the servo board reports back.
#[derive(Debug, Clone, Copy, PartialEq, Eq, Structural)]
pub struct Status {
    pub heartbeat: u32,
}

} // verus!
