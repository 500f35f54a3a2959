//! The command protocol: a closed set of logical commands, parsed
//! case-insensitively from external input and mapped to fixed wire opcodes.

use vstd::prelude::*;
use vstd::string::StringSliceAdditionalSpecFns;

verus! {

// ASCII byte values of the letters in the four command names.
pub const UPPER_A: u8 = 65;
pub const UPPER_Z: u8 = 90;
pub const L_D: u8 = 100;
pub const L_I: u8 = 105;
pub const L_N: u8 = 110;
pub const L_O: u8 = 111;
pub const L_P: u8 = 112;
pub const L_S: u8 = 115;
pub const L_T: u8 = 116;
pub const L_U: u8 = 117;
pub const L_W: u8 = 119;

/// A logical command for the stick: one of a fixed, closed enumeration.
#[derive(Clone, Copy, Debug, PartialEq, Eq, Structural)]
pub enum Command {
    Up,
    Down,
    Stop,
    Init,
}

/// The errors of the transport core and its callers.
#[derive(Clone, Debug, PartialEq, Eq)]
pub enum BridgeError {
    /// A decoded frame's bytes are not valid text.
    InvalidEncoding,
    /// A command name does not match the closed set.
    CommandUnrecognized,
    /// An I/O error while sending to the device, with its description.
    WriteFailure(String),
    /// The reader loop's read call failed.
    ReadFailure,
    /// The device stream closed.
    StreamEnded,
    /// The device could not be opened at startup.
    DeviceOpenFailure,
}

/// The fixed opcode table: the wire string for each command.
pub open spec fn opcode_of(c: Command) -> Seq<char> {
    match c {
        Command::Up => "ss119010000"@,
        Command::Down => "ss119020000"@,
        Command::Stop => "ss119000000"@,
        Command::Init => "init"@,
    }
}

/// ASCII case folding of one byte: an upper-case letter becomes lower-case,
/// every other byte stays as it is.
pub open spec fn fold_byte(b: u8) -> u8 {
    if UPPER_A <= b && b <= UPPER_Z {
        (b + 32) as u8
    } else {
        b
    }
}

/// ASCII case folding of a whole byte sequence.
pub open spec fn fold_bytes(s: Seq<u8>) -> Seq<u8> {
    s.map_values(|b: u8| fold_byte(b))
}

/// The bytes of the name "up".
pub open spec fn name_up() -> Seq<u8> {
    seq![L_U, L_P]
}

/// The bytes of the name "down".
pub open spec fn name_down() -> Seq<u8> {
    seq![L_D, L_O, L_W, L_N]
}

/// The bytes of the name "stop".
pub open spec fn name_stop() -> Seq<u8> {
    seq![L_S, L_T, L_O, L_P]
}

/// The bytes of the name "init".
pub open spec fn name_init() -> Seq<u8> {
    seq![L_I, L_N, L_I, L_T]
}

/// The command a name denotes: its case-folded bytes must equal one of the
/// four fixed names. Anything else denotes no command.
pub open spec fn command_of_name(name: Seq<u8>) -> Option<Command> {
    if fold_bytes(name) == name_up() {
        Some(Command::Up)
    } else if fold_bytes(name) == name_down() {
        Some(Command::Down)
    } else if fold_bytes(name) == name_stop() {
        Some(Command::Stop)
    } else if fold_bytes(name) == name_init() {
        Some(Command::Init)
    } else {
        None
    }
}

/// ASCII case folding of one byte, executable form.
fn fold(b: u8) -> (r: u8)
    ensures
        r == fold_byte(b),
{
    if UPPER_A <= b && b <= UPPER_Z {
        b + 32
    } else {
        b
    }
}

impl Command {
    /// Parses a command name, matching it case-insensitively against the
    /// closed set {up, down, stop, init}: the matching command exactly when
    /// the name denotes one, and `CommandUnrecognized` otherwise.
    pub fn from_str(s: &str) -> (r: Result<Command, BridgeError>)
        ensures
            r == (match command_of_name(s.spec_bytes()) {
                Some(c) => Ok::<Command, BridgeError>(c),
                None => Err::<Command, BridgeError>(BridgeError::CommandUnrecognized),
            }),
    {
        let b = s.as_bytes();
        let ghost name = s.spec_bytes();
        if b.len() == 2 && fold(b[0]) == L_U && fold(b[1]) == L_P {
            proof {
                assert(fold_bytes(name) =~= name_up());
            }
            Ok(Command::Up)
        } else if b.len() == 4 && fold(b[0]) == L_D && fold(b[1]) == L_O && fold(b[2]) == L_W
            && fold(b[3]) == L_N {
            proof {
                assert(fold_bytes(name) =~= name_down());
            }
            Ok(Command::Down)
        } else if b.len() == 4 && fold(b[0]) == L_S && fold(b[1]) == L_T && fold(b[2]) == L_O
            && fold(b[3]) == L_P {
            proof {
                assert(fold_bytes(name) =~= name_stop());
            }
            Ok(Command::Stop)
        } else if b.len() == 4 && fold(b[0]) == L_I && fold(b[1]) == L_N && fold(b[2]) == L_I
            && fold(b[3]) == L_T {
            proof {
                assert(fold_bytes(name) =~= name_init());
            }
            Ok(Command::Init)
        } else {
            proof {
                lemma_unmatched_name_is_no_command(name);
            }
            Err(BridgeError::CommandUnrecognized)
        }
    }

    /// The wire opcode this command stands for, exactly as the table gives it.
    pub fn to_opcode(&self) -> (r: String)
        ensures
            r@ == opcode_of(*self),
    {
        match self {
            Command::Up => "ss119010000".to_owned(),
            Command::Down => "ss119020000".to_owned(),
            Command::Stop => "ss119000000".to_owned(),
            Command::Init => "init".to_owned(),
        }
    }
}

/// When the case-folded name differs from each fixed name at its length or at
/// one position, the name denotes no command.
proof fn lemma_unmatched_name_is_no_command(name: Seq<u8>)
    requires
        !(fold_bytes(name).len() == 2 && fold_bytes(name)[0] == L_U && fold_bytes(name)[1] == L_P),
        !(fold_bytes(name).len() == 4 && fold_bytes(name)[0] == L_D && fold_bytes(name)[1] == L_O
            && fold_bytes(name)[2] == L_W && fold_bytes(name)[3] == L_N),
        !(fold_bytes(name).len() == 4 && fold_bytes(name)[0] == L_S && fold_bytes(name)[1] == L_T
            && fold_bytes(name)[2] == L_O && fold_bytes(name)[3] == L_P),
        !(fold_bytes(name).len() == 4 && fold_bytes(name)[0] == L_I && fold_bytes(name)[1] == L_N
            && fold_bytes(name)[2] == L_I && fold_bytes(name)[3] == L_T),
    ensures
        command_of_name(name) is None,
{
    assert(fold_bytes(name) != name_up());
    assert(fold_bytes(name) != name_down());
    assert(fold_bytes(name) != name_stop());
    assert(fold_bytes(name) != name_init());
}

/// Law: parsing is case-insensitive. A name denotes exactly the command that
/// its case-folded form denotes, so every case variant of a valid name is
/// accepted and yields the same command.
pub proof fn lemma_parse_case_insensitive(name: Seq<u8>)
    ensures
        command_of_name(fold_bytes(name)) == command_of_name(name),
{
    assert(fold_bytes(fold_bytes(name)) =~= fold_bytes(name)) by {
        assert forall|i: int| 0 <= i < fold_bytes(name).len() implies fold_bytes(fold_bytes(name))[i]
            == fold_bytes(name)[i] by {
            assert(fold_bytes(name)[i] == fold_byte(name[i]));
            assert(fold_byte(fold_byte(name[i])) == fold_byte(name[i]));
        }
    }
}

/// A short description of the control surface, served at the root route.
pub fn index() -> (r: &'static str)
    ensures
        r@ == "This is an API for the Schellenberg Stick."@,
{
    "This is an API for the Schellenberg Stick."
}

/// The pure decision of the shutter route: the frame to submit to the shared
/// sender — the command's opcode when the name parses, nothing otherwise (no
/// write may be issued for an unrecognized name).
pub fn shutter_frame(cmd: &str) -> (r: Option<String>)
    ensures
        match command_of_name(cmd.spec_bytes()) {
            Some(c) => r matches Some(s) && s@ == opcode_of(c),
            None => r is None,
        },
{
    match Command::from_str(cmd) {
        Ok(c) => Some(c.to_opcode()),
        Err(_) => None,
    }
}

} // verus!
