use vstd::prelude::*;
use crate::render::valid_bitness;

verus! {

/// The bit width used where none is given.
pub const BITNESS: u32 = 64;

/// The address of the first byte where none is given.
pub const RIP: u64 = 0;

/// What the user asked for: the input file and, optionally, the bit width and
/// the address of the first byte.
pub struct Args {
    pub input: String,
    pub bitness: Option<u32>,
    pub rip: Option<u64>,
}

/// The decoding settings of a run.
#[derive(Clone, Copy, Debug, PartialEq, Eq, Structural)]
pub struct Settings {
    pub rip: u64,
    pub bitness: u32,
}

/// Why the settings of a run were refused.
#[derive(Clone, Copy, Debug, PartialEq, Eq, Structural)]
pub enum SettingsError {
    /// The bit width is not one of 16, 32 and 64.
    UnsupportedBitness(u32),
}

/// The bit width that `args` selects.
pub open spec fn chosen_bitness(args: Args) -> u32 {
    match args.bitness {
        Some(b) => b,
        None => BITNESS,
    }
}

/// The address of the first byte that `args` selects.
pub open spec fn chosen_rip(args: Args) -> u64 {
    match args.rip {
        Some(r) => r,
        None => RIP,
    }
}

impl Args {
    /// The settings that these arguments select, defaults filled in; refused,
    /// before any decoding, where the bit width is unsupported.
    pub fn settings(&self) -> (r: Result<Settings, SettingsError>)
        ensures
            r matches Ok(s) ==> s == (Settings { rip: chosen_rip(*self), bitness: chosen_bitness(*self) }),
            r is Ok <==> valid_bitness(chosen_bitness(*self)),
            r matches Err(e) ==> e == SettingsError::UnsupportedBitness(chosen_bitness(*self)),
    {
        let bitness = match self.bitness {
            Some(b) => b,
            None => BITNESS,
        };
        let rip = match self.rip {
            Some(r) => r,
            None => RIP,
        };
        if bitness == 16 || bitness == 32 || bitness == 64 {
            Ok(Settings { rip, bitness })
        } else {
            Err(SettingsError::UnsupportedBitness(bitness))
        }
    }
}

} // verus!
