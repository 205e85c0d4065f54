//! What a caller asks for: the command, the variants to try, and how many
//! values to show; with the checks made before any work starts.

use vstd::prelude::*;
use crate::generator::{Variant, BASH_RAND_MAX};

verus! {

/// Which variants a command works with.
#[derive(Copy, Clone, PartialEq, Eq, Structural, PartialOrd, Ord, Debug)]
pub enum Version {
    /// Shells up to 5.0.
    Old,
    /// Shells from 5.1 on.
    New,
    /// Both, where the shell is not known.
    Both,
}

impl Version {
    /// Whether the selection holds the variant.
    pub open spec fn includes(self, variant: Variant) -> bool {
        match (self, variant) {
            (Version::Old, Variant::New) => false,
            (Version::New, Variant::Old) => false,
            _ => true,
        }
    }

    /// Whether the old variant is selected.
    pub fn has_old(self) -> (b: bool)
        ensures
            b == self.includes(Variant::Old),
    {
        match self {
            Version::New => false,
            _ => true,
        }
    }

    /// Whether the new variant is selected.
    pub fn has_new(self) -> (b: bool)
        ensures
            b == self.includes(Variant::New),
    {
        match self {
            Version::Old => false,
            _ => true,
        }
    }
}

/// Why a command was not carried out, or ended without a seed.
#[derive(Copy, Clone, PartialEq, Eq, Structural, Debug)]
pub enum Error {
    /// A value given as a draw is above `BASH_RAND_MAX`.
    OutputTooLarge,
    /// The command was given a number of values that it does not take.
    WrongCount,
    /// The search covered its range and no seed was accepted.
    NotFound,
}

impl Error {
    /// The sentence that tells a user of the error.
    pub fn message(&self) -> (text: String)
        ensures
            text@ == match self {
                Error::OutputTooLarge => "Numbers must be at most 15 bits (max: 32767)"@,
                Error::WrongCount => "Wrong number of values"@,
                Error::NotFound => "Couldn't find seed"@,
            },
    {
        match self {
            Error::OutputTooLarge => String::from_str(
                "Numbers must be at most 15 bits (max: 32767)",
            ),
            Error::WrongCount => String::from_str("Wrong number of values"),
            Error::NotFound => String::from_str("Couldn't find seed"),
        }
    }
}

/// Every value is a possible draw.
pub open spec fn all_in_range(values: Seq<u16>) -> bool {
    forall|i: int| 0 <= i < values.len() ==> values[i] <= BASH_RAND_MAX
}

/// Accepts the values if each is a possible draw.
pub fn check_outputs(values: &[u16]) -> (r: Result<(), Error>)
    ensures
        r == if all_in_range(values@) {
            Ok::<(), Error>(())
        } else {
            Err::<(), Error>(Error::OutputTooLarge)
        },
{
    let mut i: usize = 0;
    while i < values.len()
        invariant
            i <= values.len(),
            forall|j: int| 0 <= j < i ==> values@[j] <= BASH_RAND_MAX,
        decreases values.len() - i,
    {
        if values[i] > BASH_RAND_MAX {
            return Err(Error::OutputTooLarge);
        }
        i = i + 1;
    }
    Ok(())
}

/// The commands.
#[derive(Debug)]
pub enum SubCommands {
    /// Recover the seed behind two or three consecutive draws.
    Crack { numbers: Vec<u16> },
    /// Show the draws that follow a seed, after skipping some.
    Get { seed: u32, skip: usize },
    /// Show the registers that follow a seed.
    Seeds { seed: u32 },
    /// Find seeds whose first draw is `n` under the selected variants.
    Collide { n: u16 },
    /// Recover the timestamp seed behind a password.
    Password { password: String },
    /// Spell the password that ten draws stand for.
    GenPass { numbers: Vec<u16> },
}

impl SubCommands {
    /// What is wrong with the command's values, if anything: a value that
    /// is no possible draw comes before a wrong number of values.
    pub open spec fn defect(&self) -> Option<Error> {
        match self {
            SubCommands::Crack { numbers } => if !all_in_range(numbers@) {
                Some(Error::OutputTooLarge)
            } else if numbers@.len() != 2 && numbers@.len() != 3 {
                Some(Error::WrongCount)
            } else {
                None
            },
            SubCommands::Collide { n } => if *n > BASH_RAND_MAX {
                Some(Error::OutputTooLarge)
            } else {
                None
            },
            SubCommands::GenPass { numbers } => if !all_in_range(numbers@) {
                Some(Error::OutputTooLarge)
            } else if numbers@.len() != 10 {
                Some(Error::WrongCount)
            } else {
                None
            },
            _ => None,
        }
    }

    /// Checks the command's values before any work starts.
    pub fn validate(&self) -> (r: Result<(), Error>)
        ensures
            r == match self.defect() {
                Some(e) => Err::<(), Error>(e),
                None => Ok::<(), Error>(()),
            },
    {
        match self {
            SubCommands::Crack { numbers } => {
                match check_outputs(numbers.as_slice()) {
                    Err(e) => Err(e),
                    Ok(()) => if numbers.len() != 2 && numbers.len() != 3 {
                        Err(Error::WrongCount)
                    } else {
                        Ok(())
                    },
                }
            },
            SubCommands::Collide { n } => {
                if *n > BASH_RAND_MAX {
                    Err(Error::OutputTooLarge)
                } else {
                    Ok(())
                }
            },
            SubCommands::GenPass { numbers } => {
                match check_outputs(numbers.as_slice()) {
                    Err(e) => Err(e),
                    Ok(()) => if numbers.len() != 10 {
                        Err(Error::WrongCount)
                    } else {
                        Ok(())
                    },
                }
            },
            _ => Ok(()),
        }
    }
}

/// A whole request: the command, the variants, and how many values to show
/// after a seed.
#[derive(Debug)]
pub struct Args {
    pub command: SubCommands,
    pub version: Version,
    pub number: usize,
}

impl Args {
    /// Checks the request before any work starts.
    pub fn validate(&self) -> (r: Result<(), Error>)
        ensures
            r == match self.command.defect() {
                Some(e) => Err::<(), Error>(e),
                None => Ok::<(), Error>(()),
            },
    {
        self.command.validate()
    }
}

} // verus!
