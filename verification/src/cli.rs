//! What the command line of a client asks for, turned into commands and options.

use vstd::prelude::*;
use crate::callsign::{parsed_callsign, Callsign};
use crate::client::{callsign_view, TelnetOptions};
use crate::config::text_view;
use crate::error::{CallsignError, FrequencyError};
use crate::frequency::{hertz_of_khz_text, FrequencyHz};
use crate::peer::string_views;
use crate::text::{chars_of, join, join_chars, string_of, views};
use crate::user::{CommandModel, UserCommand};

verus! {

/// Why the command line stands for no command.
#[derive(Debug, Clone, Copy, PartialEq, Eq)]
pub enum CliError {
    InvalidCallsign(CallsignError),
    InvalidFrequency(FrequencyError),
}

impl CliError {
    /// The error in words, as a sequence of characters.
    pub open spec fn message_text(self) -> Seq<char> {
        match self {
            CliError::InvalidCallsign(_) => "invalid callsign"@,
            CliError::InvalidFrequency(_) => "invalid frequency"@,
        }
    }

    /// The error in words.
    pub fn message(&self) -> (out: String)
        ensures
            out@ == self.message_text(),
    {
        match self {
            CliError::InvalidCallsign(_) => "invalid callsign".to_owned(),
            CliError::InvalidFrequency(_) => "invalid frequency".to_owned(),
        }
    }
}

/// The arguments of the command that files a spot.
#[derive(Debug)]
pub struct SpotArgs {
    /// The callsign heard.
    pub dx: String,
    /// The frequency in kilohertz.
    pub frequency: String,
    /// The words of the comment.
    pub comment: Vec<String>,
}

/// The command that the arguments of a spot stand for: the callsign and the
/// frequency are read as in a line, and the comment is its words with a
/// space between neighbours.
pub open spec fn spot_command(dx: Seq<char>, frequency: Seq<char>, comment: Seq<Seq<char>>) -> Result<
    CommandModel,
    CliError,
> {
    match parsed_callsign(dx, false) {
        Err(e) => Err(CliError::InvalidCallsign(e)),
        Ok(dx) => match hertz_of_khz_text(frequency) {
            Err(e) => Err(CliError::InvalidFrequency(e)),
            Ok(frequency) => Ok(
                CommandModel::Dx { dx, frequency, comment: join(comment, seq![' ']) },
            ),
        },
    }
}

impl SpotArgs {
    /// The command that the arguments stand for.
    pub fn into_command(self) -> (r: Result<UserCommand, CliError>)
        ensures
            match r {
                Ok(cmd) => spot_command(self.dx@, self.frequency@, string_views(self.comment@))
                    == Ok::<CommandModel, CliError>(cmd@),
                Err(e) => spot_command(self.dx@, self.frequency@, string_views(self.comment@))
                    == Err::<CommandModel, CliError>(e),
            },
    {
        let dx = match Callsign::parse_loose(self.dx.as_str()) {
            Ok(call) => call,
            Err(e) => {
                return Err(CliError::InvalidCallsign(e));
            },
        };
        let frequency = match FrequencyHz::from_khz_str(self.frequency.as_str()) {
            Ok(freq) => freq,
            Err(e) => {
                return Err(CliError::InvalidFrequency(e));
            },
        };
        let mut words: Vec<Vec<char>> = Vec::new();
        let mut i: usize = 0;
        while i < self.comment.len()
            invariant
                i <= self.comment.len(),
                words@.len() == i,
                forall|k: int| 0 <= k < i ==> (#[trigger] words@[k])@ == self.comment@[k]@,
            decreases self.comment.len() - i,
        {
            words.push(chars_of(self.comment[i].as_str()));
            i += 1;
        }
        assert(views(words@) =~= string_views(self.comment@));
        let space: Vec<char> = vec![' '];
        assert(space@ =~= seq![' ']);
        let comment = join_chars(&words, space.as_slice());
        Ok(UserCommand::Dx { dx, frequency, comment: string_of(comment.as_slice()) })
    }
}

/// The options with which a client logs in: the callsign, where one is
/// given, must be one by the loose rules.
pub fn build_options(callsign: Option<&str>, password: Option<String>) -> (r: Result<
    TelnetOptions,
    CliError,
>)
    ensures
        match (callsign, r) {
            (None, Ok(options)) => options.callsign is None && text_view(options.password)
                == text_view(password),
            (Some(text), Ok(options)) => parsed_callsign(text@, false) == Ok::<
                Seq<char>,
                CallsignError,
            >(options.callsign->0@) && options.callsign is Some && text_view(options.password)
                == text_view(password),
            (Some(text), Err(e)) => parsed_callsign(text@, false) is Err && e
                == CliError::InvalidCallsign(parsed_callsign(text@, false)->Err_0),
            (None, Err(_)) => false,
        },
{
    let callsign = match callsign {
        Some(text) => match Callsign::parse_loose(text) {
            Ok(call) => Some(call),
            Err(e) => {
                return Err(CliError::InvalidCallsign(e));
            },
        },
        None => None,
    };
    Ok(TelnetOptions { callsign, password })
}

} // verus!
