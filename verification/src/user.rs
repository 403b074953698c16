//! The lines that a user and a node exchange.

use vstd::prelude::*;
use crate::callsign::{is_canonical, parsed_callsign, Callsign};
use crate::error::{CallsignError, FrequencyError, UserParseError};
use crate::frequency::{hertz_of_khz_text, khz_text, lemma_khz_round_trip, FrequencyHz};
use crate::normalize::{comment_chars, comment_text};
use crate::spot::{Spot, SpotModel};
use crate::text::{
    ascii_upper, chars_are_spaced_words, chars_are_word, chars_eq_ignore_ascii_case, chars_of, eq_ignore_ascii_case, is_spaced_words,
    is_whitespace, is_word, join, join_chars, lemma_tokens_concat,
    lemma_tokens_of_word, lemma_tokens_trim_end, lemma_trim_end_after, lemma_trim_of_trimmed,
    push_chars, push_str, split_whitespace_chars, string_of, tokens, trim,
    trim_chars, trim_end, trim_start, views,
};

verus! {

/// What a user asks of the node.
#[derive(Debug, PartialEq)]
pub enum UserCommand {
    Dx { dx: Callsign, frequency: FrequencyHz, comment: String },
    Show(ShowCommand),
    Heartbeat,
    Raw(String),
}

/// What a user asks to be shown.
#[derive(Debug, Clone, Copy, PartialEq)]
pub enum ShowCommand {
    Dx,
    Filters,
}

/// A line that the node sends to a user.
#[derive(Debug, PartialEq)]
pub enum ServerLine {
    Banner(String),
    Prompt,
    Spot(Spot),
    Message(String),
}

/// What a command says, as mathematical values.
pub enum CommandModel {
    Dx { dx: Seq<char>, frequency: u64, comment: Seq<char> },
    Show(ShowCommand),
    Heartbeat,
    Raw(Seq<char>),
}

/// What a line of the node says, as mathematical values.
pub enum LineModel {
    Banner(Seq<char>),
    Prompt,
    Spot(SpotModel),
    Message(Seq<char>),
}

impl View for UserCommand {
    type V = CommandModel;

    open spec fn view(&self) -> CommandModel {
        match self {
            UserCommand::Dx { dx, frequency, comment } => CommandModel::Dx {
                dx: dx@,
                frequency: frequency.0,
                comment: comment@,
            },
            UserCommand::Show(show) => CommandModel::Show(*show),
            UserCommand::Heartbeat => CommandModel::Heartbeat,
            UserCommand::Raw(raw) => CommandModel::Raw(raw@),
        }
    }
}

impl Clone for UserCommand {
    fn clone(&self) -> (out: Self)
        ensures
            out@ == self@,
    {
        match self {
            UserCommand::Dx { dx, frequency, comment } => UserCommand::Dx {
                dx: dx.clone(),
                frequency: *frequency,
                comment: comment.clone(),
            },
            UserCommand::Show(show) => UserCommand::Show(*show),
            UserCommand::Heartbeat => UserCommand::Heartbeat,
            UserCommand::Raw(raw) => UserCommand::Raw(raw.clone()),
        }
    }
}

impl View for ServerLine {
    type V = LineModel;

    open spec fn view(&self) -> LineModel {
        match self {
            ServerLine::Banner(text) => LineModel::Banner(text@),
            ServerLine::Prompt => LineModel::Prompt,
            ServerLine::Spot(spot) => LineModel::Spot(spot@),
            ServerLine::Message(text) => LineModel::Message(text@),
        }
    }
}

impl Clone for ServerLine {
    fn clone(&self) -> (out: Self)
        ensures
            out@ == self@,
    {
        match self {
            ServerLine::Banner(text) => ServerLine::Banner(text.clone()),
            ServerLine::Prompt => ServerLine::Prompt,
            ServerLine::Spot(spot) => ServerLine::Spot(spot.clone()),
            ServerLine::Message(text) => ServerLine::Message(text.clone()),
        }
    }
}

/// The spot command that the text after `DX` stands for: the first word is
/// the callsign, the second the frequency in kilohertz, and the other words,
/// one space between neighbours, are the comment in its normal form.
pub open spec fn parse_dx(rest: Seq<char>) -> Result<CommandModel, UserParseError> {
    let words = tokens(rest);
    if words.len() < 1 {
        Err(UserParseError::MissingCallsign)
    } else if words.len() < 2 {
        Err(UserParseError::MissingFrequency)
    } else {
        match parsed_callsign(words[0], false) {
            Err(e) => Err(UserParseError::InvalidCallsign(e)),
            Ok(dx) => match hertz_of_khz_text(words[1]) {
                Err(e) => Err(UserParseError::InvalidFrequency(e)),
                Ok(frequency) => Ok(
                    CommandModel::Dx {
                        dx,
                        frequency,
                        comment: comment_text(join(words.skip(2), seq![' '])),
                    },
                ),
            },
        }
    }
}

/// The command that a line stands for. Keywords count in either case; a
/// line that begins with `DX` is a spot; a line that is no known command is
/// kept as it is.
pub open spec fn parse_command(line: Seq<char>) -> Result<CommandModel, UserParseError> {
    let t = trim(line);
    if t.len() == 0 {
        Err(UserParseError::Empty)
    } else if eq_ignore_ascii_case(t, "PING"@) || eq_ignore_ascii_case(t, "HEARTBEAT"@) {
        Ok(CommandModel::Heartbeat)
    } else if t.len() >= 2 && eq_ignore_ascii_case(t.take(2), "DX"@) {
        parse_dx(t.skip(2))
    } else if eq_ignore_ascii_case(t, "SH/DX"@) {
        Ok(CommandModel::Show(ShowCommand::Dx))
    } else if eq_ignore_ascii_case(t, "SH/FILTERS"@) || eq_ignore_ascii_case(t, "SHOW/FILTERS"@) {
        Ok(CommandModel::Show(ShowCommand::Filters))
    } else {
        Ok(CommandModel::Raw(t))
    }
}

/// The line that stands for a command.
pub open spec fn command_line(cmd: CommandModel) -> Seq<char> {
    match cmd {
        CommandModel::Dx { dx, frequency, comment } => "DX "@ + dx + " "@ + khz_text(
            frequency as nat,
        ) + " "@ + comment,
        CommandModel::Show(ShowCommand::Dx) => "SH/DX"@,
        CommandModel::Show(ShowCommand::Filters) => "SH/FILTERS"@,
        CommandModel::Heartbeat => "PING"@,
        CommandModel::Raw(raw) => raw,
    }
}

/// The words with which a node greets a user.
pub open spec fn banner_text(node_name: Seq<char>) -> Seq<char> {
    "Welcome to "@ + node_name + " DX cluster"@
}

fn is_keyword(text: &[char], word: &str) -> (same: bool)
    ensures
        same == eq_ignore_ascii_case(text@, word@),
{
    let w = chars_of(word);
    chars_eq_ignore_ascii_case(text, w.as_slice())
}

fn parse_dx_chars(rest: &[char]) -> (r: Result<UserCommand, UserParseError>)
    ensures
        match r {
            Ok(cmd) => parse_dx(rest@) == Ok::<CommandModel, UserParseError>(cmd@),
            Err(e) => parse_dx(rest@) == Err::<CommandModel, UserParseError>(e),
        },
{
    let mut words = split_whitespace_chars(rest);
    if words.len() < 1 {
        return Err(UserParseError::MissingCallsign);
    }
    if words.len() < 2 {
        return Err(UserParseError::MissingFrequency);
    }
    let ghost all = views(words@);
    assert(all[0] == words@[0]@ && all[1] == words@[1]@);
    let dx_text = string_of(words[0].as_slice());
    let freq_text = string_of(words[1].as_slice());
    let dx = match Callsign::parse_loose(dx_text.as_str()) {
        Ok(call) => call,
        Err(e) => {
            return Err(UserParseError::InvalidCallsign(e));
        },
    };
    let frequency = match FrequencyHz::from_khz_str(freq_text.as_str()) {
        Ok(freq) => freq,
        Err(e) => {
            return Err(UserParseError::InvalidFrequency(e));
        },
    };
    words.remove(0);
    words.remove(0);
    assert(views(words@) =~= all.skip(2));
    let space: Vec<char> = vec![' '];
    assert(space@ =~= seq![' ']);
    let joined = join_chars(&words, space.as_slice());
    let comment = comment_chars(joined.as_slice());
    Ok(UserCommand::Dx { dx, frequency, comment: string_of(comment.as_slice()) })
}

/// The spot command that `rest`, the text after `DX`, stands for.
pub fn parse_dx_command(rest: &str) -> (r: Result<UserCommand, UserParseError>)
    ensures
        match r {
            Ok(cmd) => parse_dx(rest@) == Ok::<CommandModel, UserParseError>(cmd@),
            Err(e) => parse_dx(rest@) == Err::<CommandModel, UserParseError>(e),
        },
{
    let cs = chars_of(rest);
    parse_dx_chars(cs.as_slice())
}

/// The command that `line` stands for, or why it stands for none.
pub fn parse_line(line: &str) -> (r: Result<UserCommand, UserParseError>)
    ensures
        match r {
            Ok(cmd) => parse_command(line@) == Ok::<CommandModel, UserParseError>(cmd@),
            Err(e) => parse_command(line@) == Err::<CommandModel, UserParseError>(e),
        },
{
    let cs = chars_of(line);
    let t = trim_chars(cs.as_slice());
    if t.len() == 0 {
        return Err(UserParseError::Empty);
    }
    if is_keyword(t, "PING") || is_keyword(t, "HEARTBEAT") {
        return Ok(UserCommand::Heartbeat);
    }
    if t.len() >= 2 {
        let head = vstd::slice::slice_subrange(t, 0, 2);
        assert(head@ =~= t@.take(2));
        if is_keyword(head, "DX") {
            let rest = vstd::slice::slice_subrange(t, 2, t.len());
            assert(rest@ =~= t@.skip(2));
            return parse_dx_chars(rest);
        }
    }
    if is_keyword(t, "SH/DX") {
        return Ok(UserCommand::Show(ShowCommand::Dx));
    }
    if is_keyword(t, "SH/FILTERS") || is_keyword(t, "SHOW/FILTERS") {
        return Ok(UserCommand::Show(ShowCommand::Filters));
    }
    Ok(UserCommand::Raw(string_of(t)))
}

/// The words with which the node `node_name` greets a user.
pub fn format_banner(node_name: &str) -> (out: String)
    ensures
        out@ == banner_text(node_name@),
{
    let mut out: Vec<char> = Vec::new();
    push_str(&mut out, "Welcome to ");
    push_str(&mut out, node_name);
    push_str(&mut out, " DX cluster");
    assert(out@ =~= banner_text(node_name@));
    string_of(out.as_slice())
}

/// The sign that the node waits for a command.
pub fn format_prompt() -> (out: String)
    ensures
        out@ == ">"@,
{
    ">".to_owned()
}

/// The line that stands for `cmd`.
pub fn format_command(cmd: &UserCommand) -> (out: String)
    ensures
        out@ == command_line(cmd@),
{
    match cmd {
        UserCommand::Dx { dx, frequency, comment } => {
            let mut out: Vec<char> = Vec::new();
            push_str(&mut out, "DX ");
            push_str(&mut out, dx.as_str());
            push_str(&mut out, " ");
            push_str(&mut out, frequency.to_khz_string().as_str());
            push_str(&mut out, " ");
            push_str(&mut out, comment.as_str());
            assert(out@ =~= command_line(cmd@));
            string_of(out.as_slice())
        },
        UserCommand::Show(ShowCommand::Dx) => "SH/DX".to_owned(),
        UserCommand::Show(ShowCommand::Filters) => "SH/FILTERS".to_owned(),
        UserCommand::Heartbeat => "PING".to_owned(),
        UserCommand::Raw(raw) => raw.clone(),
    }
}

impl CommandModel {
    /// Whether the command can be written as a line and read again: always
    /// for a query and a heartbeat; for a spot where the callsign is a
    /// canonical word and the comment is words with one space between
    /// neighbours.
    pub open spec fn line_safe(self) -> bool {
        match self {
            CommandModel::Dx { dx, frequency, comment } => is_canonical(dx) && is_word(dx)
                && is_spaced_words(comment),
            CommandModel::Show(_) => true,
            CommandModel::Heartbeat => true,
            CommandModel::Raw(_) => false,
        }
    }
}

proof fn lemma_dx_round_trip(dx: Seq<char>, frequency: u64, comment: Seq<char>)
    requires
        is_canonical(dx),
        is_word(dx),
        is_spaced_words(comment),
    ensures
        parse_command(command_line(CommandModel::Dx { dx, frequency, comment })) == Ok::<
            CommandModel,
            UserParseError,
        >(CommandModel::Dx { dx, frequency, comment }),
{
    let cmd = CommandModel::Dx { dx, frequency, comment };
    let line = command_line(cmd);
    let khz = khz_text(frequency as nat);
    reveal_strlit("DX ");
    reveal_strlit(" ");
    reveal_strlit("DX");
    reveal_strlit("PING");
    reveal_strlit("HEARTBEAT");
    lemma_khz_round_trip(frequency);
    let head = seq!['D', 'X'];
    let space = seq![' '];
    let tail3 = space + comment;
    let tail2 = khz + tail3;
    let tail1 = space + tail2;
    let tail0 = dx + tail1;
    let rest = space + tail0;
    assert("DX "@ =~= head + space);
    assert(" "@ =~= space);
    assert(line =~= head + rest);
    assert(line[0] == 'D');
    assert(trim_start(line) == line);
    lemma_trim_end_after(head, rest);
    let t = trim(line);
    assert(t == head + trim_end(rest));
    assert(t[0] == 'D' && t[1] == 'X');
    assert(t.take(2) =~= head);
    assert(t.skip(2) =~= trim_end(rest));
    assert(head =~= "DX"@);
    assert(ascii_upper(t[0]) != ascii_upper("PING"@[0]));
    assert(ascii_upper(t[0]) != ascii_upper("HEARTBEAT"@[0]));
    assert(!eq_ignore_ascii_case(t, "PING"@));
    assert(!eq_ignore_ascii_case(t, "HEARTBEAT"@));
    assert(eq_ignore_ascii_case(t.take(2), "DX"@));
    lemma_tokens_trim_end(rest);
    assert(tokens(space) =~= Seq::<Seq<char>>::empty()) by {
        assert(space.drop_last() =~= Seq::<char>::empty());
        assert(space.last() == ' ');
        assert(is_whitespace(space.last()));
        assert(tokens(space.drop_last()) =~= Seq::<Seq<char>>::empty());
        assert(tokens(space) == tokens(space.drop_last()));
    }
    assert(space.last() == ' ');
    assert(tail1[0] == ' ');
    assert(tail3[0] == ' ');
    lemma_tokens_concat(space, tail0);
    lemma_tokens_concat(dx, tail1);
    lemma_tokens_concat(space, tail2);
    lemma_tokens_concat(khz, tail3);
    lemma_tokens_concat(space, comment);
    lemma_tokens_of_word(dx);
    lemma_tokens_of_word(khz);
    let words = tokens(rest);
    let empty = Seq::<Seq<char>>::empty();
    assert(tokens(tail3) =~= tokens(comment));
    assert(tokens(tail2) =~= seq![khz] + tokens(comment));
    assert(tokens(tail1) =~= seq![khz] + tokens(comment));
    assert(tokens(tail0) =~= seq![dx] + (seq![khz] + tokens(comment)));
    assert(words =~= seq![dx, khz] + tokens(comment));
    assert(words[0] == dx && words[1] == khz);
    assert(words.skip(2) =~= tokens(comment));
}

/// A command that is written as a line and read again is the same command:
/// a spot, a query for spots, a query for the filters, and a heartbeat.
pub proof fn lemma_command_round_trip(cmd: CommandModel)
    requires
        cmd.line_safe(),
    ensures
        parse_command(command_line(cmd)) == Ok::<CommandModel, UserParseError>(cmd),
{
    reveal_strlit("PING");
    reveal_strlit("HEARTBEAT");
    reveal_strlit("DX");
    reveal_strlit("SH/DX");
    reveal_strlit("SH/FILTERS");
    reveal_strlit("SHOW/FILTERS");
    match cmd {
        CommandModel::Dx { dx, frequency, comment } => {
            lemma_dx_round_trip(dx, frequency, comment);
        },
        CommandModel::Show(ShowCommand::Dx) => {
            let line = "SH/DX"@;
            lemma_trim_of_trimmed(line);
            assert(ascii_upper(line.take(2)[0]) != ascii_upper("DX"@[0]));
        },
        CommandModel::Show(ShowCommand::Filters) => {
            let line = "SH/FILTERS"@;
            lemma_trim_of_trimmed(line);
            assert(ascii_upper(line.take(2)[0]) != ascii_upper("DX"@[0]));
        },
        CommandModel::Heartbeat => {
            let line = "PING"@;
            lemma_trim_of_trimmed(line);
        },
        CommandModel::Raw(_) => {},
    }
}

impl UserCommand {
    /// Whether the command can be written as a line and read again. Where it
    /// can, its line reads back as the same command.
    pub fn is_line_safe(&self) -> (safe: bool)
        ensures
            safe == self@.line_safe(),
            safe ==> parse_command(command_line(self@)) == Ok::<CommandModel, UserParseError>(
                self@,
            ),
    {
        let safe = match self {
            UserCommand::Dx { dx, frequency, comment } => {
                let call = chars_of(dx.as_str());
                let words = chars_of(comment.as_str());
                dx.is_canonical() && chars_are_word(call.as_slice()) && chars_are_spaced_words(
                    words.as_slice(),
                )
            },
            UserCommand::Show(_) => true,
            UserCommand::Heartbeat => true,
            UserCommand::Raw(_) => false,
        };
        proof {
            if safe {
                lemma_command_round_trip(self@);
            }
        }
        safe
    }
}

} // verus!
