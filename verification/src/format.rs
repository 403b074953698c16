//! How a node words what it sends to a user.

use vstd::prelude::*;
use crate::frequency::khz_text;
use crate::spot::{Spot, SpotModel};
use crate::text::{push_str, string_of};
use crate::user::{banner_text, format_banner, format_prompt, LineModel, ServerLine};

verus! {

/// A spot as a user reads it: the spotter, the frequency in kilohertz, the
/// station heard, and the comment.
pub open spec fn spot_line(spot: SpotModel) -> Seq<char> {
    "DX de "@ + spot.spotter + ": "@ + khz_text(spot.freq as nat) + " "@ + spot.dx + " "@
        + spot.comment
}

/// The text of a line that the node sends to a user.
pub open spec fn line_text(line: LineModel) -> Seq<char> {
    match line {
        LineModel::Banner(text) => text,
        LineModel::Prompt => ">"@,
        LineModel::Spot(spot) => spot_line(spot),
        LineModel::Message(text) => text,
    }
}

/// The spot as a user reads it.
pub fn spot_user_line(spot: &Spot) -> (out: String)
    ensures
        out@ == spot_line(spot@),
{
    let mut out: Vec<char> = Vec::new();
    push_str(&mut out, "DX de ");
    push_str(&mut out, spot.spotter.as_str());
    push_str(&mut out, ": ");
    push_str(&mut out, spot.freq.to_khz_string().as_str());
    push_str(&mut out, " ");
    push_str(&mut out, spot.dx.as_str());
    push_str(&mut out, " ");
    push_str(&mut out, spot.comment.as_str());
    assert(out@ =~= spot_line(spot@));
    string_of(out.as_slice())
}

/// The words with which the node `node_name` greets a user.
pub fn banner(node_name: &str) -> (out: String)
    ensures
        out@ == banner_text(node_name@),
{
    format_banner(node_name)
}

/// The text of `line` as it is sent, without the line end.
pub fn render_line(line: &ServerLine) -> (out: String)
    ensures
        out@ == line_text(line@),
{
    match line {
        ServerLine::Banner(text) => text.clone(),
        ServerLine::Prompt => format_prompt(),
        ServerLine::Spot(spot) => spot_user_line(spot),
        ServerLine::Message(text) => text.clone(),
    }
}

} // verus!
