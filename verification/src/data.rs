//! What the mail backend reports: message summaries and their status flags.

use vstd::prelude::*;
use vstd::string::StringExecFns;
use crate::text::{decimal, push_decimal, texts};

verus! {

/// A status flag of a message.
#[derive(Debug, Clone, PartialEq)]
pub enum Flag {
    Seen,
    Answered,
    Flagged,
    Deleted,
    Draft,
    Recent,
    MayCreate,
    Custom(String),
}

impl Flag {
    /// The glyph that stands for the flag: a custom label stands for
    /// itself.
    pub open spec fn glyph_spec(self) -> Seq<char> {
        match self {
            Flag::Seen | Flag::Recent | Flag::MayCreate => " "@,
            Flag::Answered => "↵"@,
            Flag::Flagged => "⚑"@,
            Flag::Deleted => "🗑"@,
            Flag::Draft => "✉"@,
            Flag::Custom(c) => c@,
        }
    }

    pub fn glyph(&self) -> (r: String)
        ensures
            r@ == self.glyph_spec(),
    {
        match self {
            Flag::Seen | Flag::Recent | Flag::MayCreate => String::from_str(" "),
            Flag::Answered => String::from_str("↵"),
            Flag::Flagged => String::from_str("⚑"),
            Flag::Deleted => String::from_str("🗑"),
            Flag::Draft => String::from_str("✉"),
            Flag::Custom(c) => c.clone(),
        }
    }

    /// Whether `self` is the flag `wanted`, for a `wanted` that is no
    /// custom label.
    fn is_plain(&self, wanted: &Flag) -> (r: bool)
        requires
            !(wanted is Custom),
        ensures
            r == (*self == *wanted),
    {
        match (self, wanted) {
            (Flag::Seen, Flag::Seen) => true,
            (Flag::Answered, Flag::Answered) => true,
            (Flag::Flagged, Flag::Flagged) => true,
            (Flag::Deleted, Flag::Deleted) => true,
            (Flag::Draft, Flag::Draft) => true,
            (Flag::Recent, Flag::Recent) => true,
            (Flag::MayCreate, Flag::MayCreate) => true,
            _ => false,
        }
    }
}

/// The three status glyphs of a listing row: unseen, answered, flagged.
pub open spec fn flags_glyphs(flags: Seq<Flag>) -> Seq<char> {
    (if flags.contains(Flag::Seen) {
        " "@
    } else {
        "✷"@
    }) + (if flags.contains(Flag::Answered) {
        "↵"@
    } else {
        " "@
    }) + (if flags.contains(Flag::Flagged) {
        "⚑"@
    } else {
        " "@
    })
}

fn has_flag(flags: &Vec<Flag>, wanted: &Flag) -> (r: bool)
    requires
        !(wanted is Custom),
    ensures
        r == flags@.contains(*wanted),
{
    let mut i: usize = 0;
    while i < flags.len()
        invariant
            i <= flags.len(),
            !(wanted is Custom),
            forall|j: int| 0 <= j < i ==> flags@[j] != *wanted,
        decreases flags.len() - i,
    {
        if flags[i].is_plain(wanted) {
            return true;
        }
        i += 1;
    }
    false
}

/// The summary of one message in a listing.
#[derive(Debug, Clone, PartialEq)]
pub struct Msg {
    pub id: usize,
    pub flags: Vec<Flag>,
    pub subject: String,
    pub sender: String,
    pub date: String,
}

impl Msg {
    /// The cells of the message's listing row.
    pub open spec fn row_spec(&self) -> Seq<Seq<char>> {
        seq![
            decimal(self.id as nat),
            flags_glyphs(self.flags@),
            self.subject@,
            self.sender@,
            self.date@,
        ]
    }

    /// The status column of the message's row: a mark while the message is
    /// unseen, one once it is answered, one if it is flagged, a space in
    /// place of each mark that does not apply.
    pub fn flags_string(&self) -> (flags: String)
        ensures
            flags@ == flags_glyphs(self.flags@),
    {
        let mut flags = String::new();
        flags.append(if has_flag(&self.flags, &Flag::Seen) {
            " "
        } else {
            "✷"
        });
        flags.append(if has_flag(&self.flags, &Flag::Answered) {
            "↵"
        } else {
            " "
        });
        flags.append(if has_flag(&self.flags, &Flag::Flagged) {
            "⚑"
        } else {
            " "
        });
        flags
    }

    /// The row of the message in the listing: id, status, subject, sender,
    /// date.
    pub fn row(&self) -> (cells: Vec<String>)
        ensures
            texts(cells@) == self.row_spec(),
    {
        let mut id = String::new();
        push_decimal(&mut id, self.id);
        let mut cells: Vec<String> = Vec::new();
        cells.push(id);
        cells.push(self.flags_string());
        cells.push(self.subject.clone());
        cells.push(self.sender.clone());
        cells.push(self.date.clone());
        cells
    }
}

/// A listing as the backend sends it.
#[derive(Debug, Clone, PartialEq)]
pub struct Response {
    pub response: Vec<Msg>,
}

/// Display switches of the review pane, and the links found in the message
/// on display.
#[derive(Debug)]
pub struct ReviewFlags {
    pub show_stats: bool,
    pub show_links: bool,
    pub links: Vec<String>,
}

impl Default for ReviewFlags {
    fn default() -> (r: ReviewFlags)
        ensures
            !r.show_stats,
            !r.show_links,
            r.links@.len() == 0,
    {
        ReviewFlags { show_stats: false, show_links: false, links: Vec::new() }
    }
}

} // verus!
