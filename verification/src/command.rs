//! Commands: the verb that a filter starts with, and the command line that
//! asks the mail backend for what the filter names.

use vstd::prelude::*;
use vstd::string::StringExecFns;
use crate::text::{lowercase, same_text, texts, uppercase};

verus! {

/// What the first word of a filter asks for.
#[derive(Debug, Clone, Copy, PartialEq, Eq, Structural)]
pub enum Verb {
    /// A listing restricted by the remaining words.
    Search,
    /// The body of one message.
    Read,
    /// Opening a link of the message on display.
    Follow,
    /// Anything else: nothing is done.
    Other,
}

/// The verb that an upper-case word names.
pub open spec fn verb_named(upper: Seq<char>) -> Verb {
    if upper == "SEARCH"@ {
        Verb::Search
    } else if upper == "READ"@ {
        Verb::Read
    } else if upper == "FOLLOW"@ {
        Verb::Follow
    } else {
        Verb::Other
    }
}

/// The verb of a word: case is ignored.
pub open spec fn verb_of(word: Seq<char>) -> Verb {
    verb_named(uppercase(word))
}

impl Verb {
    /// The verb that a word already in upper case names.
    pub fn named(upper: &str) -> (r: Verb)
        ensures
            r == verb_named(upper@),
    {
        if same_text(upper, "SEARCH") {
            Verb::Search
        } else if same_text(upper, "READ") {
            Verb::Read
        } else if same_text(upper, "FOLLOW") {
            Verb::Follow
        } else {
            Verb::Other
        }
    }

    /// The verb of a word, whatever its case.
    pub fn of(word: &str) -> (r: Verb)
        ensures
            r == verb_of(word@),
    {
        let upper = word.to_uppercase();
        Verb::named(upper.as_str())
    }
}

/// The words that the backend's search takes as the start of a query; a
/// search that starts with any other word is a search by subject.
pub open spec fn search_keywords() -> Seq<Seq<char>> {
    seq![
        "all"@,
        "answered"@,
        "before"@,
        "body"@,
        "deleted"@,
        "from"@,
        "header"@,
        "new"@,
        "not"@,
        "or"@,
        "recent"@,
        "seen"@,
        "subject"@,
        "text"@,
        "to"@,
    ]
}

/// Whether a word already in lower case is a search keyword.
pub fn is_search_keyword(lower: &str) -> (r: bool)
    ensures
        r == search_keywords().contains(lower@),
{
    let r = same_text(lower, "all") || same_text(lower, "answered") || same_text(lower, "before")
        || same_text(lower, "body") || same_text(lower, "deleted") || same_text(lower, "from")
        || same_text(lower, "header") || same_text(lower, "new") || same_text(lower, "not")
        || same_text(lower, "or") || same_text(lower, "recent") || same_text(lower, "seen")
        || same_text(lower, "subject") || same_text(lower, "text") || same_text(lower, "to");
    proof {
        let k = search_keywords();
        if r {
            let i = choose|i: int| 0 <= i < 15 && k[i] == lower@;
            assert(k[i] == lower@);
        }
    }
    r
}

/// The command up to its arguments: the backend's name and output format,
/// then `read` for a fetch, or `search subject` for a search whose first
/// argument is no search keyword.
pub open spec fn command_head(tokens: Seq<Seq<char>>) -> Seq<char> {
    let base = "himalaya --output json"@;
    if tokens.len() == 0 {
        base
    } else {
        match verb_of(tokens[0]) {
            Verb::Search => if tokens.len() > 1 && !search_keywords().contains(
                lowercase(tokens[1]),
            ) {
                base + " search subject"@
            } else {
                base
            },
            Verb::Read => base + " read"@,
            _ => base,
        }
    }
}

/// The options after the arguments: a search with an argument asks for
/// every page.
pub open spec fn command_options(tokens: Seq<Seq<char>>) -> Seq<char> {
    if tokens.len() > 1 && verb_of(tokens[0]) == Verb::Search {
        "-s 0"@
    } else {
        ""@
    }
}

/// `line` followed by each of `args`, a space before each.
pub open spec fn with_args(line: Seq<char>, args: Seq<Seq<char>>) -> Seq<char>
    decreases args.len(),
{
    if args.len() == 0 {
        line
    } else {
        with_args(line, args.drop_last()) + " "@ + args.last()
    }
}

/// The words after the verb.
pub open spec fn arguments(tokens: Seq<Seq<char>>) -> Seq<Seq<char>> {
    if tokens.len() == 0 {
        Seq::empty()
    } else {
        tokens.skip(1)
    }
}

/// The command line for the filter whose words are `tokens`.
pub open spec fn command_line_spec(tokens: Seq<Seq<char>>) -> Seq<char> {
    with_args(command_head(tokens), arguments(tokens)) + " "@ + command_options(tokens)
}

/// Builds the command line that asks the backend for what a filter names:
/// the head that the filter's verb selects, the filter's remaining words,
/// a space, and the options.
pub fn command_line(command: &Vec<String>) -> (line: String)
    ensures
        line@ == command_line_spec(texts(command@)),
{
    let ghost tokens = texts(command@);
    let mut line = String::from_str("himalaya --output json");
    let mut options: &str = "";
    if command.len() > 0 {
        match Verb::of(command[0].as_str()) {
            Verb::Search => {
                if command.len() > 1 {
                    let lower = command[1].to_lowercase();
                    if !is_search_keyword(lower.as_str()) {
                        line.append(" search subject");
                    }
                    options = "-s 0";
                }
            },
            Verb::Read => {
                line.append(" read");
            },
            _ => {},
        }
    }
    let mut i: usize = 1;
    while i < command.len()
        invariant
            1 <= i,
            tokens == texts(command@),
            command.len() >= 1 ==> i <= command.len(),
            command.len() >= 1 ==> line@ == with_args(
                command_head(tokens),
                tokens.subrange(1, i as int),
            ),
            command.len() == 0 ==> line@ == command_head(tokens),
        decreases command.len() - i,
    {
        proof {
            assert(tokens.subrange(1, i + 1).drop_last() =~= tokens.subrange(1, i as int));
        }
        line.append(" ");
        line.append(command[i].as_str());
        i += 1;
    }
    line.append(" ");
    line.append(options);
    line
}

/// The command line that asks the backend for the full, unfiltered listing.
pub open spec fn listing_command_spec() -> Seq<char> {
    "himalaya --output json list -s 0"@
}

pub fn listing_command() -> (line: String)
    ensures
        line@ == listing_command_spec(),
{
    String::from_str("himalaya --output json list -s 0")
}

/// A copy of a listing, item for item. Narrowing a listing is the
/// backend's work, so nothing is left out here.
pub fn filter<T: Clone>(data: &Vec<T>) -> (out: Vec<T>)
    ensures
        out@.len() == data@.len(),
        forall|i: int| 0 <= i < data@.len() ==> cloned::<T>(#[trigger] data@[i], out@[i]),
{
    data.clone()
}

} // verus!
