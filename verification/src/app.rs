//! The application state and its two drivers: semantic events from the
//! keyboard, and the timer tick that settles what is owed to the backend.

use vstd::prelude::*;
use vstd::string::StringExecFns;
use crate::command::{
    command_line, command_line_spec, listing_command, listing_command_spec, verb_of, Verb,
};
use crate::data::{Msg, ReviewFlags};
use crate::keymap::{switched_back, switched_to, Event, KeyMode, KeyTables, Keymap};
use crate::links::{
    joined, line_segments, links_of_lines, scan_content, segment_views, text_lines, Segment,
};
use crate::text::{
    decimal, parse_reference, push_decimal, reference_target, text_of, texts, tokenize, words,
};

verus! {

/// One query context: the raw text of a filter.
#[derive(Debug, Clone, PartialEq)]
pub struct Filter(pub String);

/// The texts of a stack of filters, bottom first.
pub open spec fn filter_texts(filters: Seq<Filter>) -> Seq<Seq<char>> {
    Seq::new(filters.len(), |i: int| filters[i].0@)
}

/// The selection after a move to the next row of a listing of `size` rows:
/// one row down, from the last row to the first, and to the first row when
/// nothing is selected. An empty listing keeps the selection as it is.
pub open spec fn next_selection(selected: Option<usize>, size: usize) -> Option<usize> {
    if size == 0 {
        selected
    } else {
        match selected {
            Some(i) => if i >= size - 1 {
                Some(0)
            } else {
                Some((i + 1) as usize)
            },
            None => Some(0),
        }
    }
}

/// The selection after a move to the previous row: one row up, from the
/// first row to the last, and to the first row when nothing is selected.
pub open spec fn previous_selection(selected: Option<usize>, size: usize) -> Option<usize> {
    if size == 0 {
        selected
    } else {
        match selected {
            Some(i) => if i == 0 {
                Some((size - 1) as usize)
            } else {
                Some((i - 1) as usize)
            },
            None => Some(0),
        }
    }
}

/// The selection is a row of a listing of `size` rows, or nothing.
pub open spec fn selection_ok(selected: Option<usize>, size: usize) -> bool {
    match selected {
        Some(i) => i < size,
        None => true,
    }
}

/// The selected row, the message on display with its scroll offset, and
/// the review pane's switches.
#[derive(Debug)]
pub struct AppState {
    pub selected: Option<usize>,
    pub content: (String, u16),
    pub review_flags: ReviewFlags,
}

impl AppState {
    /// Selects the next row of a listing of `size` rows.
    pub fn next(&mut self, size: usize)
        ensures
            final(self).selected == next_selection(old(self).selected, size),
            final(self).content == old(self).content,
            final(self).review_flags == old(self).review_flags,
    {
        if size != 0 {
            let i: usize = match self.selected {
                Some(i) => {
                    if i >= size - 1 {
                        0
                    } else {
                        i + 1
                    }
                },
                None => 0,
            };
            self.selected = Some(i);
        }
    }

    /// Selects the previous row of a listing of `size` rows.
    pub fn previous(&mut self, size: usize)
        ensures
            final(self).selected == previous_selection(old(self).selected, size),
            final(self).content == old(self).content,
            final(self).review_flags == old(self).review_flags,
    {
        if size != 0 {
            let i: usize = match self.selected {
                Some(i) => {
                    if i == 0 {
                        size - 1
                    } else {
                        i - 1
                    }
                },
                None => 0,
            };
            self.selected = Some(i);
        }
    }
}

/// The whole application state.
#[derive(Debug)]
pub struct App {
    pub emails: Vec<Msg>,
    pub keymap: Keymap,
    pub command_input: String,
    pub filters: Vec<Filter>,
    pub state: AppState,
    pub should_quit: bool,
    pub need_update: bool,
}

/// The application state as plain mathematical values.
pub struct AppModel {
    pub emails: Seq<Msg>,
    /// The current mode and the mode before it.
    pub modes: (KeyMode, KeyMode),
    pub keybinds: KeyTables,
    pub command_input: Seq<char>,
    /// The filter stack, bottom first.
    pub filters: Seq<Seq<char>>,
    pub selected: Option<usize>,
    pub content: Seq<char>,
    pub scroll: u16,
    pub show_stats: bool,
    pub show_links: bool,
    pub links: Seq<Seq<char>>,
    pub should_quit: bool,
    pub need_update: bool,
}

impl View for App {
    type V = AppModel;

    open spec fn view(&self) -> AppModel {
        AppModel {
            emails: self.emails@,
            modes: self.keymap.modes(),
            keybinds: self.keymap.keybinds,
            command_input: self.command_input@,
            filters: filter_texts(self.filters@),
            selected: self.state.selected,
            content: self.state.content.0@,
            scroll: self.state.content.1,
            show_stats: self.state.review_flags.show_stats,
            show_links: self.state.review_flags.show_links,
            links: texts(self.state.review_flags.links@),
            should_quit: self.should_quit,
            need_update: self.need_update,
        }
    }
}

/// A stack without its top; an empty stack stays empty.
pub open spec fn popped(filters: Seq<Seq<char>>) -> Seq<Seq<char>> {
    if filters.len() == 0 {
        filters
    } else {
        filters.drop_last()
    }
}

/// The filter that asks for the body of message `id`.
pub open spec fn read_filter(id: usize) -> Seq<char> {
    "read "@ + decimal(id as nat)
}

/// The effect of an event while browsing the listing. Cancelling a filter
/// owes an update even when there was no filter to cancel: the listing is
/// then fetched afresh.
pub open spec fn after_motion(m: AppModel, event: Event) -> AppModel {
    match event {
        Event::ExitApp => AppModel { should_quit: true, ..m },
        Event::SelectNextMsg => AppModel {
            selected: next_selection(m.selected, m.emails.len() as usize),
            ..m
        },
        Event::SelectPrevMsg => AppModel {
            selected: previous_selection(m.selected, m.emails.len() as usize),
            ..m
        },
        Event::SwitchMode(mode) => AppModel { modes: switched_to(m.modes, mode), ..m },
        Event::CancelFilter => AppModel {
            filters: popped(m.filters),
            need_update: true,
            command_input: Seq::empty(),
            ..m
        },
        Event::ReviewMsg => match m.selected {
            Some(i) => if i < m.emails.len() {
                AppModel {
                    filters: m.filters.push(read_filter(m.emails[i as int].id)),
                    need_update: true,
                    ..m
                }
            } else {
                m
            },
            None => m,
        },
        _ => m,
    }
}

/// The effect of an event while a command is typed. Submitting moves the
/// input onto the filter stack and leaves the input empty.
pub open spec fn after_insert(m: AppModel, event: Event) -> AppModel {
    match event {
        Event::Quit => AppModel {
            command_input: Seq::empty(),
            modes: switched_back(m.modes),
            ..m
        },
        Event::Submit => AppModel {
            filters: m.filters.push(m.command_input),
            command_input: Seq::empty(),
            modes: switched_back(m.modes),
            need_update: true,
            ..m
        },
        Event::RawInput(c) => AppModel { command_input: m.command_input.push(c), ..m },
        Event::Backspace => AppModel {
            command_input: if m.command_input.len() == 0 {
                m.command_input
            } else {
                m.command_input.drop_last()
            },
            ..m
        },
        _ => m,
    }
}

/// The effect of an event while a message is read. The scroll offset
/// stops at zero on the way up and at the largest offset on the way down.
pub open spec fn after_review(m: AppModel, event: Event) -> AppModel {
    match event {
        Event::Quit => AppModel {
            modes: switched_to(m.modes, KeyMode::Motion),
            content: Seq::empty(),
            scroll: 0,
            filters: popped(m.filters),
            need_update: true,
            command_input: Seq::empty(),
            ..m
        },
        Event::ScrollUp => AppModel {
            scroll: if m.scroll > 0 {
                (m.scroll - 1) as u16
            } else {
                0
            },
            ..m
        },
        Event::ScrollDown => AppModel {
            scroll: if m.scroll < u16::MAX {
                (m.scroll + 1) as u16
            } else {
                m.scroll
            },
            ..m
        },
        Event::ShowLinks => AppModel {
            show_links: true,
            command_input: "follow "@,
            modes: switched_to(m.modes, KeyMode::Insert),
            ..m
        },
        Event::ShowStats => AppModel { show_stats: !m.show_stats, ..m },
        _ => m,
    }
}

/// The effect of an event: the current mode decides what the event means,
/// and an event that the mode does not know changes nothing.
pub open spec fn after_event(m: AppModel, event: Event) -> AppModel {
    match m.modes.0 {
        KeyMode::Motion => after_motion(m, event),
        KeyMode::Insert => after_insert(m, event),
        KeyMode::Review => after_review(m, event),
    }
}

/// What a tick asks of the world outside.
#[derive(Debug, Clone, PartialEq)]
pub enum TickRequest {
    /// Nothing is owed: the tick does nothing.
    Idle,
    /// Run this command line and decode a listing from what it prints.
    List(String),
    /// Run this command line and decode one message body from what it
    /// prints.
    Fetch(String),
    /// Open this link; `None` where the reference names no link.
    Follow(Option<String>),
    /// The active filter asks for nothing that is known.
    Skip,
}

/// A tick's request as plain mathematical values.
pub enum Plan {
    Idle,
    List(Seq<char>),
    Fetch(Seq<char>),
    Follow(Option<Seq<char>>),
    Skip,
}

impl View for TickRequest {
    type V = Plan;

    open spec fn view(&self) -> Plan {
        match self {
            TickRequest::Idle => Plan::Idle,
            TickRequest::List(line) => Plan::List(line@),
            TickRequest::Fetch(line) => Plan::Fetch(line@),
            TickRequest::Follow(Some(link)) => Plan::Follow(Some(link@)),
            TickRequest::Follow(None) => Plan::Follow(None),
            TickRequest::Skip => Plan::Skip,
        }
    }
}

/// What can go wrong in a tick. None of it ends the application.
#[derive(Debug, Clone, Copy, PartialEq, Eq, Structural)]
pub enum Failure {
    /// The backend could not be started, or ended abnormally.
    BackendUnavailable,
    /// The backend's answer is not of the expected shape.
    DecodeFailure,
    /// A `follow` names no link: its reference is no number, or out of
    /// range.
    InvalidReference,
    /// The host could not open a link.
    OpenFailure,
}

impl Failure {
    /// The failure in words, for the command line.
    pub open spec fn describe_spec(self) -> Seq<char> {
        match self {
            Failure::BackendUnavailable => "the mail backend is not available"@,
            Failure::DecodeFailure => "the mail backend's answer does not decode"@,
            Failure::InvalidReference => "no such link"@,
            Failure::OpenFailure => "the link could not be opened"@,
        }
    }

    pub fn describe(&self) -> (r: &'static str)
        ensures
            r@ == self.describe_spec(),
    {
        match self {
            Failure::BackendUnavailable => "the mail backend is not available",
            Failure::DecodeFailure => "the mail backend's answer does not decode",
            Failure::InvalidReference => "no such link",
            Failure::OpenFailure => "the link could not be opened",
        }
    }
}

/// What came of a tick's request.
#[derive(Debug, Clone, PartialEq)]
pub enum Outcome {
    /// Nothing was asked for, or what was asked for returns nothing.
    Nothing,
    /// The request failed, and how.
    Failed(Failure),
    /// The listing that the backend sent.
    Listing(Vec<Msg>),
    /// The message body that the backend sent.
    Body(String),
}

/// The link that the words of a `follow` filter name, if they name one:
/// the second word is a reference into the link registry, counted from 1.
pub open spec fn followed_link(tokens: Seq<Seq<char>>, links: Seq<Seq<char>>) -> Option<Seq<char>> {
    if tokens.len() > 1 {
        match reference_target(tokens[1], links.len()) {
            Some(k) => Some(links[k as int]),
            None => None,
        }
    } else {
        None
    }
}

/// What the next tick asks for. Nothing while nothing is owed. Otherwise
/// the top of the filter stack decides alone: with no filter, the full
/// listing; with one, what the verb of its first word names.
pub open spec fn plan_of(m: AppModel) -> Plan {
    if !m.need_update {
        Plan::Idle
    } else if m.filters.len() == 0 {
        Plan::List(listing_command_spec())
    } else {
        let tokens = words(m.filters.last());
        if tokens.len() == 0 {
            Plan::Skip
        } else {
            match verb_of(tokens[0]) {
                Verb::Search => Plan::List(command_line_spec(tokens)),
                Verb::Read => Plan::Fetch(command_line_spec(tokens)),
                Verb::Follow => Plan::Follow(followed_link(tokens, m.links)),
                Verb::Other => Plan::Skip,
            }
        }
    }
}

/// The state after a tick whose request came to `outcome`.
///
/// A listing replaces the messages and drops the selection; a listing
/// that failed leaves no messages. A body becomes the message on display,
/// unscrolled, and the mode becomes `Review`; a fetch that failed changes
/// nothing. An outcome of another kind than the one asked for counts as a
/// failure. A `follow` is unwound whether or not its reference named a
/// link: highlighting off, mode `Review`, the filter popped, the input
/// emptied. In every case but the idle one the owed update is settled.
pub open spec fn after_tick(m: AppModel, outcome: Outcome) -> AppModel {
    match plan_of(m) {
        Plan::Idle => m,
        Plan::List(_) => AppModel {
            emails: match outcome {
                Outcome::Listing(emails) => emails@,
                _ => Seq::empty(),
            },
            selected: None,
            need_update: false,
            ..m
        },
        Plan::Fetch(_) => match outcome {
            Outcome::Body(text) => AppModel {
                content: text@,
                scroll: 0,
                modes: switched_to(m.modes, KeyMode::Review),
                need_update: false,
                ..m
            },
            _ => AppModel { need_update: false, ..m },
        },
        Plan::Follow(_) => AppModel {
            show_links: false,
            modes: switched_to(m.modes, KeyMode::Review),
            filters: popped(m.filters),
            command_input: Seq::empty(),
            need_update: false,
            ..m
        },
        Plan::Skip => AppModel { need_update: false, ..m },
    }
}

/// The failure that a tick reports, if any: the one that the outcome
/// carries; a decode failure where the outcome is of another kind than the
/// one asked for; an invalid reference where a `follow` names no link.
pub open spec fn tick_failure(m: AppModel, outcome: Outcome) -> Option<Failure> {
    match plan_of(m) {
        Plan::Idle => None,
        Plan::List(_) => match outcome {
            Outcome::Listing(_) => None,
            Outcome::Failed(failure) => Some(failure),
            _ => Some(Failure::DecodeFailure),
        },
        Plan::Fetch(_) => match outcome {
            Outcome::Body(_) => None,
            Outcome::Failed(failure) => Some(failure),
            _ => Some(Failure::DecodeFailure),
        },
        Plan::Follow(None) => Some(Failure::InvalidReference),
        Plan::Follow(Some(_)) => match outcome {
            Outcome::Failed(failure) => Some(failure),
            _ => None,
        },
        Plan::Skip => None,
    }
}

impl App {
    /// The selection, if any, is a row of the listing, and no key table
    /// answers one press twice.
    pub open spec fn wf(&self) -> bool {
        selection_ok(self.state.selected, self.emails@.len() as usize) && self.keymap.wf()
    }

    /// The state at start: the given listing, browsing, nothing selected,
    /// nothing typed, no filter, nothing owed.
    pub fn new(emails: Vec<Msg>) -> (app: App)
        ensures
            app.wf(),
            app.emails == emails,
            app@.modes == (KeyMode::Motion, KeyMode::Motion),
            app.keymap.table(KeyMode::Motion) == crate::keymap::motion_table(),
            app.keymap.table(KeyMode::Insert) == crate::keymap::insert_table(),
            app.keymap.table(KeyMode::Review) == crate::keymap::review_table(),
            app@.command_input.len() == 0,
            app@.filters.len() == 0,
            app@.selected.is_none(),
            app@.content.len() == 0,
            app@.scroll == 0,
            !app@.show_stats,
            !app@.show_links,
            app@.links.len() == 0,
            !app@.should_quit,
            !app@.need_update,
    {
        App {
            emails,
            keymap: Keymap::default_keymap(),
            state: AppState {
                selected: None,
                content: (String::new(), 0),
                review_flags: ReviewFlags { show_stats: false, show_links: false, links: Vec::new() },
            },
            command_input: String::new(),
            filters: Vec::new(),
            should_quit: false,
            need_update: false,
        }
    }

    /// The active filter: the top of the filter stack.
    pub fn curr_filter(&self) -> (r: Option<&Filter>)
        ensures
            self.filters@.len() == 0 ==> r.is_none(),
            self.filters@.len() > 0 ==> r == Some(&self.filters@.last()),
    {
        if self.filters.len() == 0 {
            None
        } else {
            Some(&self.filters[self.filters.len() - 1])
        }
    }

    fn pop_filter(&mut self)
        ensures
            final(self)@ == (AppModel { filters: popped(old(self)@.filters), ..old(self)@ }),
            final(self).emails == old(self).emails,
            final(self).state.selected == old(self).state.selected,
    {
        self.filters.pop();
        proof {
            assert(filter_texts(self.filters@) =~= popped(filter_texts(old(self).filters@)));
        }
    }

    fn push_filter(&mut self, text: String)
        ensures
            final(self)@ == (AppModel { filters: old(self)@.filters.push(text@), ..old(self)@ }),
            final(self).emails == old(self).emails,
            final(self).state.selected == old(self).state.selected,
    {
        self.filters.push(Filter(text));
        proof {
            assert(filter_texts(self.filters@) =~= filter_texts(old(self).filters@).push(text@));
        }
    }

    /// What the next tick asks of the world outside. The caller carries
    /// the request out and hands what came of it to `on_tick`.
    pub fn tick_request(&self) -> (request: TickRequest)
        ensures
            request@ == plan_of(self@),
    {
        if !self.need_update {
            return TickRequest::Idle;
        }
        match self.curr_filter() {
            None => TickRequest::List(listing_command()),
            Some(filter) => {
                let tokens = tokenize(filter.0.as_str());
                if tokens.len() == 0 {
                    return TickRequest::Skip;
                }
                match Verb::of(tokens[0].as_str()) {
                    Verb::Search => TickRequest::List(command_line(&tokens)),
                    Verb::Read => TickRequest::Fetch(command_line(&tokens)),
                    Verb::Follow => {
                        let links = &self.state.review_flags.links;
                        if tokens.len() > 1 {
                            match parse_reference(tokens[1].as_str(), links.len()) {
                                Some(k) => TickRequest::Follow(Some(links[k].clone())),
                                None => TickRequest::Follow(None),
                            }
                        } else {
                            TickRequest::Follow(None)
                        }
                    },
                    Verb::Other => TickRequest::Skip,
                }
            },
        }
    }

    /// Settles the tick: takes what came of the request that
    /// `tick_request` made of this state and updates the state from it.
    /// Whatever came, nothing is owed afterwards. A failure is handed back
    /// for the caller to show; it never stops the application.
    pub fn on_tick(&mut self, outcome: Outcome) -> (failure: Option<Failure>)
        ensures
            final(self)@ == after_tick(old(self)@, outcome),
            failure == tick_failure(old(self)@, outcome),
            !final(self).need_update,
            final(self).should_quit == old(self).should_quit,
            old(self).wf() ==> final(self).wf(),
    {
        match self.tick_request() {
            TickRequest::Idle => None,
            TickRequest::List(_) => {
                let failure = match outcome {
                    Outcome::Listing(emails) => {
                        self.emails = emails;
                        None
                    },
                    Outcome::Failed(failure) => {
                        self.emails = Vec::new();
                        Some(failure)
                    },
                    _ => {
                        self.emails = Vec::new();
                        Some(Failure::DecodeFailure)
                    },
                };
                self.state.selected = None;
                self.need_update = false;
                failure
            },
            TickRequest::Fetch(_) => {
                let failure = match outcome {
                    Outcome::Body(text) => {
                        self.state.content = (text, 0);
                        self.keymap.switch_to(KeyMode::Review);
                        None
                    },
                    Outcome::Failed(failure) => Some(failure),
                    _ => Some(Failure::DecodeFailure),
                };
                self.need_update = false;
                failure
            },
            TickRequest::Follow(link) => {
                self.state.review_flags.show_links = false;
                self.keymap.switch_to(KeyMode::Review);
                self.pop_filter();
                self.command_input.clear();
                self.need_update = false;
                match (link, outcome) {
                    (None, _) => Some(Failure::InvalidReference),
                    (Some(_), Outcome::Failed(failure)) => Some(failure),
                    (Some(_), _) => None,
                }
            },
            TickRequest::Skip => {
                self.need_update = false;
                None
            },
        }
    }

    /// Whether a message is on display; the listing shows while none is.
    pub fn showing_content(&self) -> (r: bool)
        ensures
            r == (self@.content.len() > 0),
    {
        !self.state.content.0.as_str().is_empty()
    }

    /// The text of the command line: what is being typed while a command
    /// is typed, else the active filter, or with no filter the input.
    pub open spec fn command_text_spec(m: AppModel) -> Seq<char> {
        if m.modes.0 == KeyMode::Insert || m.filters.len() == 0 {
            m.command_input
        } else {
            m.filters.last()
        }
    }

    pub fn command_text(&self) -> (r: &String)
        ensures
            r@ == Self::command_text_spec(self@),
    {
        match self.keymap.mode {
            KeyMode::Insert => &self.command_input,
            _ => match self.curr_filter() {
                Some(filter) => {
                    &filter.0
                },
                None => &self.command_input,
            },
        }
    }

    /// The rows of the listing, one per message, in order.
    pub fn rows(&self) -> (rows: Vec<Vec<String>>)
        ensures
            rows@.len() == self.emails@.len(),
            forall|i: int|
                0 <= i < rows@.len() ==> texts((#[trigger] rows@[i])@) == self.emails@[i].row_spec(),
    {
        let mut rows: Vec<Vec<String>> = Vec::new();
        let mut i: usize = 0;
        while i < self.emails.len()
            invariant
                i <= self.emails.len(),
                rows@.len() == i,
                forall|j: int|
                    0 <= j < i ==> texts((#[trigger] rows@[j])@) == self.emails@[j].row_spec(),
            decreases self.emails.len() - i,
        {
            rows.push(self.emails[i].row());
            i += 1;
        }
        rows
    }

    /// Scans the message on display for links and cuts each of its lines
    /// into plain text and links. The link registry is rebuilt from the
    /// scan; nothing else changes.
    pub fn review_segments(&mut self) -> (lines: Vec<Vec<Segment>>)
        ensures
            final(self)@ == (AppModel {
                links: links_of_lines(text_lines(old(self)@.content)),
                ..old(self)@
            }),
            lines@.len() == text_lines(old(self)@.content).len(),
            forall|i: int|
                0 <= i < lines@.len() ==> segment_views((#[trigger] lines@[i])@) == line_segments(
                    text_lines(old(self)@.content)[i],
                    links_of_lines(text_lines(old(self)@.content).take(i)).len(),
                ),
            forall|i: int|
                0 <= i < lines@.len() ==> joined(segment_views((#[trigger] lines@[i])@))
                    == text_lines(old(self)@.content)[i],
            old(self).wf() ==> final(self).wf(),
    {
        scan_content(self.state.content.0.as_str(), &mut self.state.review_flags.links)
    }

    /// The line of statistics under the message, while statistics are
    /// switched on.
    pub open spec fn stats_line_spec(m: AppModel) -> Option<Seq<char>> {
        if m.show_stats {
            Some("Total Links: "@ + decimal(m.links.len()))
        } else {
            None
        }
    }

    pub fn stats_line(&self) -> (r: Option<String>)
        ensures
            text_of(r) == Self::stats_line_spec(self@),
    {
        if self.state.review_flags.show_stats {
            let mut line = String::from_str("Total Links: ");
            push_decimal(&mut line, self.state.review_flags.links.len());
            Some(line)
        } else {
            None
        }
    }

    /// Applies one semantic event to the state.
    pub fn on_event(&mut self, event: Event)
        ensures
            final(self)@ == after_event(old(self)@, event),
            old(self).wf() ==> final(self).wf(),
    {
        match self.keymap.mode {
            KeyMode::Motion => match event {
                Event::ExitApp => {
                    self.should_quit = true;
                },
                Event::SelectNextMsg => {
                    let size = self.emails.len();
                    self.state.next(size);
                },
                Event::SelectPrevMsg => {
                    let size = self.emails.len();
                    self.state.previous(size);
                },
                Event::SwitchMode(mode) => {
                    self.keymap.switch_to(mode);
                },
                Event::CancelFilter => {
                    self.pop_filter();
                    self.need_update = true;
                    self.command_input.clear();
                },
                Event::ReviewMsg => {
                    if let Some(selected) = self.state.selected {
                        if selected < self.emails.len() {
                            let id = self.emails[selected].id;
                            let mut text = String::from_str("read ");
                            push_decimal(&mut text, id);
                            self.push_filter(text);
                            self.need_update = true;
                        }
                    }
                },
                _ => {},
            },
            KeyMode::Insert => match event {
                Event::Quit => {
                    self.command_input.clear();
                    self.keymap.switch_back();
                },
                Event::Submit => {
                    let text = self.command_input.clone();
                    self.push_filter(text);
                    self.command_input.clear();
                    self.keymap.switch_back();
                    self.need_update = true;
                },
                Event::RawInput(c) => {
                    self.command_input.push(c);
                },
                Event::Backspace => {
                    self.command_input.pop();
                },
                _ => {},
            },
            KeyMode::Review => match event {
                Event::Quit => {
                    self.keymap.switch_to(KeyMode::Motion);
                    self.state.content = (String::new(), 0);
                    self.pop_filter();
                    self.need_update = true;
                    self.command_input.clear();
                },
                Event::ScrollUp => {
                    if self.state.content.1 > 0 {
                        self.state.content.1 -= 1;
                    }
                },
                Event::ScrollDown => {
                    if self.state.content.1 < u16::MAX {
                        self.state.content.1 += 1;
                    }
                },
                Event::ShowLinks => {
                    self.state.review_flags.show_links = true;
                    self.command_input = String::from_str("follow ");
                    self.keymap.switch_to(KeyMode::Insert);
                },
                Event::ShowStats => {
                    self.state.review_flags.show_stats = !self.state.review_flags.show_stats;
                },
                _ => {},
            },
        }
    }
}

/// The state after a run of events, applied in order.
pub open spec fn after_events(m: AppModel, events: Seq<Event>) -> AppModel
    decreases events.len(),
{
    if events.len() == 0 {
        m
    } else {
        after_event(after_events(m, events.drop_last()), events.last())
    }
}

/// One step down or up a listing keeps the selection on a row, and goes
/// round: the row after the last is the first, the row before the first
/// is the last.
pub proof fn lemma_selection_wraps(i: usize, size: usize)
    requires
        i < size,
    ensures
        next_selection(Some(i), size) == Some(((i + 1) % (size as int)) as usize),
        previous_selection(Some(i), size) == Some(((i + size - 1) % (size as int)) as usize),
{
    let n = size as int;
    if i + 1 < n {
        vstd::arithmetic::div_mod::lemma_small_mod((i + 1) as nat, n as nat);
    } else {
        vstd::arithmetic::div_mod::lemma_mod_self_0(n);
    }
    if i == 0 {
        vstd::arithmetic::div_mod::lemma_small_mod((n - 1) as nat, n as nat);
    } else {
        vstd::arithmetic::div_mod::lemma_mod_add_multiples_vanish(i - 1, n);
        vstd::arithmetic::div_mod::lemma_small_mod((i - 1) as nat, n as nat);
    }
}

/// No run of events takes the selection off the listing: events leave the
/// listing as it is, and the selection stays a row of it, or nothing. On
/// an empty listing the selection stays nothing whatever the events are.
pub proof fn lemma_events_keep_selection(m: AppModel, events: Seq<Event>)
    requires
        m.emails.len() <= usize::MAX,
        selection_ok(m.selected, m.emails.len() as usize),
    ensures
        after_events(m, events).emails == m.emails,
        selection_ok(after_events(m, events).selected, m.emails.len() as usize),
        m.emails.len() == 0 ==> after_events(m, events).selected.is_none(),
    decreases events.len(),
{
    if events.len() > 0 {
        lemma_events_keep_selection(m, events.drop_last());
    }
}

/// While browsing, no run of moves to the next or the previous message
/// takes the selection off the listing: it stays a row of the listing,
/// and stays nothing while the listing is empty.
pub proof fn lemma_moves_keep_selection(m: AppModel, events: Seq<Event>)
    requires
        m.modes.0 == KeyMode::Motion,
        m.emails.len() <= usize::MAX,
        selection_ok(m.selected, m.emails.len() as usize),
        forall|k: int|
            0 <= k < events.len() ==> events[k] == Event::SelectNextMsg || events[k]
                == Event::SelectPrevMsg,
    ensures
        after_events(m, events) == (AppModel { selected: after_events(m, events).selected, ..m }),
        selection_ok(after_events(m, events).selected, m.emails.len() as usize),
        m.emails.len() > 0 && events.len() > 0 ==> after_events(m, events).selected.is_some(),
        m.emails.len() == 0 ==> after_events(m, events).selected == m.selected,
    decreases events.len(),
{
    if events.len() > 0 {
        let front = events.drop_last();
        lemma_moves_keep_selection(m, front);
    }
}

/// A filter pushed and at once cancelled leaves the filter stack as it
/// was: the pop undoes the push exactly.
pub proof fn lemma_cancel_undoes_push(m: AppModel, filter: Seq<char>)
    requires
        m.modes.0 == KeyMode::Motion,
    ensures
        after_event(
            AppModel { filters: m.filters.push(filter), ..m },
            Event::CancelFilter,
        ).filters == m.filters,
{
}

/// A command submitted from the listing and at once cancelled leaves the
/// filter stack as it was before the command.
pub proof fn lemma_cancel_undoes_submit(m: AppModel)
    requires
        m.modes == (KeyMode::Insert, KeyMode::Motion),
    ensures
        after_event(after_event(m, Event::Submit), Event::CancelFilter).filters == m.filters,
{
}

/// An event that changes the filter stack leaves an update owed.
pub proof fn lemma_filter_change_owes_update(m: AppModel, event: Event)
    ensures
        after_event(m, event).filters != m.filters ==> after_event(m, event).need_update,
{
}

/// An event never settles an owed update: only a tick does.
pub proof fn lemma_events_keep_what_is_owed(m: AppModel, event: Event)
    ensures
        m.need_update ==> after_event(m, event).need_update,
{
}

/// Whatever ends the typing of a command empties the input.
pub proof fn lemma_leaving_entry_clears_input(m: AppModel, event: Event)
    requires
        m.modes.0 == KeyMode::Insert,
        event == Event::Quit || event == Event::Submit,
    ensures
        after_event(m, event).command_input == Seq::<char>::empty(),
        after_event(m, event).modes.0 == m.modes.1,
{
}

/// Typing starts from the listing with a switch to `Insert`, and from a
/// message with the request to show links. Either way, giving the command
/// up or submitting it leads back to the mode in which typing started.
pub proof fn lemma_entry_returns_to_origin(m: AppModel, leave: Event)
    requires
        m.modes.0 != KeyMode::Insert,
        leave == Event::Quit || leave == Event::Submit,
    ensures
        after_event(
            after_event(
                m,
                if m.modes.0 == KeyMode::Motion {
                    Event::SwitchMode(KeyMode::Insert)
                } else {
                    Event::ShowLinks
                },
            ),
            leave,
        ).modes.0 == m.modes.0,
{
}

/// After a tick nothing is owed, whatever was owed before it and
/// whatever came of the request; and a tick at which nothing is owed
/// changes nothing.
pub proof fn lemma_tick_settles(m: AppModel, outcome: Outcome)
    ensures
        !after_tick(m, outcome).need_update,
        !m.need_update ==> after_tick(m, outcome) == m,
{
}

/// No failure of a tick ends the application: only the exit event, while
/// browsing, ever asks for that.
pub proof fn lemma_only_exit_quits(m: AppModel, event: Event, outcome: Outcome)
    requires
        !m.should_quit,
    ensures
        !after_tick(m, outcome).should_quit,
        after_event(m, event).should_quit <==> m.modes.0 == KeyMode::Motion && event
            == Event::ExitApp,
{
}

/// The request of a tick depends on the state through three things only:
/// whether an update is owed, the top of the filter stack, and the link
/// registry.
pub proof fn lemma_top_filter_decides(a: AppModel, b: AppModel)
    requires
        a.need_update == b.need_update,
        a.filters.len() > 0 <==> b.filters.len() > 0,
        a.filters.len() > 0 ==> a.filters.last() == b.filters.last(),
        a.links == b.links,
    ensures
        plan_of(a) == plan_of(b),
{
}

} // verus!
