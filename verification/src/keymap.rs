//! Modes, semantic events, and the per-mode key tables.

use vstd::prelude::*;

verus! {

/// The three interaction modes: browsing the listing, typing a command,
/// reading one message.
#[derive(Debug, Clone, Copy, PartialEq, Eq, Structural, Hash)]
pub enum KeyMode {
    Motion,
    Insert,
    Review,
}

impl KeyMode {
    /// The label shown for the mode on the command line.
    pub open spec fn label_spec(self) -> Seq<char> {
        match self {
            KeyMode::Insert => "INSERT"@,
            KeyMode::Motion => "MOTION"@,
            KeyMode::Review => "REVIEW"@,
        }
    }

    pub fn label(&self) -> (r: &'static str)
        ensures
            r@ == self.label_spec(),
    {
        match self {
            KeyMode::Insert => "INSERT",
            KeyMode::Motion => "MOTION",
            KeyMode::Review => "REVIEW",
        }
    }
}

/// A key of the keyboard, as the terminal reports it.
#[derive(Debug, Clone, Copy, PartialEq, Eq, Structural, Hash)]
pub enum Key {
    Backspace,
    Enter,
    Left,
    Right,
    Up,
    Down,
    Home,
    End,
    PageUp,
    PageDown,
    Tab,
    BackTab,
    Delete,
    Insert,
    F(u8),
    Char(char),
    Null,
    Esc,
}

/// The set of modifier keys held down with a key.
#[derive(Debug, Clone, Copy, PartialEq, Eq, Structural, Hash)]
pub struct Modifiers {
    pub shift: bool,
    pub control: bool,
    pub alt: bool,
}

impl Modifiers {
    pub open spec fn none_spec() -> Modifiers {
        Modifiers { shift: false, control: false, alt: false }
    }

    pub open spec fn control_spec() -> Modifiers {
        Modifiers { shift: false, control: true, alt: false }
    }

    /// No modifier held.
    pub fn none() -> (r: Modifiers)
        ensures
            r == Self::none_spec(),
    {
        Modifiers { shift: false, control: false, alt: false }
    }

    /// Control alone.
    pub fn control() -> (r: Modifiers)
        ensures
            r == Self::control_spec(),
    {
        Modifiers { shift: false, control: true, alt: false }
    }
}

/// A key press: the key, and the modifiers held down with it.
#[derive(Debug, Clone, Copy, PartialEq, Eq, Structural, Hash)]
pub struct KeyEvent {
    pub code: Key,
    pub modifiers: Modifiers,
}

impl KeyEvent {
    pub fn new(code: Key, modifiers: Modifiers) -> (r: KeyEvent)
        ensures
            r == (KeyEvent { code, modifiers }),
    {
        KeyEvent { code, modifiers }
    }
}

/// What a key press means to the application.
#[derive(Debug, Clone, Copy, PartialEq, Eq, Structural)]
pub enum Event {
    ExitApp,
    SelectNextMsg,
    SelectPrevMsg,
    ReviewMsg,
    Quit,
    Submit,
    RawInput(char),
    Backspace,
    CancelFilter,
    SwitchMode(KeyMode),
    ScrollUp,
    ScrollDown,
    ShowLinks,
    ShowStats,
}

/// One entry of a key table: a key, the modifiers it needs, and the event
/// it stands for.
#[derive(Debug, Clone, Copy, PartialEq, Eq, Structural)]
pub struct Keybind(pub Key, pub Modifiers, pub Event);

impl Keybind {
    pub open spec fn matches(self, key: Key, modifier: Modifiers) -> bool {
        self.0 == key && self.1 == modifier
    }

    /// The entry's event if the press is the entry's key with exactly its
    /// modifiers.
    pub fn match_key(&self, key: Key, modifier: Modifiers) -> (r: Option<Event>)
        ensures
            r == (if self.matches(key, modifier) {
                Some(self.2)
            } else {
                None
            }),
    {
        if self.0 == key && self.1 == modifier {
            Some(self.2)
        } else {
            None
        }
    }
}

/// The events of the entries of `binds` that match the press, in table
/// order.
pub open spec fn matching_events(binds: Seq<Keybind>, key: Key, modifier: Modifiers) -> Seq<Event>
    decreases binds.len(),
{
    if binds.len() == 0 {
        Seq::empty()
    } else {
        let rest = matching_events(binds.drop_last(), key, modifier);
        if binds.last().matches(key, modifier) {
            rest.push(binds.last().2)
        } else {
            rest
        }
    }
}

/// No two entries of `binds` answer to the same press.
pub open spec fn disjoint(binds: Seq<Keybind>) -> bool {
    forall|i: int, j: int|
        0 <= i < j < binds.len() ==> !(binds[i].0 == binds[j].0 && binds[i].1 == binds[j].1)
}

/// The text event that a press yields in `Insert` mode beside the table's
/// own: one `RawInput` for a character key, nothing for any other key.
pub open spec fn raw_input(mode: KeyMode, key: Key) -> Seq<Event> {
    match (mode, key) {
        (KeyMode::Insert, Key::Char(c)) => seq![Event::RawInput(c)],
        _ => Seq::empty(),
    }
}

pub open spec fn motion_table() -> Seq<Keybind> {
    seq![
        Keybind(Key::Char('j'), Modifiers::none_spec(), Event::SelectNextMsg),
        Keybind(Key::Char('k'), Modifiers::none_spec(), Event::SelectPrevMsg),
        Keybind(Key::Esc, Modifiers::none_spec(), Event::ExitApp),
        Keybind(Key::Char(':'), Modifiers::none_spec(), Event::SwitchMode(KeyMode::Insert)),
        Keybind(Key::Char('q'), Modifiers::none_spec(), Event::CancelFilter),
        Keybind(Key::Enter, Modifiers::none_spec(), Event::ReviewMsg),
    ]
}

pub open spec fn insert_table() -> Seq<Keybind> {
    seq![
        Keybind(Key::Char('d'), Modifiers::control_spec(), Event::Quit),
        Keybind(Key::Esc, Modifiers::none_spec(), Event::Quit),
        Keybind(Key::Enter, Modifiers::none_spec(), Event::Submit),
        Keybind(Key::Backspace, Modifiers::none_spec(), Event::Backspace),
    ]
}

pub open spec fn review_table() -> Seq<Keybind> {
    seq![
        Keybind(Key::Char('q'), Modifiers::none_spec(), Event::Quit),
        Keybind(Key::Char('j'), Modifiers::none_spec(), Event::ScrollDown),
        Keybind(Key::Char('k'), Modifiers::none_spec(), Event::ScrollUp),
        Keybind(Key::Char('f'), Modifiers::none_spec(), Event::ShowLinks),
        Keybind(Key::Char('s'), Modifiers::none_spec(), Event::ShowStats),
    ]
}

/// One key table per mode, fixed once built.
#[derive(Debug)]
pub struct KeyTables {
    motion: Vec<Keybind>,
    insert: Vec<Keybind>,
    review: Vec<Keybind>,
}

impl KeyTables {
    /// The key table of `mode`.
    pub closed spec fn table(&self, mode: KeyMode) -> Seq<Keybind> {
        match mode {
            KeyMode::Motion => self.motion@,
            KeyMode::Insert => self.insert@,
            KeyMode::Review => self.review@,
        }
    }

    /// Every table is a set of pairwise-disjoint presses.
    pub open spec fn wf(&self) -> bool {
        forall|m: KeyMode| disjoint(#[trigger] self.table(m))
    }

    fn of(&self, mode: KeyMode) -> (r: &Vec<Keybind>)
        ensures
            r@ == self.table(mode),
    {
        match mode {
            KeyMode::Motion => &self.motion,
            KeyMode::Insert => &self.insert,
            KeyMode::Review => &self.review,
        }
    }
}

/// The pair (current mode, previous mode) after a switch to `mode`.
pub open spec fn switched_to(modes: (KeyMode, KeyMode), mode: KeyMode) -> (KeyMode, KeyMode) {
    (mode, modes.0)
}

/// The pair (current mode, previous mode) after a switch back.
pub open spec fn switched_back(modes: (KeyMode, KeyMode)) -> (KeyMode, KeyMode) {
    (modes.1, modes.0)
}

/// The current mode, the mode before it, and the key tables.
#[derive(Debug)]
pub struct Keymap {
    pub mode: KeyMode,
    pub prev_mode: KeyMode,
    pub keybinds: KeyTables,
}

impl Keymap {
    /// The key table of `mode`.
    pub open spec fn table(&self, mode: KeyMode) -> Seq<Keybind> {
        self.keybinds.table(mode)
    }

    /// The pair (current mode, previous mode).
    pub open spec fn modes(&self) -> (KeyMode, KeyMode) {
        (self.mode, self.prev_mode)
    }

    /// Every table is a set of pairwise-disjoint presses.
    pub open spec fn wf(&self) -> bool {
        self.keybinds.wf()
    }

    /// The keymap the application starts with: `Motion` mode, and the
    /// standard three tables.
    pub fn default_keymap() -> (r: Keymap)
        ensures
            r.mode == KeyMode::Motion,
            r.prev_mode == KeyMode::Motion,
            r.table(KeyMode::Motion) == motion_table(),
            r.table(KeyMode::Insert) == insert_table(),
            r.table(KeyMode::Review) == review_table(),
            r.wf(),
    {
        let none = Modifiers::none();
        let mut motion: Vec<Keybind> = Vec::new();
        motion.push(Keybind(Key::Char('j'), none, Event::SelectNextMsg));
        motion.push(Keybind(Key::Char('k'), none, Event::SelectPrevMsg));
        motion.push(Keybind(Key::Esc, none, Event::ExitApp));
        motion.push(Keybind(Key::Char(':'), none, Event::SwitchMode(KeyMode::Insert)));
        motion.push(Keybind(Key::Char('q'), none, Event::CancelFilter));
        motion.push(Keybind(Key::Enter, none, Event::ReviewMsg));
        let mut insert: Vec<Keybind> = Vec::new();
        insert.push(Keybind(Key::Char('d'), Modifiers::control(), Event::Quit));
        insert.push(Keybind(Key::Esc, none, Event::Quit));
        insert.push(Keybind(Key::Enter, none, Event::Submit));
        insert.push(Keybind(Key::Backspace, none, Event::Backspace));
        let mut review: Vec<Keybind> = Vec::new();
        review.push(Keybind(Key::Char('q'), none, Event::Quit));
        review.push(Keybind(Key::Char('j'), none, Event::ScrollDown));
        review.push(Keybind(Key::Char('k'), none, Event::ScrollUp));
        review.push(Keybind(Key::Char('f'), none, Event::ShowLinks));
        review.push(Keybind(Key::Char('s'), none, Event::ShowStats));
        Keymap {
            mode: KeyMode::Motion,
            prev_mode: KeyMode::Motion,
            keybinds: KeyTables { motion, insert, review },
        }
    }

    /// The events of a key press in the current mode: those of the matching
    /// entries of the mode's table, in table order, and then, in `Insert`
    /// mode, the typed character itself.
    pub fn on_key(&self, key: KeyEvent) -> (events: Vec<Event>)
        ensures
            events@ == matching_events(self.table(self.mode), key.code, key.modifiers) + raw_input(
                self.mode,
                key.code,
            ),
    {
        let binds: &Vec<Keybind> = self.keybinds.of(self.mode);
        let mut events: Vec<Event> = Vec::new();
        let mut i: usize = 0;
        while i < binds.len()
            invariant
                i <= binds.len(),
                events@ == matching_events(binds@.take(i as int), key.code, key.modifiers),
            decreases binds.len() - i,
        {
            proof {
                assert(binds@.take(i + 1).drop_last() =~= binds@.take(i as int));
            }
            if let Some(event) = binds[i].match_key(key.code, key.modifiers) {
                events.push(event);
            }
            i += 1;
        }
        proof {
            assert(binds@.take(i as int) =~= binds@);
        }
        if self.mode == KeyMode::Insert {
            if let Key::Char(c) = key.code {
                events.push(Event::RawInput(c));
            }
        }
        events
    }

    /// Makes `mode` the current mode and remembers the mode it replaces.
    pub fn switch_to(&mut self, mode: KeyMode)
        ensures
            final(self).modes() == switched_to(old(self).modes(), mode),
            final(self).keybinds == old(self).keybinds,
    {
        self.prev_mode = self.mode;
        self.mode = mode;
    }

    /// Exchanges the current mode and the remembered one.
    pub fn switch_back(&mut self)
        ensures
            final(self).modes() == switched_back(old(self).modes()),
            final(self).keybinds == old(self).keybinds,
    {
        let temp = self.prev_mode;
        self.prev_mode = self.mode;
        self.mode = temp;
    }
}

/// A table of pairwise-disjoint presses answers a press with at most one
/// event.
pub proof fn lemma_disjoint_matches_at_most_one(binds: Seq<Keybind>, key: Key, modifier: Modifiers)
    requires
        disjoint(binds),
    ensures
        matching_events(binds, key, modifier).len() <= 1,
        matching_events(binds, key, modifier).len() == 1 <==> exists|i: int|
            0 <= i < binds.len() && (#[trigger] binds[i]).matches(key, modifier),
    decreases binds.len(),
{
    if binds.len() > 0 {
        let front = binds.drop_last();
        lemma_disjoint_matches_at_most_one(front, key, modifier);
        if binds.last().matches(key, modifier) {
            assert forall|i: int| 0 <= i < front.len() implies !(#[trigger] front[i]).matches(
                key,
                modifier,
            ) by {
                assert(front[i] == binds[i]);
            }
        } else if exists|i: int|
            0 <= i < binds.len() && (#[trigger] binds[i]).matches(key, modifier) {
            let i = choose|i: int|
                0 <= i < binds.len() && (#[trigger] binds[i]).matches(key, modifier);
            assert(front[i] == binds[i]);
        }
    }
}

/// Switching to any mode and straight back restores the mode that was
/// current before, whatever it was.
pub proof fn lemma_switch_round_trip(modes: (KeyMode, KeyMode), mode: KeyMode)
    ensures
        switched_back(switched_to(modes, mode)).0 == modes.0,
{
}

/// Switching back twice changes nothing: it toggles between two modes and
/// walks no history.
pub proof fn lemma_switch_back_twice(modes: (KeyMode, KeyMode))
    ensures
        switched_back(switched_back(modes)) == modes,
{
}

} // verus!
