use vstd::prelude::*;

use vstd::arithmetic::div_mod::{lemma_mod_self_0, lemma_small_mod};

use crate::portfwd::{holds_port, insert_sorted, remove_port, sorted_unique, PortForward};
use crate::ssh::{ControlMasterStatus, SshError};
use crate::text::{all_digits, chars_of, decimal_in, decimal_value, is_digit, is_digit_char, pop_char, push_char};

verus! {

/// Current input mode
#[derive(Debug, Clone, Copy, PartialEq, Eq, Structural, Default)]
pub enum InputMode {
    #[default]
    Normal,
    AddingForward,
}

/// What the status line shows after an event.
#[derive(Debug, Clone)]
pub enum StatusMessage {
    StartingMaster,
    MasterStarted { pid: u32 },
    MasterStartFailed(SshError),
    ForwardAdded { port: u16 },
    ForwardDeleted { port: u16 },
    Failed(SshError),
    InvalidPort,
}

/// Work on the control channel that an event asks for. The caller performs
/// it and hands the outcome back through the matching `finish_` method.
#[derive(Debug, Clone, Copy, PartialEq, Eq, Structural)]
pub enum Effect {
    Nothing,
    StartMaster,
    CancelForward { port: u16 },
    AddForward { port: u16 },
}

/// Application state
pub struct App {
    /// The SSH host being managed
    pub hostname: String,
    /// Current control master status
    pub master_status: ControlMasterStatus,
    /// List of active port forwards
    pub forwards: Vec<PortForward>,
    /// Currently selected index in the forwards list
    pub selected: usize,
    /// Current input mode
    pub input_mode: InputMode,
    /// Input buffer for text entry
    pub input_buffer: String,
    /// Status message to display
    pub status_message: Option<StatusMessage>,
    /// Whether the app should quit
    pub should_quit: bool,
}

/// The port that a text writes: one to five digits' worth of value, at most
/// 65535.
pub open spec fn port_of(s: Seq<char>) -> Option<u16> {
    if s.len() > 0 && all_digits(s) && decimal_value(s) <= 65535 {
        Some(decimal_value(s) as u16)
    } else {
        None
    }
}

/// Parses a port number written in decimal digits.
pub fn parse_port(text: &str) -> (r: Option<u16>)
    ensures
        r == port_of(text@),
{
    let v = chars_of(text);
    let mut i: usize = 0;
    while i < v.len()
        invariant
            v@ == text@,
            i <= v@.len(),
            forall|j: int| 0 <= j < i ==> is_digit(#[trigger] v@[j]),
        decreases v@.len() - i,
    {
        if !is_digit_char(v[i]) {
            assert(!all_digits(text@));
            return None;
        }
        i = i + 1;
    }
    assert(v@.subrange(0, v@.len() as int) =~= v@);
    match decimal_in(&v, 0, v.len(), 65535) {
        Some(n) => Some(n as u16),
        None => None,
    }
}

/// Navigation keeps the selection inside a non-empty list and wraps around
/// at both ends; a step down and a step up undo each other.
pub proof fn lemma_navigation_wraps(a: App)
    requires
        a.wf(),
        a.forwards.len() > 0,
    ensures
        a.next_index() < a.forwards.len(),
        a.prev_index() < a.forwards.len(),
        a.selected == a.forwards.len() - 1 ==> a.next_index() == 0,
        a.selected == 0 ==> a.prev_index() == a.forwards.len() - 1,
        (App { selected: a.next_index(), ..a }).prev_index() == a.selected,
        (App { selected: a.prev_index(), ..a }).next_index() == a.selected,
{
    let n = a.forwards.len() as int;
    let s = a.selected as int;
    if s + 1 < n {
        lemma_small_mod((s + 1) as nat, n as nat);
    } else {
        lemma_mod_self_0(n);
    }
    assert(a.next_index() == if s + 1 < n { s + 1 } else { 0 });
    let b = App { selected: a.next_index(), ..a };
    assert(b.forwards@.len() == n);
    if s == 0 {
        lemma_mod_self_0(n);
    } else {
        lemma_small_mod(s as nat, n as nat);
    }
}

impl App {
    /// The session's invariant: forwards sorted by port without duplicates,
    /// the selection inside the list (zero where it is empty), and the input
    /// buffer made of digits only.
    pub open spec fn wf(&self) -> bool {
        &&& sorted_unique(self.forwards@)
        &&& (self.selected < self.forwards@.len() || self.selected == 0)
        &&& all_digits(self.input_buffer@)
    }

    /// The port of the selected forward.
    pub open spec fn selected_port(&self) -> u16 {
        self.forwards@[self.selected as int].local_port
    }

    /// The selection one step down, wrapping to the top.
    pub open spec fn next_index(&self) -> usize {
        if self.forwards.len() == 0 {
            self.selected
        } else {
            ((self.selected + 1) % (self.forwards.len() as int)) as usize
        }
    }

    /// The selection one step up, wrapping to the bottom.
    pub open spec fn prev_index(&self) -> usize {
        if self.forwards.len() == 0 {
            self.selected
        } else if self.selected == 0 {
            (self.forwards.len() - 1) as usize
        } else {
            (self.selected - 1) as usize
        }
    }

    /// Host, master status and forward list are those of `o`.
    pub open spec fn same_session(&self, o: &App) -> bool {
        &&& self.hostname == o.hostname
        &&& self.master_status == o.master_status
        &&& self.forwards@ == o.forwards@
    }

    pub fn new(
        hostname: String,
        master_status: ControlMasterStatus,
        forwards: Vec<PortForward>,
    ) -> (r: Self)
        ensures
            r.wf(),
            r.hostname == hostname,
            r.master_status == master_status,
            forall|p: u16| holds_port(r.forwards@, p) <==> holds_port(forwards@, p),
            r.selected == 0,
            r.input_mode == InputMode::Normal,
            r.input_buffer@.len() == 0,
            r.status_message is None,
            !r.should_quit,
    {
        let mut sorted: Vec<PortForward> = Vec::new();
        let mut i: usize = 0;
        while i < forwards.len()
            invariant
                i <= forwards@.len(),
                sorted_unique(sorted@),
                forall|p: u16| holds_port(sorted@, p) <==> holds_port(forwards@.take(i as int), p),
            decreases forwards@.len() - i,
        {
            insert_sorted(&mut sorted, forwards[i].local_port);
            assert forall|p: u16| holds_port(sorted@, p) <==> holds_port(forwards@.take(i + 1), p) by {
                let t = forwards@.take(i + 1);
                if holds_port(forwards@.take(i as int), p) {
                    let k = choose|k: int| 0 <= k < i && forwards@.take(i as int)[k].local_port == p;
                    assert(t[k].local_port == p);
                }
                if p == forwards@[i as int].local_port {
                    assert(t[i as int].local_port == p);
                }
                if holds_port(t, p) {
                    let k = choose|k: int| 0 <= k < t.len() && t[k].local_port == p;
                    if k < i {
                        assert(forwards@.take(i as int)[k].local_port == p);
                    }
                }
            }
            i = i + 1;
        }
        assert(forwards@.take(forwards@.len() as int) =~= forwards@);
        Self {
            hostname,
            master_status,
            forwards: sorted,
            selected: 0,
            input_mode: InputMode::Normal,
            input_buffer: String::new(),
            status_message: None,
            should_quit: false,
        }
    }

    /// Move selection down
    pub fn select_next(&mut self)
        requires
            old(self).wf(),
        ensures
            final(self).wf(),
            old(self).input_mode != InputMode::Normal ==> *final(self) == *old(self),
            old(self).input_mode == InputMode::Normal ==> {
                &&& final(self).same_session(old(self))
                &&& final(self).selected == old(self).next_index()
                &&& final(self).status_message is None
                &&& final(self).input_mode == old(self).input_mode
                &&& final(self).input_buffer == old(self).input_buffer
                &&& final(self).should_quit == old(self).should_quit
            },
    {
        if self.input_mode != InputMode::Normal {
            return;
        }
        self.status_message = None;
        if self.forwards.len() > 0 {
            self.selected = (self.selected + 1) % self.forwards.len();
        }
    }

    /// Move selection up
    pub fn select_prev(&mut self)
        requires
            old(self).wf(),
        ensures
            final(self).wf(),
            old(self).input_mode != InputMode::Normal ==> *final(self) == *old(self),
            old(self).input_mode == InputMode::Normal ==> {
                &&& final(self).same_session(old(self))
                &&& final(self).selected == old(self).prev_index()
                &&& final(self).status_message is None
                &&& final(self).input_mode == old(self).input_mode
                &&& final(self).input_buffer == old(self).input_buffer
                &&& final(self).should_quit == old(self).should_quit
            },
    {
        if self.input_mode != InputMode::Normal {
            return;
        }
        self.status_message = None;
        if self.forwards.len() > 0 {
            if self.selected == 0 {
                self.selected = self.forwards.len() - 1;
            } else {
                self.selected = self.selected - 1;
            }
        }
    }

    /// Handle a key press event in normal mode
    pub fn on_key(&mut self, key: char) -> (r: Effect)
        requires
            old(self).wf(),
        ensures
            final(self).wf(),
            old(self).input_mode != InputMode::Normal ==> *final(self) == *old(self) && r
                == Effect::Nothing,
            old(self).input_mode == InputMode::Normal ==> {
                let o = *old(self);
                let f = *final(self);
                let starts = key == 'a' && o.master_status == ControlMasterStatus::NotRunning;
                let enters = key == 'a' && o.master_status is Running;
                &&& f.same_session(&o)
                &&& f.status_message == if starts {
                    Some(StatusMessage::StartingMaster)
                } else {
                    None::<StatusMessage>
                }
                &&& f.should_quit == (o.should_quit || key == 'q')
                &&& f.selected == if key == 'j' {
                    o.next_index()
                } else if key == 'k' {
                    o.prev_index()
                } else {
                    o.selected
                }
                &&& f.input_mode == if enters {
                    InputMode::AddingForward
                } else {
                    InputMode::Normal
                }
                &&& f.input_buffer@ == if enters {
                    Seq::<char>::empty()
                } else {
                    o.input_buffer@
                }
                &&& r == if starts {
                    Effect::StartMaster
                } else if key == 'd' && o.forwards@.len() > 0 {
                    Effect::CancelForward { port: o.selected_port() }
                } else {
                    Effect::Nothing
                }
            },
    {
        if self.input_mode != InputMode::Normal {
            return Effect::Nothing;
        }
        // Clear status message on any key press
        self.status_message = None;
        if key == 'q' {
            self.should_quit = true;
            Effect::Nothing
        } else if key == 'j' {
            self.select_next();
            Effect::Nothing
        } else if key == 'k' {
            self.select_prev();
            Effect::Nothing
        } else if key == 'a' {
            self.start_add_forward()
        } else if key == 'd' {
            self.delete_selected_forward()
        } else {
            Effect::Nothing
        }
    }

    /// Start adding a new forward, or ask for a control master first where
    /// none runs.
    fn start_add_forward(&mut self) -> (r: Effect)
        requires
            old(self).wf(),
        ensures
            final(self).wf(),
            final(self).same_session(old(self)),
            final(self).selected == old(self).selected,
            final(self).should_quit == old(self).should_quit,
            old(self).master_status == ControlMasterStatus::NotRunning ==> {
                &&& r == Effect::StartMaster
                &&& final(self).status_message == Some(StatusMessage::StartingMaster)
                &&& final(self).input_mode == old(self).input_mode
                &&& final(self).input_buffer == old(self).input_buffer
            },
            old(self).master_status is Running ==> {
                &&& r == Effect::Nothing
                &&& final(self).status_message == old(self).status_message
                &&& final(self).input_mode == InputMode::AddingForward
                &&& final(self).input_buffer@.len() == 0
            },
    {
        match self.master_status {
            ControlMasterStatus::NotRunning => {
                self.status_message = Some(StatusMessage::StartingMaster);
                Effect::StartMaster
            },
            ControlMasterStatus::Running { .. } => {
                self.input_mode = InputMode::AddingForward;
                self.input_buffer = String::new();
                Effect::Nothing
            },
        }
    }

    /// Ask to cancel the selected forward, if there is one.
    fn delete_selected_forward(&mut self) -> (r: Effect)
        requires
            old(self).wf(),
        ensures
            *final(self) == *old(self),
            r == if old(self).forwards@.len() > 0 {
                Effect::CancelForward { port: old(self).selected_port() }
            } else {
                Effect::Nothing
            },
    {
        if self.forwards.len() == 0 {
            return Effect::Nothing;
        }
        Effect::CancelForward { port: self.forwards[self.selected].local_port }
    }

    /// Handle input in AddingForward mode
    pub fn on_input_key(&mut self, key: char)
        requires
            old(self).wf(),
        ensures
            final(self).wf(),
            final(self).same_session(old(self)),
            final(self).selected == old(self).selected,
            final(self).input_mode == old(self).input_mode,
            final(self).status_message == old(self).status_message,
            final(self).should_quit == old(self).should_quit,
            final(self).input_buffer@ == if old(self).input_mode == InputMode::AddingForward
                && is_digit(key) {
                old(self).input_buffer@.push(key)
            } else {
                old(self).input_buffer@
            },
    {
        // Only allow digits for port number
        if self.input_mode == InputMode::AddingForward && is_digit_char(key) {
            push_char(&mut self.input_buffer, key);
        }
    }

    /// Handle backspace in input mode
    pub fn on_input_backspace(&mut self)
        requires
            old(self).wf(),
        ensures
            final(self).wf(),
            final(self).same_session(old(self)),
            final(self).selected == old(self).selected,
            final(self).input_mode == old(self).input_mode,
            final(self).status_message == old(self).status_message,
            final(self).should_quit == old(self).should_quit,
            final(self).input_buffer@ == if old(self).input_mode == InputMode::AddingForward
                && old(self).input_buffer@.len() > 0 {
                old(self).input_buffer@.drop_last()
            } else {
                old(self).input_buffer@
            },
    {
        if self.input_mode == InputMode::AddingForward {
            pop_char(&mut self.input_buffer);
        }
    }

    /// Cancel input mode
    pub fn cancel_input(&mut self)
        requires
            old(self).wf(),
        ensures
            final(self).wf(),
            old(self).input_mode != InputMode::AddingForward ==> *final(self) == *old(self),
            old(self).input_mode == InputMode::AddingForward ==> {
                &&& final(self).same_session(old(self))
                &&& final(self).selected == old(self).selected
                &&& final(self).input_mode == InputMode::Normal
                &&& final(self).input_buffer@.len() == 0
                &&& final(self).status_message == old(self).status_message
                &&& final(self).should_quit == old(self).should_quit
            },
    {
        if self.input_mode == InputMode::AddingForward {
            self.input_mode = InputMode::Normal;
            self.input_buffer = String::new();
        }
    }

    /// Submit the current input: a valid port asks for a forward, anything
    /// else is refused here with no work on the control channel.
    pub fn submit_input(&mut self) -> (r: Effect)
        requires
            old(self).wf(),
        ensures
            final(self).wf(),
            old(self).input_mode != InputMode::AddingForward ==> *final(self) == *old(self) && r
                == Effect::Nothing,
            old(self).input_mode == InputMode::AddingForward ==> {
                let o = *old(self);
                let f = *final(self);
                &&& f.same_session(&o)
                &&& f.selected == o.selected
                &&& f.input_mode == InputMode::Normal
                &&& f.input_buffer@.len() == 0
                &&& f.should_quit == o.should_quit
                &&& match port_of(o.input_buffer@) {
                    Some(port) => r == Effect::AddForward { port } && f.status_message
                        == o.status_message,
                    None => r == Effect::Nothing && f.status_message == Some(
                        StatusMessage::InvalidPort,
                    ),
                }
            },
    {
        if self.input_mode != InputMode::AddingForward {
            return Effect::Nothing;
        }
        let parsed = parse_port(self.input_buffer.as_str());
        self.input_mode = InputMode::Normal;
        self.input_buffer = String::new();
        match parsed {
            Some(port) => Effect::AddForward { port },
            None => {
                self.status_message = Some(StatusMessage::InvalidPort);
                Effect::Nothing
            },
        }
    }

    /// Takes in the outcome of starting a control master: on success the
    /// master is running and input of a port begins; on failure only the
    /// status line changes.
    pub fn finish_start_master(&mut self, outcome: Result<u32, SshError>)
        requires
            old(self).wf(),
        ensures
            final(self).wf(),
            final(self).hostname == old(self).hostname,
            final(self).forwards@ == old(self).forwards@,
            final(self).selected == old(self).selected,
            final(self).should_quit == old(self).should_quit,
            match outcome {
                Ok(pid) => {
                    &&& final(self).master_status == ControlMasterStatus::Running { pid }
                    &&& final(self).status_message == Some(StatusMessage::MasterStarted { pid })
                    &&& final(self).input_mode == InputMode::AddingForward
                    &&& final(self).input_buffer@.len() == 0
                },
                Err(e) => {
                    &&& final(self).master_status == old(self).master_status
                    &&& final(self).status_message == Some(StatusMessage::MasterStartFailed(e))
                    &&& final(self).input_mode == old(self).input_mode
                    &&& final(self).input_buffer == old(self).input_buffer
                },
            },
    {
        match outcome {
            Ok(pid) => {
                self.master_status = ControlMasterStatus::Running { pid };
                self.status_message = Some(StatusMessage::MasterStarted { pid });
                self.input_mode = InputMode::AddingForward;
                self.input_buffer = String::new();
            },
            Err(e) => {
                self.status_message = Some(StatusMessage::MasterStartFailed(e));
            },
        }
    }

    /// Takes in the outcome of adding the forward `port`: on success it joins
    /// the list at its place.
    pub fn finish_add_forward(&mut self, port: u16, outcome: Result<(), SshError>)
        requires
            old(self).wf(),
        ensures
            final(self).wf(),
            final(self).hostname == old(self).hostname,
            final(self).master_status == old(self).master_status,
            final(self).selected == old(self).selected,
            final(self).input_mode == old(self).input_mode,
            final(self).input_buffer == old(self).input_buffer,
            final(self).should_quit == old(self).should_quit,
            match outcome {
                Ok(_) => {
                    &&& forall|p: u16| holds_port(final(self).forwards@, p) <==> (holds_port(
                        old(self).forwards@,
                        p,
                    ) || p == port)
                    &&& final(self).status_message == Some(StatusMessage::ForwardAdded { port })
                },
                Err(e) => {
                    &&& final(self).forwards@ == old(self).forwards@
                    &&& final(self).status_message == Some(StatusMessage::Failed(e))
                },
            },
    {
        match outcome {
            Ok(()) => {
                insert_sorted(&mut self.forwards, port);
                self.status_message = Some(StatusMessage::ForwardAdded { port });
            },
            Err(e) => {
                self.status_message = Some(StatusMessage::Failed(e));
            },
        }
    }

    /// Takes in the outcome of cancelling the forward `port`: on success it
    /// leaves the list and the selection is clamped to the new last entry.
    pub fn finish_cancel_forward(&mut self, port: u16, outcome: Result<(), SshError>)
        requires
            old(self).wf(),
        ensures
            final(self).wf(),
            final(self).hostname == old(self).hostname,
            final(self).master_status == old(self).master_status,
            final(self).input_mode == old(self).input_mode,
            final(self).input_buffer == old(self).input_buffer,
            final(self).should_quit == old(self).should_quit,
            match outcome {
                Ok(_) => {
                    &&& forall|p: u16| holds_port(final(self).forwards@, p) <==> (holds_port(
                        old(self).forwards@,
                        p,
                    ) && p != port)
                    &&& final(self).selected == if final(self).forwards@.len() == 0 {
                        0
                    } else if old(self).selected < final(self).forwards@.len() {
                        old(self).selected
                    } else {
                        (final(self).forwards@.len() - 1) as usize
                    }
                    &&& !holds_port(final(self).forwards@, port)
                    &&& final(self).status_message == Some(StatusMessage::ForwardDeleted { port })
                },
                Err(e) => {
                    &&& final(self).forwards@ == old(self).forwards@
                    &&& final(self).selected == old(self).selected
                    &&& final(self).status_message == Some(StatusMessage::Failed(e))
                },
            },
    {
        match outcome {
            Ok(()) => {
                remove_port(&mut self.forwards, port);
                if self.forwards.len() == 0 {
                    self.selected = 0;
                } else if self.selected >= self.forwards.len() {
                    self.selected = self.forwards.len() - 1;
                }
                self.status_message = Some(StatusMessage::ForwardDeleted { port });
            },
            Err(e) => {
                self.status_message = Some(StatusMessage::Failed(e));
            },
        }
    }
}

} // verus!
