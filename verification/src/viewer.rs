//! The decisions of the terminal viewer: which requests it has received, what it
//! knows of the terminal, and how each event changes that. The event loop, the
//! terminal and the input thread belong to the program that drives it.

use vstd::prelude::*;
use vstd::string::{StringExecFns, to_string_from_display_ensures};

verus! {

/// Why the viewer stopped.
#[derive(Debug)]
pub enum AppError {
    /// Reading terminal events or drawing failed.
    Io(std::io::Error),
    /// The event channel closed.
    Recv(std::sync::mpsc::RecvError),
}

impl AppError {
    /// The message of the error: `IO Error: ` or `Receive Error: `, followed by the
    /// inner error's own message.
    pub fn message(&self) -> (s: String)
        ensures
            match self {
                AppError::Io(e) => exists|t: String|
                    to_string_from_display_ensures::<std::io::Error>(e, t) && s@ == "IO Error: "@ + t@,
                AppError::Recv(e) => exists|t: String|
                    to_string_from_display_ensures::<std::sync::mpsc::RecvError>(e, t) && s@
                        == "Receive Error: "@ + t@,
            },
    {
        match self {
            AppError::Io(e) => {
                let text = e.to_string();
                let mut s = String::from_str("IO Error: ");
                s.append(text.as_str());
                s
            },
            AppError::Recv(e) => {
                let text = e.to_string();
                let mut s = String::from_str("Receive Error: ");
                s.append(text.as_str());
                s
            },
        }
    }
}

/// The requests that event handlers leave for the event loop.
pub struct AppRequests {
    exit: bool,
}

impl View for AppRequests {
    /// Whether an exit has been requested.
    type V = bool;

    closed spec fn view(&self) -> bool {
        self.exit
    }
}

impl AppRequests {
    /// No request yet.
    pub fn new() -> (r: Self)
        ensures
            !r@,
    {
        AppRequests { exit: false }
    }

    /// Asks the event loop to stop.
    pub fn request_exit(&mut self)
        ensures
            final(self)@,
            final(self)@ == exit_after_call(old(self)@, RequestCall::RequestExit),
    {
        self.exit = true;
    }

    /// Whether an exit has been asked for.
    pub fn exit_requested(&self) -> (b: bool)
        ensures
            b == self@,
    {
        self.exit
    }
}

/// A call on `AppRequests` after `new`.
#[derive(Clone, Copy, PartialEq, Eq, Structural, Debug)]
pub enum RequestCall {
    /// `request_exit`.
    RequestExit,
    /// `exit_requested`, which only reads.
    ExitRequested,
}

/// Whether an exit is requested after one call, given whether one was before:
/// what `request_exit` and `exit_requested` ensure of the view.
pub open spec fn exit_after_call(exit: bool, call: RequestCall) -> bool {
    match call {
        RequestCall::RequestExit => true,
        RequestCall::ExitRequested => exit,
    }
}

/// Whether an exit is requested after `AppRequests::new` and then `calls`, in order.
pub open spec fn exit_after_calls(calls: Seq<RequestCall>) -> bool
    decreases calls.len(),
{
    if calls.len() == 0 {
        false
    } else {
        exit_after_call(exit_after_calls(calls.drop_last()), calls.last())
    }
}

/// After `new` and any sequence of calls, `exit_requested` reports true exactly
/// when `request_exit` was among them; so a new value has no request, and once
/// one is made no later call takes it back.
pub proof fn law_exit_request_history(calls: Seq<RequestCall>, more: Seq<RequestCall>)
    ensures
        exit_after_calls(calls) == calls.contains(RequestCall::RequestExit),
        exit_after_calls(calls) ==> exit_after_calls(calls + more),
    decreases calls.len() + more.len(),
{
    if calls.len() > 0 {
        law_exit_request_history(calls.drop_last(), Seq::empty());
        if calls.last() == RequestCall::RequestExit {
            assert(calls[calls.len() - 1] == RequestCall::RequestExit);
        } else if calls.contains(RequestCall::RequestExit) {
            let i = choose|i: int| 0 <= i < calls.len() && calls[i] == RequestCall::RequestExit;
            assert(calls.drop_last()[i] == RequestCall::RequestExit);
        } else {
            assert forall|i: int| 0 <= i < calls.drop_last().len() implies calls.drop_last()[i]
                != RequestCall::RequestExit by {
                assert(calls.drop_last()[i] == calls[i]);
            }
        }
    }
    if more.len() > 0 {
        law_exit_request_history(calls, more.drop_last());
        assert((calls + more).drop_last() =~= calls + more.drop_last());
    } else {
        assert(calls + more =~= calls);
    }
}

/// The size of the terminal, in cells.
#[derive(Clone, Copy, PartialEq, Eq, Structural, Debug)]
pub struct TermSize {
    pub width: u16,
    pub height: u16,
}

/// What the viewer knows of its terminal.
pub struct AppContext {
    pub focused: bool,
    pub size: TermSize,
    pub last_mouse_pos: Option<(u16, u16)>,
}

impl AppContext {
    /// Unfocused, of size zero, with no mouse position seen yet.
    pub fn new() -> (c: Self)
        ensures
            !c.focused,
            c.size == (TermSize { width: 0, height: 0 }),
            c.last_mouse_pos is None,
    {
        AppContext { focused: false, size: TermSize { width: 0, height: 0 }, last_mouse_pos: None }
    }
}

/// Where an event came from.
pub enum EventSource {
    Crossterm,
}

/// The keys that the viewer tells apart.
#[derive(Clone, Copy, PartialEq, Eq, Structural, Debug)]
pub enum KeyCode {
    Esc,
    Other,
}

/// An event of the terminal.
pub enum TermEvent {
    FocusGained,
    FocusLost,
    Key(KeyCode),
    Mouse { column: u16, row: u16 },
    Paste(String),
    Resize { width: u16, height: u16 },
}

/// An event that the viewer handles.
pub enum AppEvent {
    Term(TermEvent),
    IoError(EventSource, Box<std::io::Error>),
}

/// A one-cell box drawn at a column and a row.
#[derive(Clone, Copy, PartialEq, Eq, Structural, Debug, PartialOrd, Ord, Hash)]
pub struct CursorBox(pub u16, pub u16);

/// What the event loop does after an event: stop, or draw and wait for the next.
#[derive(Clone, Copy, PartialEq, Eq, Structural, Debug)]
pub enum LoopAction {
    Stop,
    Draw,
}

/// The state of the viewer that events change.
pub struct ViewState {
    pub requests: AppRequests,
    pub ctx: AppContext,
}

/// The terminal as a terminal event leaves it.
pub open spec fn after_term_event(ctx: AppContext, event: TermEvent) -> AppContext {
    match event {
        TermEvent::FocusGained => AppContext { focused: true, ..ctx },
        TermEvent::FocusLost => AppContext { focused: false, ..ctx },
        TermEvent::Mouse { column, row } => AppContext { last_mouse_pos: Some((column, row)), ..ctx },
        TermEvent::Resize { width, height } => AppContext {
            size: TermSize { width, height },
            ..ctx
        },
        _ => ctx,
    }
}

/// The terminal after the mouse was seen at `column` and `row`.
pub open spec fn after_mouse(ctx: AppContext, column: u16, row: u16) -> AppContext {
    AppContext { last_mouse_pos: Some((column, row)), ..ctx }
}

/// Whether an exit is requested after a key, given whether one was before.
pub open spec fn exit_after_key(exit: bool, key: KeyCode) -> bool {
    exit || key == KeyCode::Esc
}

/// Whether an exit is requested after a terminal event, given whether one was before.
pub open spec fn exit_after_term_event(exit: bool, event: TermEvent) -> bool {
    exit || event == TermEvent::Key(KeyCode::Esc)
}

/// A key, mouse or paste event does to the viewer what the handler of that kind
/// of event does: the same change of the terminal and of the exit request.
pub proof fn law_event_handlers_agree(ctx: AppContext, exit: bool, event: TermEvent)
    ensures
        match event {
            TermEvent::Key(key) => {
                &&& after_term_event(ctx, event) == ctx
                &&& exit_after_term_event(exit, event) == exit_after_key(exit, key)
            },
            TermEvent::Mouse { column, row } => {
                &&& after_term_event(ctx, event) == after_mouse(ctx, column, row)
                &&& exit_after_term_event(exit, event) == exit
            },
            TermEvent::Paste(_) => {
                &&& after_term_event(ctx, event) == ctx
                &&& exit_after_term_event(exit, event) == exit
            },
            _ => true,
        },
{
}

/// What each terminal event does to what the viewer knows of the terminal,
/// field by field, whatever the state before: a resize sets the size and nothing
/// else, focus events set the focus and nothing else, a mouse event sets the
/// mouse position and nothing else, and keys and pastes change nothing. Only the
/// Esc key asks for an exit, and nothing withdraws a request.
pub proof fn law_term_event_effects(ctx: AppContext, exit: bool, event: TermEvent)
    ensures
        ({
            let after = after_term_event(ctx, event);
            &&& after.size == match event {
                TermEvent::Resize { width, height } => TermSize { width, height },
                _ => ctx.size,
            }
            &&& after.focused == match event {
                TermEvent::FocusGained => true,
                TermEvent::FocusLost => false,
                _ => ctx.focused,
            }
            &&& after.last_mouse_pos == match event {
                TermEvent::Mouse { column, row } => Some((column, row)),
                _ => ctx.last_mouse_pos,
            }
        }),
        exit_after_term_event(exit, event) == (exit || event matches TermEvent::Key(KeyCode::Esc)),
{
}

impl ViewState {
    /// No request, and the terminal as `AppContext::new` describes it.
    pub fn new() -> (s: Self)
        ensures
            !s.requests@,
            !s.ctx.focused,
            s.ctx.size == (TermSize { width: 0, height: 0 }),
            s.ctx.last_mouse_pos is None,
    {
        ViewState { requests: AppRequests::new(), ctx: AppContext::new() }
    }

    /// Handles pasted text: the viewer does nothing with it.
    pub fn handle_paste(&mut self, pasted: String) -> (res: Result<(), AppError>)
        ensures
            res is Ok,
            final(self).requests@ == old(self).requests@,
            final(self).ctx == old(self).ctx,
    {
        Ok(())
    }

    /// Handles a key: Esc asks for an exit.
    pub fn handle_key(&mut self, key: KeyCode) -> (res: Result<(), AppError>)
        ensures
            res is Ok,
            final(self).requests@ == exit_after_key(old(self).requests@, key),
            final(self).ctx == old(self).ctx,
    {
        match key {
            KeyCode::Esc => {
                self.requests.request_exit();
            },
            _ => {},
        }
        Ok(())
    }

    /// Handles a mouse event: remembers where the mouse was.
    pub fn handle_mouse(&mut self, column: u16, row: u16) -> (res: Result<(), AppError>)
        ensures
            res is Ok,
            final(self).requests@ == old(self).requests@,
            final(self).ctx == after_mouse(old(self).ctx, column, row),
    {
        self.ctx.last_mouse_pos = Some((column, row));
        Ok(())
    }

    /// Handles one event. An I/O error from the event source stops the viewer with
    /// that error; a terminal event updates what the viewer knows of the terminal,
    /// and the Esc key asks for an exit.
    pub fn handle_event(&mut self, event: AppEvent) -> (res: Result<(), AppError>)
        ensures
            match event {
                AppEvent::Term(t) => {
                    &&& res is Ok
                    &&& final(self).ctx == after_term_event(old(self).ctx, t)
                    &&& final(self).requests@ == exit_after_term_event(old(self).requests@, t)
                },
                AppEvent::IoError(_, e) => {
                    &&& res matches Err(AppError::Io(err)) && err == *e
                    &&& final(self).ctx == old(self).ctx
                    &&& final(self).requests@ == old(self).requests@
                },
            },
            old(self).requests@ ==> final(self).requests@,
    {
        match event {
            AppEvent::Term(event) => {
                match event {
                    TermEvent::FocusGained => self.ctx.focused = true,
                    TermEvent::FocusLost => self.ctx.focused = false,
                    TermEvent::Key(key) => self.handle_key(key)?,
                    TermEvent::Mouse { column, row } => self.handle_mouse(column, row)?,
                    TermEvent::Paste(pasted) => self.handle_paste(pasted)?,
                    TermEvent::Resize { width, height } => self.ctx.size = TermSize {
                        width,
                        height,
                    },
                }
            },
            AppEvent::IoError(_, error) => {
                return Err(AppError::Io(*error));
            },
        }
        Ok(())
    }

    /// What the event loop does next: stop once an exit is requested, otherwise draw.
    pub fn next_action(&self) -> (action: LoopAction)
        ensures
            action == (if self.requests@ {
                LoopAction::Stop
            } else {
                LoopAction::Draw
            }),
    {
        if self.requests.exit_requested() {
            LoopAction::Stop
        } else {
            LoopAction::Draw
        }
    }

    /// One turn of the event loop: handles the event, then says whether to stop or
    /// to draw. Once an exit has been requested every later turn says stop.
    pub fn step(&mut self, event: AppEvent) -> (res: Result<LoopAction, AppError>)
        ensures
            match event {
                AppEvent::Term(t) => {
                    &&& final(self).ctx == after_term_event(old(self).ctx, t)
                    &&& final(self).requests@ == exit_after_term_event(old(self).requests@, t)
                    &&& res == Ok::<LoopAction, AppError>(
                        if final(self).requests@ {
                            LoopAction::Stop
                        } else {
                            LoopAction::Draw
                        },
                    )
                },
                AppEvent::IoError(_, e) => {
                    &&& res matches Err(AppError::Io(err)) && err == *e
                    &&& final(self).ctx == old(self).ctx
                    &&& final(self).requests@ == old(self).requests@
                },
            },
            old(self).requests@ ==> (res is Ok ==> res == Ok::<LoopAction, AppError>(LoopAction::Stop)),
    {
        self.handle_event(event)?;
        Ok(self.next_action())
    }

    /// The box to draw: at the last mouse position, if one has been seen.
    pub fn cursor(&self) -> (c: Option<CursorBox>)
        ensures
            match self.ctx.last_mouse_pos {
                Some((col, row)) => c == Some(CursorBox(col, row)),
                None => c is None,
            },
    {
        match self.ctx.last_mouse_pos {
            Some((col, row)) => Some(CursorBox(col, row)),
            None => None,
        }
    }
}

/// The identifier of an event.
#[derive(Clone, Copy, PartialEq, Eq, Structural, Debug, Hash, PartialOrd, Ord)]
pub struct EventId(u64);

/// Hands out event identifiers, counting up from 2^32.
pub struct EventIdCounter {
    next: u64,
}

/// The value that follows `n` on a 64-bit counter that wraps around.
pub open spec fn wrap_next(n: u64) -> u64 {
    ((n as int + 1) % 0x1_0000_0000_0000_0000) as u64
}

/// The value `k` steps after `n` on a 64-bit counter that wraps around.
pub open spec fn wrap_after(n: u64, k: nat) -> u64 {
    ((n as int + k) % 0x1_0000_0000_0000_0000) as u64
}

impl View for EventIdCounter {
    /// The identifier that comes next.
    type V = u64;

    closed spec fn view(&self) -> u64 {
        self.next
    }
}

impl View for EventId {
    type V = u64;

    closed spec fn view(&self) -> u64 {
        self.0
    }
}

impl EventIdCounter {
    /// The first identifier handed out is 2^32, above every identifier written as a
    /// 32-bit number.
    pub fn new() -> (c: Self)
        ensures
            c@ == 0x1_0000_0000,
    {
        EventIdCounter { next: 0x1_0000_0000 }
    }
}

impl EventId {
    /// A new identifier: the counter's current value; the counter moves one on,
    /// wrapping around at the end of the 64-bit range.
    pub fn unique(counter: &mut EventIdCounter) -> (id: Self)
        ensures
            id@ == old(counter)@,
            final(counter)@ == wrap_next(old(counter)@),
    {
        let id = counter.next;
        if counter.next == u64::MAX {
            counter.next = 0;
        } else {
            counter.next = counter.next + 1;
        }
        EventId(id)
    }

    /// Whether two identifiers are the same.
    pub fn eq(self, other: Self) -> (b: bool)
        ensures
            b == (self@ == other@),
            b == (self == other),
    {
        self.0 == other.0
    }

    /// Whether two identifiers differ.
    pub fn ne(self, other: Self) -> (b: bool)
        ensures
            b == (self@ != other@),
            b == (self != other),
    {
        self.0 != other.0
    }
}

/// Each step of the counter moves it one further: `k + 1` steps from `n` is one
/// step from `k` steps.
pub proof fn law_counter_steps(n: u64, k: nat)
    ensures
        wrap_next(wrap_after(n, k)) == wrap_after(n, k + 1),
        wrap_after(n, 0) == n,
{
}

/// A counter hands out no identifier twice within 2^64 calls: the values that
/// it reaches after `i` and after `j` steps differ.
pub proof fn law_unique_ids_distinct(n: u64, i: nat, j: nat)
    requires
        i < j < 0x1_0000_0000_0000_0000,
    ensures
        wrap_after(n, i) != wrap_after(n, j),
{
}

/// The ids that a fresh counter hands out: after `k` calls (`k` below
/// 2^64 - 2^32) the counter stands at 2^32 + k, so the ids of its first calls are
/// 2^32, 2^32 + 1, and so on, all at least 2^32 and no two alike.
pub proof fn law_fresh_counter_ids(i: nat, j: nat)
    requires
        i < j < 0x1_0000_0000_0000_0000 - 0x1_0000_0000,
    ensures
        wrap_after(0x1_0000_0000, i) == 0x1_0000_0000 + i,
        wrap_after(0x1_0000_0000, j) == 0x1_0000_0000 + j,
        wrap_after(0x1_0000_0000, i) >= 0x1_0000_0000,
        wrap_after(0x1_0000_0000, i) != wrap_after(0x1_0000_0000, j),
{
}

} // verus!
