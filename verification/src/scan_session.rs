//! The resource scan as the results window follows it: idle, running on a
//! worker that reports progress, finished with a report, or failed. The
//! worker itself and its channel live with the caller; these functions
//! decide the next state and what the caller must do.

use crate::resource_scan::{ResourceReport, ScanOptions};
use crate::resource_scan_view::{ResourceClass, ResourceKey};
use vstd::prelude::*;

verus! {

/// The error message of a scan that was cancelled.
pub const SCAN_CANCELLED: &'static str = "scan cancelled";

/// Number of levels a scan walks.
pub const SCAN_LEVELS: u32 = 512;

/// Where the resource scan stands.
#[derive(Debug)]
pub enum ScanState {
    Idle,
    Running { scanned: u32 },
    Done(ResourceReport),
    Failed(String),
}

/// A message from the scan worker.
#[derive(Debug)]
pub enum ScanMsg {
    /// Number of levels scanned so far.
    Progress(u32),
    /// The scan ended, with its report or an error message.
    Finished(Result<ResourceReport, String>),
}

impl ScanState {
    /// A scan is running.
    pub fn is_running(&self) -> (b: bool)
        ensures
            b == self is Running,
    {
        match self {
            ScanState::Running { .. } => true,
            _ => false,
        }
    }

    /// A finished report is available.
    pub fn has_report(&self) -> (b: bool)
        ensures
            b == self is Done,
    {
        match self {
            ScanState::Done(_) => true,
            _ => false,
        }
    }

    /// Start a scan, unless one is running: the new state, and whether the
    /// caller must spawn the worker.
    pub fn start(self) -> (r: (ScanState, bool))
        ensures
            self is Running ==> r.0 == self && !r.1,
            !(self is Running) ==> r.0 == (ScanState::Running { scanned: 0 }) && r.1,
    {
        if self.is_running() {
            (self, false)
        } else {
            (ScanState::Running { scanned: 0 }, true)
        }
    }

    /// Drop the scan: the state becomes idle, and a running worker must be
    /// told to stop (`true`).
    pub fn cancel(self) -> (r: (ScanState, bool))
        ensures
            r.0 is Idle,
            r.1 == self is Running,
    {
        let running = self.is_running();
        (ScanState::Idle, running)
    }

    /// Take in a worker message while a scan runs: progress updates the
    /// count; the end of the scan gives its report, goes back to idle when
    /// it was cancelled, or records the failure. Also says whether the
    /// selected resource must be cleared (a new report arrived). Messages
    /// when no scan runs change nothing.
    pub fn on_message(self, msg: ScanMsg) -> (r: (ScanState, bool))
        ensures
            !(self is Running) ==> r.0 == self && !r.1,
            self is Running ==> match msg {
                ScanMsg::Progress(n) => r.0 == (ScanState::Running { scanned: n }) && !r.1,
                ScanMsg::Finished(Ok(report)) => r.0 == ScanState::Done(report) && r.1,
                ScanMsg::Finished(Err(e)) => !r.1 && if e@ == SCAN_CANCELLED@ {
                    r.0 is Idle
                } else {
                    r.0 == ScanState::Failed(e)
                },
            },
    {
        if !self.is_running() {
            return (self, false);
        }
        match msg {
            ScanMsg::Progress(n) => (ScanState::Running { scanned: n }, false),
            ScanMsg::Finished(Ok(report)) => (ScanState::Done(report), true),
            ScanMsg::Finished(Err(e)) => {
                let cancelled = String::from_str(SCAN_CANCELLED);
                if e == cancelled {
                    (ScanState::Idle, false)
                } else {
                    (ScanState::Failed(e), false)
                }
            },
        }
    }
}

/// Whether the worker reports `n` levels scanned, having last reported
/// `last_sent`: every fourth level, and always at the end.
pub fn should_send_progress(last_sent: u32, n: u32) -> (send: bool)
    requires
        last_sent <= n,
    ensures
        send == (n - last_sent >= 4 || n >= SCAN_LEVELS),
{
    n - last_sent >= 4 || n >= SCAN_LEVELS
}


/// Which side of the report the results window shows.
#[derive(Clone, Copy, Debug, PartialEq, Eq, Structural)]
pub enum ScanView {
    ByResource,
    ByLevel,
}

/// The state of the "Analyze Resources in Levels" window.
#[derive(Debug)]
pub struct ResourceScanUi {
    pub state: ScanState,
    pub options: ScanOptions,
    pub view: ScanView,
    pub class: ResourceClass,
    pub filter: String,
    pub selected: Option<ResourceKey>,
    pub level_filter: String,
    /// A level to open in the level editor, taken by the main window.
    pub pending_jump: Option<u16>,
    pub save_error: Option<String>,
    pub save_ok: Option<String>,
}

impl ResourceScanUi {
    /// A window with no scan, every resource class selected, showing the
    /// music tracks by resource.
    pub fn new() -> (ui: Self)
        ensures
            ui.state is Idle,
            ui.options == (ScanOptions { sprites: true, map16: true, gfx: true, music: true, palettes: true }),
            ui.view == ScanView::ByResource,
            ui.class == ResourceClass::Music,
            ui.filter@.len() == 0,
            ui.selected is None,
            ui.level_filter@.len() == 0,
            ui.pending_jump is None,
            ui.save_error is None,
            ui.save_ok is None,
    {
        ResourceScanUi {
            state: ScanState::Idle,
            options: ScanOptions::all(),
            view: ScanView::ByResource,
            class: ResourceClass::Music,
            filter: String::new(),
            selected: None,
            level_filter: String::new(),
            pending_jump: None,
            save_error: None,
            save_ok: None,
        }
    }

    /// A scan is running.
    pub fn is_running(&self) -> (b: bool)
        ensures
            b == self.state is Running,
    {
        self.state.is_running()
    }

    /// A finished report is available.
    pub fn has_report(&self) -> (b: bool)
        ensures
            b == self.state is Done,
    {
        self.state.has_report()
    }

    /// Start a scan unless one is running; the save messages are cleared.
    /// Returns whether the caller must spawn the scan worker.
    pub fn start(&mut self) -> (spawn: bool)
        ensures
            spawn == !(old(self).state is Running),
            spawn ==> final(self).state == (ScanState::Running { scanned: 0 }) && final(self).save_error is None
                && final(self).save_ok is None,
            !spawn ==> final(self).state == old(self).state && final(self).save_error == old(self).save_error
                && final(self).save_ok == old(self).save_ok,
            final(self).selected == old(self).selected,
            final(self).options == old(self).options,
    {
        if self.state.is_running() {
            return false;
        }
        self.state = ScanState::Running { scanned: 0 };
        self.save_error = None;
        self.save_ok = None;
        true
    }

    /// Drop the scan. Returns whether a running worker must be told to
    /// stop.
    pub fn cancel(&mut self) -> (stop_worker: bool)
        ensures
            stop_worker == old(self).state is Running,
            final(self).state is Idle,
            final(self).selected == old(self).selected,
    {
        let running = self.state.is_running();
        self.state = ScanState::Idle;
        running
    }

    /// Take in a message from the scan worker; a new report clears the
    /// selected resource.
    pub fn on_message(&mut self, msg: ScanMsg)
        ensures
            ({
                let (state, clear) = scan_transition(old(self).state, msg);
                &&& final(self).state == state
                &&& final(self).selected == if clear {
                    None
                } else {
                    old(self).selected
                }
            }),
    {
        let mut state = ScanState::Idle;
        std::mem::swap(&mut state, &mut self.state);
        let (next, clear) = state.on_message(msg);
        self.state = next;
        if clear {
            self.selected = None;
        }
    }
}

/// The state after a worker message, and whether the selection is
/// cleared (see `ScanState::on_message`).
pub open spec fn scan_transition(state: ScanState, msg: ScanMsg) -> (ScanState, bool) {
    if !(state is Running) {
        (state, false)
    } else {
        match msg {
            ScanMsg::Progress(n) => (ScanState::Running { scanned: n }, false),
            ScanMsg::Finished(Ok(report)) => (ScanState::Done(report), true),
            ScanMsg::Finished(Err(e)) => if e@ == SCAN_CANCELLED@ {
                (ScanState::Idle, false)
            } else {
                (ScanState::Failed(e), false)
            },
        }
    }
}

} // verus!
