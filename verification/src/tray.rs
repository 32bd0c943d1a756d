//! The tray shell's decisions: its tooltip, and the message loop that opens the UI,
//! copies the LAN URL and shuts the server down, with a time limit on the shutdown.
use vstd::prelude::*;
use crate::net::{localhost_endpoint_label, BindAddr};
use crate::text::{chars_to_string, decimal, extend_str, owned};

verus! {

/// How long the tray waits for the server to stop after a quit.
pub const SERVER_SHUTDOWN_TIMEOUT_MS: u64 = 5_000;

/// How long the loop sleeps between polls.
pub const POLL_INTERVAL_MS: u64 = 50;

/// The tooltip: the UI's endpoint, and the WebSocket's where it runs.
pub fn tray_tooltip(http: &BindAddr, websocket: Option<&BindAddr>) -> (r: String)
    ensures
        r@ == "UI localhost:"@ + decimal(http.port as nat) + "\n"@ + match websocket {
            Some(w) => "WS localhost:"@ + decimal(w.port as nat),
            None => "WebSocket unavailable"@,
        },
{
    let mut v: Vec<char> = Vec::new();
    extend_str(&mut v, "UI ");
    let h = localhost_endpoint_label(http);
    extend_str(&mut v, h.as_str());
    extend_str(&mut v, "\n");
    match websocket {
        Some(w) => {
            extend_str(&mut v, "WS ");
            let l = localhost_endpoint_label(w);
            extend_str(&mut v, l.as_str());
        },
        None => extend_str(&mut v, "WebSocket unavailable"),
    }
    proof {
        reveal_strlit("UI ");
        reveal_strlit("UI localhost:");
        reveal_strlit("WS ");
        reveal_strlit("WS localhost:");
        reveal_strlit("localhost:");
    }
    assert(v@ =~= "UI localhost:"@ + decimal(http.port as nat) + "\n"@ + match websocket {
        Some(w) => "WS localhost:"@ + decimal(w.port as nat),
        None => "WebSocket unavailable"@,
    });
    chars_to_string(&v)
}

/// A command from the tray icon or its menu.
#[derive(Debug, Clone, Copy, PartialEq, Eq, Structural)]
pub enum TrayCommand {
    OpenUi,
    CopyLanUrl,
    Quit,
}

/// What happened since the loop last decided.
#[derive(Debug, Clone, Copy, PartialEq, Eq, Structural)]
pub enum TrayEvent {
    /// The window system asked the process to quit.
    WindowQuit { now_ms: u64 },
    Command { command: TrayCommand, now_ms: u64 },
    /// The loop checked on the server.
    Poll { server_finished: bool, now_ms: u64 },
}

/// What the loop does next.
#[derive(Debug, Clone, Copy, PartialEq, Eq, Structural)]
pub enum TrayAction {
    Nothing,
    OpenUi,
    CopyLanUrl,
    /// Drop the tray icon and ask the server to stop; stop reading commands this round.
    BeginShutdown,
    /// Sleep for the poll interval, then read events again.
    Sleep,
    /// The server took too long to stop: leave without waiting.
    GiveUp,
    /// The server stopped: join it and end the loop.
    Finish,
}

/// The loop's state: whether a quit was requested, and when the shutdown began.
#[derive(Debug, Clone, Copy, PartialEq, Eq, Structural)]
pub struct TrayLoop {
    pub quit_requested: bool,
    pub shutdown_started_ms: Option<u64>,
}

/// The next state and action after an event.
pub open spec fn tray_step_spec(s: TrayLoop, e: TrayEvent) -> (TrayLoop, TrayAction) {
    match e {
        TrayEvent::WindowQuit { now_ms } => if s.quit_requested {
            (s, TrayAction::Nothing)
        } else {
            (TrayLoop { quit_requested: true, shutdown_started_ms: Some(now_ms) }, TrayAction::BeginShutdown)
        },
        TrayEvent::Command { command, now_ms } => if s.quit_requested {
            (s, TrayAction::Nothing)
        } else {
            match command {
                TrayCommand::OpenUi => (s, TrayAction::OpenUi),
                TrayCommand::CopyLanUrl => (s, TrayAction::CopyLanUrl),
                TrayCommand::Quit => (
                    TrayLoop { quit_requested: true, shutdown_started_ms: Some(now_ms) },
                    TrayAction::BeginShutdown,
                ),
            }
        },
        TrayEvent::Poll { server_finished, now_ms } => if server_finished {
            (s, TrayAction::Finish)
        } else if s.quit_requested && (s.shutdown_started_ms matches Some(t) && now_ms >= t
            && now_ms - t >= SERVER_SHUTDOWN_TIMEOUT_MS) {
            (s, TrayAction::GiveUp)
        } else {
            (s, TrayAction::Sleep)
        },
    }
}

impl TrayLoop {
    /// A loop with no quit requested.
    pub fn new() -> (s: Self)
        ensures
            !s.quit_requested,
            s.shutdown_started_ms is None,
    {
        TrayLoop { quit_requested: false, shutdown_started_ms: None }
    }

    /// Takes an event; what to do next.
    pub fn step(&mut self, event: TrayEvent) -> (a: TrayAction)
        ensures
            (*final(self), a) == tray_step_spec(*old(self), event),
    {
        match event {
            TrayEvent::WindowQuit { now_ms } => {
                if self.quit_requested {
                    TrayAction::Nothing
                } else {
                    self.quit_requested = true;
                    self.shutdown_started_ms = Some(now_ms);
                    TrayAction::BeginShutdown
                }
            },
            TrayEvent::Command { command, now_ms } => {
                if self.quit_requested {
                    return TrayAction::Nothing;
                }
                match command {
                    TrayCommand::OpenUi => TrayAction::OpenUi,
                    TrayCommand::CopyLanUrl => TrayAction::CopyLanUrl,
                    TrayCommand::Quit => {
                        self.quit_requested = true;
                        self.shutdown_started_ms = Some(now_ms);
                        TrayAction::BeginShutdown
                    },
                }
            },
            TrayEvent::Poll { server_finished, now_ms } => {
                if server_finished {
                    return TrayAction::Finish;
                }
                let timed_out = match self.shutdown_started_ms {
                    Some(t) => now_ms >= t && now_ms - t >= SERVER_SHUTDOWN_TIMEOUT_MS,
                    None => false,
                };
                if self.quit_requested && timed_out {
                    TrayAction::GiveUp
                } else {
                    TrayAction::Sleep
                }
            },
        }
    }

    /// How the tray ends once the server stopped with `server_result`: as the server
    /// did where a quit was requested, else with an error, since the server stopped on
    /// its own.
    pub fn outcome(&self, server_result: Result<(), String>) -> (r: Result<(), String>)
        ensures
            self.quit_requested ==> r == server_result,
            !self.quit_requested ==> (r matches Err(m) && m@ == match server_result {
                Ok(()) => "server stopped while tray mode was active"@,
                Err(e) => "server stopped while tray mode was active: "@ + e@,
            }),
    {
        if self.quit_requested {
            return server_result;
        }
        match server_result {
            Ok(()) => Err(owned("server stopped while tray mode was active")),
            Err(e) => {
                let mut v: Vec<char> = Vec::new();
                extend_str(&mut v, "server stopped while tray mode was active: ");
                extend_str(&mut v, e.as_str());
                Err(chars_to_string(&v))
            },
        }
    }
}

/// Once a quit was requested, the loop stays quitting and no command opens anything.
pub proof fn lemma_quit_is_final(s: TrayLoop, e: TrayEvent)
    requires
        s.quit_requested,
    ensures
        tray_step_spec(s, e).0.quit_requested,
        tray_step_spec(s, e).1 != TrayAction::OpenUi,
        tray_step_spec(s, e).1 != TrayAction::CopyLanUrl,
        tray_step_spec(s, e).1 != TrayAction::BeginShutdown,
{
}

} // verus!
