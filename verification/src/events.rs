//! Events, hook-run requests and I/O requests: the plain values through
//! which scripted hooks and the host program talk to the controller.
//!
//! Scripted code never re-enters the editor; it posts events onto the
//! controller's queue, and the controller drains the queue between ticks.
//! In the other direction the controller never performs I/O or calls a
//! script: it appends hook-run and I/O requests to its outboxes, and the
//! host carries them out.

use vstd::prelude::*;

use crate::text::{to_chars, push_all};

verus! {

/// An event posted to the controller's queue.
pub enum EditorEvent {
    /// Run the named command on the next drain.
    ExecuteCommand(String),
    /// Show a message in the minibuffer.
    Message(String),
    /// Open the named file into the buffer.
    OpenFile(String),
    /// Register callback `hook` under the hook name.
    AddHook { name: String, hook: u64 },
}

/// Spec-level mirror of [`EditorEvent`].
pub enum EventV {
    ExecuteCommand(Seq<char>),
    Message(Seq<char>),
    OpenFile(Seq<char>),
    AddHook { name: Seq<char>, hook: u64 },
}

impl View for EditorEvent {
    type V = EventV;

    open spec fn view(&self) -> EventV {
        match self {
            EditorEvent::ExecuteCommand(s) => EventV::ExecuteCommand(s@),
            EditorEvent::Message(s) => EventV::Message(s@),
            EditorEvent::OpenFile(s) => EventV::OpenFile(s@),
            EditorEvent::AddHook { name, hook } => EventV::AddHook { name: name@, hook: *hook },
        }
    }
}

/// The description of an event that the `on-event` hook receives.
pub open spec fn spec_event_text(ev: EventV) -> Seq<char> {
    match ev {
        EventV::ExecuteCommand(name) => "execute-command "@ + name,
        EventV::Message(text) => "message "@ + text,
        EventV::OpenFile(path) => "open-file "@ + path,
        EventV::AddHook { name, hook } => "add-hook "@ + name,
    }
}

/// Build the `on-event` argument for an event.
pub fn event_text(ev: &EditorEvent) -> (r: Vec<char>)
    ensures
        r@ == spec_event_text(ev@),
{
    match ev {
        EditorEvent::ExecuteCommand(name) => {
            let mut r = to_chars("execute-command ");
            let n = to_chars(name.as_str());
            push_all(&mut r, &n);
            r
        },
        EditorEvent::Message(text) => {
            let mut r = to_chars("message ");
            let n = to_chars(text.as_str());
            push_all(&mut r, &n);
            r
        },
        EditorEvent::OpenFile(path) => {
            let mut r = to_chars("open-file ");
            let n = to_chars(path.as_str());
            push_all(&mut r, &n);
            r
        },
        EditorEvent::AddHook { name, hook } => {
            let mut r = to_chars("add-hook ");
            let n = to_chars(name.as_str());
            push_all(&mut r, &n);
            r
        },
    }
}

/// A request to run the scripted callbacks of one hook, in registration
/// order, with one string argument.
pub struct HookRun {
    pub name: String,
    pub arg: Vec<char>,
}

/// Spec view of a hook-run request.
pub open spec fn hook_run_view(h: &HookRun) -> (Seq<char>, Seq<char>) {
    (h.name@, h.arg@)
}

/// The sequence of `(name, argument)` pairs an outbox holds.
pub open spec fn outbox_view(v: Seq<HookRun>) -> Seq<(Seq<char>, Seq<char>)> {
    v.map(|i: int, h: HookRun| (h.name@, h.arg@))
}

/// A file-system request the host must carry out.
pub enum IoRequest {
    /// Read the file and hand its text back through `finish_open`.
    OpenFile { path: String },
    /// Write `content` to the file and report through `finish_save`.
    SaveFile { path: String, content: Vec<char> },
}

/// Spec-level mirror of [`IoRequest`].
pub enum IoReqV {
    OpenFile { path: Seq<char> },
    SaveFile { path: Seq<char>, content: Seq<char> },
}

impl View for IoRequest {
    type V = IoReqV;

    open spec fn view(&self) -> IoReqV {
        match self {
            IoRequest::OpenFile { path } => IoReqV::OpenFile { path: path@ },
            IoRequest::SaveFile { path, content } => IoReqV::SaveFile {
                path: path@,
                content: content@,
            },
        }
    }
}

} // verus!
