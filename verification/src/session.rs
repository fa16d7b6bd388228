//! The editor session controller: a state machine over the buffer, the
//! optional file path, the dirty flag, the last error and the display
//! preference.
//!
//! The controller receives events — edit actions, user commands, completed
//! file operations — one at a time, mutates its state synchronously and
//! returns the follow-up work the host must schedule. File and dialog I/O is
//! performed by the host; its outcome re-enters the controller as a
//! completion event.
//!
//! At most one file operation is semantically meaningful at a time, but a
//! new request while one is pending is not rejected: both completions will
//! arrive and are applied in arrival order, so the last completion to land
//! wins on path, buffer and dirty flag. Tests exercise both orders of two
//! overlapping completions.

use crate::buffer::Buffer;
use crate::buffer::BufferView;
use crate::buffer::EditAction;
use crate::buffer::apply_spec;
use crate::buffer::buffer_of_text;
use crate::buffer::empty_buffer_view;
use crate::buffer::is_content_edit;
use crate::error::Error;
use vstd::prelude::*;

verus! {

/// Display theme of the external highlighting collaborator.
#[derive(Clone, Copy, Debug, PartialEq, Eq, Structural)]
pub enum HighlightTheme {
    SolarizedDark,
    Base16Eighties,
    Base16Mocha,
    Base16Ocean,
    InspiredGithub,
}

/// Overall light or dark appearance the host window should adopt.
#[derive(Clone, Copy, Debug, PartialEq, Eq, Structural)]
pub enum Appearance {
    Light,
    Dark,
}

impl HighlightTheme {
    /// Whether the theme is a dark one.
    pub open spec fn is_dark_spec(self) -> bool {
        !(self is InspiredGithub)
    }

    /// Whether the theme is a dark one; the host window follows suit.
    pub fn is_dark(&self) -> (r: bool)
        ensures
            r == self.is_dark_spec(),
    {
        match self {
            HighlightTheme::InspiredGithub => false,
            _ => true,
        }
    }
}

/// Which file operation the controller considers in flight. Conceptual: a
/// second request while one is pending simply overwrites this marker (see
/// the module documentation for the race policy).
#[derive(Clone, Copy, Debug, PartialEq, Eq, Structural)]
pub enum Pending {
    Idle,
    LoadPending,
    SavePending,
}

/// An external event entering the controller.
#[derive(Debug, PartialEq, Eq)]
pub enum Event {
    /// Replace the document with a fresh untitled one.
    RequestNew,
    /// An edit action from the presentation layer.
    Edit(EditAction),
    /// Ask for a file to be picked and loaded.
    RequestOpen,
    /// A load (or pick-and-load) finished: the path and full content on
    /// success, the normalized error otherwise.
    LoadCompleted(Result<(String, String), Error>),
    /// Ask for the buffer to be saved to the known path, or to a path yet to
    /// be picked when none is known.
    RequestSave,
    /// A save finished: the path written on success, the normalized error
    /// otherwise.
    SaveCompleted(Result<String, Error>),
    /// The display preference changed.
    ThemeSelected(HighlightTheme),
}

/// Asynchronous work the host must schedule after an event, feeding the
/// outcome back as a completion event.
#[derive(Debug, PartialEq, Eq)]
pub enum Command {
    /// Nothing to schedule.
    Nothing,
    /// Read the file at the path and answer with `LoadCompleted`.
    Load(String),
    /// Ask the file picker for a path, load it, and answer with
    /// `LoadCompleted`.
    PromptAndLoad,
    /// Write the text to the path — after asking the save dialog for one if
    /// the path is absent — and answer with `SaveCompleted`.
    Save(Option<String>, String),
}

/// Mathematical model of a command, paths and text as character sequences.
pub ghost enum CommandView {
    Nothing,
    Load(Seq<char>),
    PromptAndLoad,
    Save(Option<Seq<char>>, Seq<char>),
}

/// The view of an optional path.
pub open spec fn opt_path_view(p: Option<String>) -> Option<Seq<char>> {
    match p {
        Some(s) => Some(s@),
        None => None,
    }
}

impl View for Command {
    type V = CommandView;

    open spec fn view(&self) -> CommandView {
        match self {
            Command::Nothing => CommandView::Nothing,
            Command::Load(p) => CommandView::Load(p@),
            Command::PromptAndLoad => CommandView::PromptAndLoad,
            Command::Save(p, t) => CommandView::Save(opt_path_view(*p), t@),
        }
    }
}

/// Mathematical model of a session: the path, the buffer, the last error,
/// the display preference, the dirty flag and the pending-operation marker.
pub ghost struct SessionView {
    pub path: Option<Seq<char>>,
    pub buffer: BufferView,
    pub error: Option<Error>,
    pub theme: HighlightTheme,
    pub dirty: bool,
    pub pending: Pending,
}

impl SessionView {
    /// Session invariant: the buffer invariant.
    pub open spec fn wf(self) -> bool {
        self.buffer.wf()
    }
}

/// The state a freshly constructed session starts in: untitled, a single
/// empty line, dirty by convention (nothing has been persisted yet), no
/// error, dark default theme, and the startup load already pending.
pub open spec fn startup_view() -> SessionView {
    SessionView {
        path: None,
        buffer: empty_buffer_view(),
        error: None,
        theme: HighlightTheme::SolarizedDark,
        dirty: true,
        pending: Pending::LoadPending,
    }
}

/// The session state after one event. Every event clears a previously
/// displayed error, so stale failures do not linger once the user resumes
/// interacting; only a failed completion records a (fresh) one.
pub open spec fn step(v: SessionView, e: Event) -> SessionView {
    match e {
        Event::RequestNew => SessionView {
            path: None,
            buffer: empty_buffer_view(),
            error: None,
            theme: v.theme,
            dirty: true,
            pending: Pending::Idle,
        },
        Event::Edit(a) => SessionView {
            buffer: apply_spec(v.buffer, a),
            dirty: v.dirty || is_content_edit(v.buffer, a),
            error: None,
            ..v
        },
        Event::RequestOpen => SessionView { pending: Pending::LoadPending, error: None, ..v },
        Event::LoadCompleted(r) => match r {
            Ok(pc) => SessionView {
                path: Some(pc.0@),
                buffer: buffer_of_text(pc.1@),
                dirty: false,
                error: None,
                theme: v.theme,
                pending: Pending::Idle,
            },
            Err(err) => SessionView { error: Some(err), pending: Pending::Idle, ..v },
        },
        Event::RequestSave => SessionView { pending: Pending::SavePending, error: None, ..v },
        Event::SaveCompleted(r) => match r {
            Ok(p) => SessionView {
                path: Some(p@),
                dirty: false,
                error: None,
                pending: Pending::Idle,
                ..v
            },
            Err(err) => SessionView { error: Some(err), pending: Pending::Idle, ..v },
        },
        Event::ThemeSelected(t) => SessionView { theme: t, error: None, ..v },
    }
}

/// The follow-up work one event demands: opening prompts and loads, saving
/// writes the serialized buffer to the known path or to one yet to be
/// picked; everything else schedules nothing.
pub open spec fn step_command(v: SessionView, e: Event) -> CommandView {
    match e {
        Event::RequestOpen => CommandView::PromptAndLoad,
        Event::RequestSave => CommandView::Save(v.path, v.buffer.text()),
        _ => CommandView::Nothing,
    }
}

/// Index of the last occurrence of `c` in `s`, or -1 when there is none.
pub open spec fn last_pos(s: Seq<char>, c: char) -> int
    decreases s.len(),
{
    if s.len() == 0 {
        -1
    } else if s.last() == c {
        s.len() - 1
    } else {
        last_pos(s.drop_last(), c)
    }
}

/// The extension of a path: what follows the last dot of its file name —
/// absent when the file name has no dot, or only a leading one.
pub open spec fn extension_of(p: Seq<char>) -> Option<Seq<char>> {
    let name_start = last_pos(p, '/') + 1;
    let dot = last_pos(p, '.');
    if dot > name_start {
        Some(p.skip(dot + 1))
    } else {
        None
    }
}

/// The language token handed to the highlighting collaborator: the path's
/// extension, with a fixed fallback when no path or no extension is known.
pub open spec fn token_spec(path: Option<Seq<char>>) -> Seq<char> {
    match path {
        Some(p) => match extension_of(p) {
            Some(e) => e,
            None => "rs"@,
        },
        None => "rs"@,
    }
}

/// The status line: the description of a recorded I/O failure, else the
/// path, else the untitled placeholder. A recorded dialog cancellation is
/// deliberately silent and shows the path as usual.
pub open spec fn status_spec(v: SessionView) -> Seq<char> {
    match v.error {
        Some(Error::IOFailed(k)) => crate::error::kind_label(k),
        _ => match v.path {
            Some(p) => p,
            None => "New file"@,
        },
    }
}

/// Index of the last occurrence of `c` in `s`, if any.
fn find_last(s: &str, c: char) -> (r: Option<usize>)
    ensures
        match r {
            Some(i) => i as int == last_pos(s@, c) && i < s@.len(),
            None => last_pos(s@, c) == -1,
        },
{
    let n = s.unicode_len();
    let mut i: usize = n;
    proof {
        assert(s@.take(n as int) =~= s@);
    }
    while i > 0
        invariant
            i <= n,
            n == s@.len(),
            last_pos(s@, c) == last_pos(s@.take(i as int), c),
        decreases i,
    {
        let ch = s.get_char(i - 1);
        if ch == c {
            proof {
                assert(s@.take(i as int).last() == s@[i - 1]);
                assert(last_pos(s@.take(i as int), c) == i - 1);
            }
            return Some(i - 1);
        }
        proof {
            assert(s@.take(i as int).last() == s@[i - 1]);
            assert(s@.take(i as int).drop_last() =~= s@.take(i - 1));
        }
        i = i - 1;
    }
    proof {
        assert(s@.take(0) =~= Seq::<char>::empty());
    }
    None
}

/// The editor session: one document, its path, dirty flag, last error and
/// display preference.
pub struct Session {
    path: Option<String>,
    buffer: Buffer,
    error: Option<Error>,
    theme: HighlightTheme,
    dirty: bool,
    pending: Pending,
}

impl View for Session {
    type V = SessionView;

    closed spec fn view(&self) -> SessionView {
        SessionView {
            path: opt_path_view(self.path),
            buffer: self.buffer@,
            error: self.error,
            theme: self.theme,
            dirty: self.dirty,
            pending: self.pending,
        }
    }
}

impl Session {
    /// A fresh session, together with the startup load of the given default
    /// document the host must schedule. Starting from a well-known document
    /// rather than an untitled buffer is a product decision; the path is a
    /// parameter so hosts and tests can substitute their own.
    pub fn new(initial_path: String) -> (r: (Session, Command))
        ensures
            r.0@ == startup_view(),
            r.0@.wf(),
            r.1@ == CommandView::Load(initial_path@),
    {
        let s = Session {
            path: None,
            buffer: Buffer::new_empty(),
            error: None,
            theme: HighlightTheme::SolarizedDark,
            dirty: true,
            pending: Pending::LoadPending,
        };
        (s, Command::Load(initial_path))
    }

    /// Processes one event: mutates the session as `step` says and returns
    /// the follow-up work as `step_command` says.
    pub fn update(&mut self, event: Event) -> (cmd: Command)
        requires
            old(self)@.wf(),
        ensures
            final(self)@ == step(old(self)@, event),
            final(self)@.wf(),
            cmd@ == step_command(old(self)@, event),
    {
        match event {
            Event::RequestNew => {
                self.path = None;
                self.buffer = Buffer::new_empty();
                self.dirty = true;
                self.error = None;
                self.pending = Pending::Idle;
                Command::Nothing
            }
            Event::Edit(a) => {
                proof {
                    crate::buffer::lemma_apply_wf(old(self)@.buffer, a);
                }
                let changed = self.buffer.apply(a);
                if changed {
                    self.dirty = true;
                }
                self.error = None;
                Command::Nothing
            }
            Event::RequestOpen => {
                self.error = None;
                self.pending = Pending::LoadPending;
                Command::PromptAndLoad
            }
            Event::LoadCompleted(r) => {
                self.pending = Pending::Idle;
                match r {
                    Ok(pc) => {
                        let (p, c) = pc;
                        self.buffer = Buffer::with_text(c.as_str());
                        self.path = Some(p);
                        self.dirty = false;
                        self.error = None;
                    }
                    Err(err) => {
                        self.error = Some(err);
                    }
                }
                Command::Nothing
            }
            Event::RequestSave => {
                self.error = None;
                self.pending = Pending::SavePending;
                let text = self.buffer.text();
                let path = match &self.path {
                    Some(p) => Some(String::from_str(p.as_str())),
                    None => None,
                };
                Command::Save(path, text)
            }
            Event::SaveCompleted(r) => {
                self.pending = Pending::Idle;
                match r {
                    Ok(p) => {
                        self.path = Some(p);
                        self.dirty = false;
                        self.error = None;
                    }
                    Err(err) => {
                        self.error = Some(err);
                    }
                }
                Command::Nothing
            }
            Event::ThemeSelected(t) => {
                self.theme = t;
                self.error = None;
                Command::Nothing
            }
        }
    }

    /// The window title.
    pub fn title(&self) -> (r: &'static str)
        ensures
            r@ == "A cool editor"@,
    {
        "A cool editor"
    }

    /// The document's path, absent for an untitled document.
    pub fn path(&self) -> (r: &Option<String>)
        ensures
            opt_path_view(*r) == self@.path,
    {
        &self.path
    }

    /// Whether the content differs from the last loaded or saved snapshot.
    pub fn is_dirty(&self) -> (r: bool)
        ensures
            r == self@.dirty,
    {
        self.dirty
    }

    /// The last recorded error, if any.
    pub fn error(&self) -> (r: Option<Error>)
        ensures
            r == self@.error,
    {
        self.error
    }

    /// The current display theme.
    pub fn theme(&self) -> (r: HighlightTheme)
        ensures
            r == self@.theme,
    {
        self.theme
    }

    /// Which file operation the controller last marked in flight.
    pub fn pending(&self) -> (r: Pending)
        ensures
            r == self@.pending,
    {
        self.pending
    }

    /// The appearance the host window should adopt for the current theme.
    pub fn appearance(&self) -> (r: Appearance)
        ensures
            r == (if self@.theme.is_dark_spec() {
                Appearance::Dark
            } else {
                Appearance::Light
            }),
    {
        if self.theme.is_dark() {
            Appearance::Dark
        } else {
            Appearance::Light
        }
    }

    /// The serialized buffer content.
    pub fn text(&self) -> (r: String)
        requires
            self@.wf(),
        ensures
            r@ == self@.buffer.text(),
    {
        self.buffer.text()
    }

    /// The cursor position, zero-based line and column.
    pub fn cursor_position(&self) -> (p: (usize, usize))
        ensures
            p.0 as int == self@.buffer.line,
            p.1 as int == self@.buffer.col,
    {
        self.buffer.cursor_position()
    }

    /// The language token for the highlighting collaborator, derived from
    /// the path's extension with a fixed fallback.
    pub fn language_token(&self) -> (r: String)
        ensures
            r@ == token_spec(self@.path),
    {
        match &self.path {
            None => String::from_str("rs"),
            Some(p) => {
                let s = p.as_str();
                let n = s.unicode_len();
                let slash = find_last(s, '/');
                let dot = find_last(s, '.');
                match dot {
                    Some(j) => {
                        let ns: usize = match slash {
                            Some(k) => k + 1,
                            None => 0,
                        };
                        if j > ns {
                            let ext = s.substring_char(j + 1, n);
                            String::from_str(ext)
                        } else {
                            String::from_str("rs")
                        }
                    }
                    None => String::from_str("rs"),
                }
            }
        }
    }

    /// The status line for the host's status bar.
    pub fn status_text(&self) -> (r: String)
        ensures
            r@ == status_spec(self@),
    {
        match &self.error {
            Some(Error::IOFailed(k)) => String::from_str(k.describe()),
            _ => match &self.path {
                Some(p) => String::from_str(p.as_str()),
                None => String::from_str("New file"),
            },
        }
    }
}

/// One run of edit events over a session.
pub open spec fn run_edits(v: SessionView, acts: Seq<EditAction>) -> SessionView
    decreases acts.len(),
{
    if acts.len() == 0 {
        v
    } else {
        run_edits(step(v, Event::Edit(acts[0])), acts.drop_first())
    }
}

/// Dirty-flag correctness, first half: a run of pure cursor or selection
/// moves never changes the dirty flag — in particular it never sets it —
/// nor the line contents, nor the path.
pub proof fn lemma_cursor_moves_keep_clean(v: SessionView, acts: Seq<EditAction>)
    requires
        forall|i: int| 0 <= i < acts.len() ==> (#[trigger] acts[i]).is_motion(),
    ensures
        run_edits(v, acts).dirty == v.dirty,
        run_edits(v, acts).buffer.lines == v.buffer.lines,
        run_edits(v, acts).path == v.path,
    decreases acts.len(),
{
    if acts.len() == 0 {
    } else {
        let a = acts[0];
        let v1 = step(v, Event::Edit(a));
        assert(v1.buffer.lines == v.buffer.lines);
        assert(forall|i: int|
            0 <= i < acts.drop_first().len() ==> (#[trigger] acts.drop_first()[i]).is_motion());
        lemma_cursor_moves_keep_clean(v1, acts.drop_first());
    }
}

/// Dirty-flag correctness, second half: an edit action that inserts or
/// deletes at least one character sets the dirty flag.
pub proof fn lemma_content_edit_sets_dirty(v: SessionView, a: EditAction)
    requires
        is_content_edit(v.buffer, a),
    ensures
        step(v, Event::Edit(a)).dirty,
{
}

/// Changing the display preference never alters the dirty flag, the path or
/// the buffer.
pub proof fn lemma_preference_change_preserves_document(v: SessionView, t: HighlightTheme)
    ensures
        step(v, Event::ThemeSelected(t)).dirty == v.dirty,
        step(v, Event::ThemeSelected(t)).path == v.path,
        step(v, Event::ThemeSelected(t)).buffer == v.buffer,
{
}

/// A failed open preserves the session: after a `RequestOpen` whose pick or
/// load fails, path, buffer and dirty flag are as before, and the failure —
/// a dialog cancellation or an I/O failure — is surfaced as the error.
pub proof fn lemma_failed_open_preserves_state(v: SessionView, err: Error)
    requires
        !v.dirty,
    ensures
        ({
            let w = step(step(v, Event::RequestOpen), Event::LoadCompleted(Err(err)));
            &&& w.path == v.path
            &&& w.buffer == v.buffer
            &&& !w.dirty
            &&& w.error == Some(err)
            &&& (err matches Error::DialogClosed || err matches Error::IOFailed(_))
        }),
{
}

/// A save without a known path prompts: the command the controller emits
/// carries no path, so the service must consult the save dialog before any
/// write (`save_target` answers `PromptForPath` exactly when the path is
/// absent), and when the dialog is cancelled nothing is written and the
/// session merely records `DialogClosed`, everything else unchanged.
pub proof fn lemma_save_without_path_prompts(v: SessionView)
    requires
        v.path is None,
    ensures
        step_command(v, Event::RequestSave) == CommandView::Save(
            None::<Seq<char>>,
            v.buffer.text(),
        ),
        ({
            let w = step(step(v, Event::RequestSave), Event::SaveCompleted(Err(Error::DialogClosed)));
            &&& w.path == v.path
            &&& w.buffer == v.buffer
            &&& w.dirty == v.dirty
            &&& w.error == Some(Error::DialogClosed)
        }),
{
}

} // verus!
