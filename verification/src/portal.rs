//! The portal window: what it does with the events it gets. The functions
//! here decide; the application shell reads pasteboards, moves windows and
//! emits events.

use crate::document::text_model;
use crate::text::{chars_of, matches_at, occurs_at, same_text};
use vstd::prelude::*;

verus! {

/// What a pasteboard holds, as far as a URL is looked for in it: its
/// string of the URL type and its string of the plain-text type.
#[derive(Debug, PartialEq, Eq)]
pub struct Pasteboard {
    pub url: Option<String>,
    pub text: Option<String>,
}

/// What the portal window is told.
#[derive(Debug, PartialEq, Eq)]
pub enum PortalEvent {
    /// The user asked to close the window.
    CloseRequested,
    /// Something was dropped. `drag` and `general` are the drag pasteboard
    /// and the general pasteboard where the platform has them and `paths`
    /// is empty.
    Drop { paths: Vec<String>, drag: Option<Pasteboard>, general: Option<Pasteboard> },
    /// A drag entered the window.
    Enter { paths: Vec<String> },
    /// A drag left the window.
    Leave,
    /// Any other event.
    Other,
}

/// What the shell does for the portal window in answer to an event.
#[derive(Debug, PartialEq, Eq)]
pub enum PortalAction {
    /// Nothing.
    Ignore,
    /// Refuse the close and hide the window.
    HideInsteadOfClose,
    /// Emit `tauri-drop-url` with the URL.
    EmitDropUrl(String),
    /// Emit `tauri-drop` with the paths.
    EmitDrop(Vec<String>),
    /// Emit `tauri-drag-enter` with the paths.
    EmitDragEnter(Vec<String>),
    /// Emit `tauri-drag-leave`.
    EmitDragLeave,
}

/// Whether the portal window is there and shown.
#[derive(Clone, Copy, Debug, PartialEq, Eq)]
pub enum PortalState {
    Missing,
    Hidden,
    Visible,
}

/// What the global shortcut does to the portal window.
#[derive(Clone, Copy, Debug, PartialEq, Eq)]
pub enum ToggleAction {
    /// Hide the window.
    Hide,
    /// Show the window and give it the focus.
    ShowAndFocus,
    /// Create the window anew, then show it and give it the focus.
    Recreate,
}

/// Size and place of the portal window, in pixels.
#[derive(Clone, Copy, Debug, PartialEq, Eq)]
pub struct PortalLayout {
    pub width: u32,
    pub height: u32,
    pub min_width: u32,
    pub min_height: u32,
    pub position: Option<(i64, i64)>,
}

/// The label of the portal window.
pub const PORTAL_LABEL: &'static str = "portal";

/// How far right and down of the main window the portal opens.
pub const PORTAL_OFFSET: i64 = 50;

/// `text` begins with `http://` or `https://`.
pub open spec fn is_web_address(text: Seq<char>) -> bool {
    occurs_at(text, 0, "http://"@) || occurs_at(text, 0, "https://"@)
}

/// `o` if it is given and a web address.
pub open spec fn web_address(o: Option<Seq<char>>) -> Option<Seq<char>> {
    match o {
        Some(text) => if is_web_address(text) {
            o
        } else {
            None
        },
        None => None,
    }
}

/// The URL that a pasteboard offers: its URL string if that is a web
/// address, else its plain text if that is one.
pub open spec fn url_on(pasteboard: Option<Pasteboard>) -> Option<Seq<char>> {
    match pasteboard {
        None => None,
        Some(p) => match web_address(text_model(p.url)) {
            Some(url) => Some(url),
            None => web_address(text_model(p.text)),
        },
    }
}

/// The URL of a drag: read from the drag pasteboard, or from the general
/// pasteboard where there is no drag pasteboard.
pub open spec fn drag_url(drag: Option<Pasteboard>, general: Option<Pasteboard>) -> Option<
    Seq<char>,
> {
    match drag {
        Some(_) => url_on(drag),
        None => url_on(general),
    }
}

/// The first of `paths` that is a web address.
pub open spec fn first_web_address(paths: Seq<String>) -> Option<Seq<char>>
    decreases paths.len(),
{
    if paths.len() == 0 {
        None
    } else if is_web_address(paths[0]@) {
        Some(paths[0]@)
    } else {
        first_web_address(paths.skip(1))
    }
}

/// The URL that a drop carries: where no path was dropped, the URL of the
/// drag; else the first path that is a web address.
pub open spec fn dropped_url(
    paths: Seq<String>,
    drag: Option<Pasteboard>,
    general: Option<Pasteboard>,
) -> Option<Seq<char>> {
    if paths.len() == 0 {
        drag_url(drag, general)
    } else {
        first_web_address(paths)
    }
}

/// `event` is a drop without paths.
pub open spec fn dropped_nothing(event: PortalEvent) -> bool {
    match event {
        PortalEvent::Drop { paths, .. } => paths@.len() == 0,
        _ => false,
    }
}

/// Whether `text` begins with `http://` or `https://`.
pub fn is_web_url(text: &str) -> (r: bool)
    ensures
        r == is_web_address(text@),
{
    let t = chars_of(text);
    let plain = chars_of("http://");
    let secure = chars_of("https://");
    matches_at(&t, 0, &plain) || matches_at(&t, 0, &secure)
}

/// A copy of `o` if it is given and a web address.
fn web_url(o: &Option<String>) -> (r: Option<String>)
    ensures
        text_model(r) == web_address(text_model(*o)),
{
    match o {
        Some(text) => if is_web_url(text.as_str()) {
            Some(text.clone())
        } else {
            None
        },
        None => None,
    }
}

/// The URL that a pasteboard offers: its URL string if that begins with
/// `http://` or `https://`, else its plain text if that does; `None` where
/// there is no pasteboard or neither does.
pub fn read_url_from_pasteboard(pasteboard: &Option<Pasteboard>) -> (r: Option<String>)
    ensures
        text_model(r) == url_on(*pasteboard),
{
    match pasteboard {
        None => None,
        Some(p) => match web_url(&p.url) {
            Some(url) => Some(url),
            None => web_url(&p.text),
        },
    }
}

/// The URL of the current drag, from what the pasteboards hold: read from
/// the drag pasteboard, or from the general pasteboard where there is no
/// drag pasteboard. On a platform without pasteboards both are `None`, and
/// so is the result.
pub fn get_drag_url(drag: &Option<Pasteboard>, general: &Option<Pasteboard>) -> (r: Option<String>)
    ensures
        text_model(r) == drag_url(*drag, *general),
        drag is None && general is None ==> r is None,
{
    match drag {
        Some(_) => read_url_from_pasteboard(drag),
        None => read_url_from_pasteboard(general),
    }
}

/// The first of `paths` that begins with `http://` or `https://`.
pub fn find_web_url(paths: &Vec<String>) -> (r: Option<String>)
    ensures
        text_model(r) == first_web_address(paths@),
{
    let mut i: usize = 0;
    assert(paths@.skip(0) =~= paths@);
    while i < paths.len()
        invariant
            i <= paths.len(),
            first_web_address(paths@) == first_web_address(paths@.skip(i as int)),
        decreases paths.len() - i,
    {
        assert(paths@.skip(i as int).skip(1) =~= paths@.skip(i + 1));
        if is_web_url(paths[i].as_str()) {
            return Some(paths[i].clone());
        }
        i += 1;
    }
    None
}

/// Whether the shell has to read the pasteboards before it hands `event`
/// on: only for a drop without paths in the portal window.
pub fn wants_pasteboard(label: &str, event: &PortalEvent) -> (r: bool)
    ensures
        r <==> label@ == PORTAL_LABEL@ && dropped_nothing(*event),
{
    match event {
        PortalEvent::Drop { paths, .. } => paths.len() == 0 && is_portal(label),
        _ => false,
    }
}

/// Whether `label` is the label of the portal window.
pub fn is_portal(label: &str) -> (r: bool)
    ensures
        r == (label@ == PORTAL_LABEL@),
{
    same_text(label, PORTAL_LABEL)
}

/// What the shell does when `event` reaches the window labelled `label`.
/// Only the portal window acts: a close request hides it instead; a drop
/// is emitted as its URL where it carries one and as its paths where it
/// does not; a drag that enters or leaves is passed on.
pub fn on_window_event(label: &str, event: PortalEvent) -> (action: PortalAction)
    ensures
        label@ != PORTAL_LABEL@ ==> action == PortalAction::Ignore,
        label@ == PORTAL_LABEL@ ==> match event {
            PortalEvent::CloseRequested => action == PortalAction::HideInsteadOfClose,
            PortalEvent::Drop { paths, drag, general } => match dropped_url(paths@, drag, general) {
                Some(url) => action matches PortalAction::EmitDropUrl(u) && u@ == url,
                None => action == PortalAction::EmitDrop(paths),
            },
            PortalEvent::Enter { paths } => action == PortalAction::EmitDragEnter(paths),
            PortalEvent::Leave => action == PortalAction::EmitDragLeave,
            PortalEvent::Other => action == PortalAction::Ignore,
        },
{
    if !is_portal(label) {
        return PortalAction::Ignore;
    }
    match event {
        PortalEvent::CloseRequested => PortalAction::HideInsteadOfClose,
        PortalEvent::Drop { paths, drag, general } => {
            let url = if paths.len() == 0 {
                get_drag_url(&drag, &general)
            } else {
                find_web_url(&paths)
            };
            match url {
                Some(url) => PortalAction::EmitDropUrl(url),
                None => PortalAction::EmitDrop(paths),
            }
        },
        PortalEvent::Enter { paths } => PortalAction::EmitDragEnter(paths),
        PortalEvent::Leave => PortalAction::EmitDragLeave,
        PortalEvent::Other => PortalAction::Ignore,
    }
}

/// The name of the event that `action` emits, if it emits one.
pub fn event_name(action: &PortalAction) -> (r: Option<&'static str>)
    ensures
        match *action {
            PortalAction::EmitDropUrl(_) => r is Some && r->0@ == "tauri-drop-url"@,
            PortalAction::EmitDrop(_) => r is Some && r->0@ == "tauri-drop"@,
            PortalAction::EmitDragEnter(_) => r is Some && r->0@ == "tauri-drag-enter"@,
            PortalAction::EmitDragLeave => r is Some && r->0@ == "tauri-drag-leave"@,
            _ => r is None,
        },
{
    match action {
        PortalAction::EmitDropUrl(_) => Some("tauri-drop-url"),
        PortalAction::EmitDrop(_) => Some("tauri-drop"),
        PortalAction::EmitDragEnter(_) => Some("tauri-drag-enter"),
        PortalAction::EmitDragLeave => Some("tauri-drag-leave"),
        _ => None,
    }
}

/// What the global shortcut does: a visible portal is hidden, a hidden one
/// is shown and focused, a missing one is created anew.
pub fn toggle_portal(state: PortalState) -> (action: ToggleAction)
    ensures
        action == (match state {
            PortalState::Visible => ToggleAction::Hide,
            PortalState::Hidden => ToggleAction::ShowAndFocus,
            PortalState::Missing => ToggleAction::Recreate,
        }),
{
    match state {
        PortalState::Visible => ToggleAction::Hide,
        PortalState::Hidden => ToggleAction::ShowAndFocus,
        PortalState::Missing => ToggleAction::Recreate,
    }
}

/// Size and place of a new portal window: 500 by 600, no smaller than 300
/// by 350, and `PORTAL_OFFSET` right and down of the main window where that
/// one's position is known.
pub fn portal_layout(main_position: Option<(i32, i32)>) -> (layout: PortalLayout)
    ensures
        layout.width == 500,
        layout.height == 600,
        layout.min_width == 300,
        layout.min_height == 350,
        match main_position {
            Some((x, y)) => layout.position matches Some((left, top)) && left == x + PORTAL_OFFSET
                && top == y + PORTAL_OFFSET,
            None => layout.position is None,
        },
{
    let position = match main_position {
        Some((x, y)) => {
            let left: i64 = x as i64 + PORTAL_OFFSET;
            let top: i64 = y as i64 + PORTAL_OFFSET;
            Some((left, top))
        },
        None => None,
    };
    PortalLayout { width: 500, height: 600, min_width: 300, min_height: 350, position }
}

/// How handing a dropped URL to the main window ends: with the error of the
/// emit if there was one, with `Main window not found` if there is no main
/// window, and well otherwise. `emitted` is looked at only where the main
/// window was found.
pub fn add_url_outcome(main_window_found: bool, emitted: Result<(), String>) -> (r: Result<
    (),
    String,
>)
    ensures
        main_window_found ==> r == emitted,
        !main_window_found ==> r is Err && r->Err_0@ == "Main window not found"@,
{
    if main_window_found {
        emitted
    } else {
        Err("Main window not found".to_owned())
    }
}

} // verus!
