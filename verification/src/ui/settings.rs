//! The Settings tab: the input binding editor with live capture, and the game
//! database.
use vstd::prelude::*;
use crate::input::{armed, Capture, CaptureView, MappedKey};
use crate::ui::play::{Flash, Flashed, FlashedView, Slot};

verus! {

/// The detail row's name for a control.
pub open spec fn key_name(key: MappedKey) -> Seq<char> {
    match key {
        MappedKey::Up => "Up"@,
        MappedKey::Down => "Down"@,
        MappedKey::Left => "Left"@,
        MappedKey::Right => "Right"@,
        MappedKey::A => "A"@,
        MappedKey::B => "B"@,
        MappedKey::L => "L"@,
        MappedKey::R => "R"@,
        MappedKey::Start => "Start"@,
        MappedKey::Select => "Select"@,
        MappedKey::SpeedUp => "Fast-forward"@,
    }
}

/// The detail row's name for a control.
pub fn key_label(key: MappedKey) -> (t: &'static str)
    ensures
        t@ == key_name(key),
{
    match key {
        MappedKey::Up => "Up",
        MappedKey::Down => "Down",
        MappedKey::Left => "Left",
        MappedKey::Right => "Right",
        MappedKey::A => "A",
        MappedKey::B => "B",
        MappedKey::L => "L",
        MappedKey::R => "R",
        MappedKey::Start => "Start",
        MappedKey::Select => "Select",
        MappedKey::SpeedUp => "Fast-forward",
    }
}

/// Which control the detail row edits, and what is being captured for one.
#[derive(Debug)]
pub struct BindEditor {
    pub selected: Option<MappedKey>,
    pub capture: Capture,
}

/// What a [`BindEditor`] says.
#[verifier::ext_equal]
pub struct BindEditorView {
    pub selected: Option<MappedKey>,
    pub capture: CaptureView,
}

impl View for BindEditor {
    type V = BindEditorView;

    open spec fn view(&self) -> BindEditorView {
        BindEditorView { selected: self.selected, capture: self.capture@ }
    }
}

/// The editor once a control was clicked.
pub open spec fn clicked(e: BindEditorView, key: MappedKey) -> BindEditorView {
    BindEditorView {
        selected: Some(key),
        capture: if e.capture.target == Some(key) {
            CaptureView { target: None, ..e.capture }
        } else {
            armed(key)
        },
    }
}

/// What the detail row says beside the selected control's bindings.
#[derive(Debug, Clone, Copy, PartialEq, Eq, Structural)]
pub enum Prompt {
    /// No control is selected: how to begin.
    Begin,
    /// The selected control waits for an input.
    Press,
    Silent,
}

impl BindEditor {
    /// A control was clicked: it is selected, and arms its capture; clicking
    /// again cancels.
    pub fn click(&mut self, key: MappedKey)
        ensures
            final(self)@ == clicked(old(self)@, key),
    {
        self.selected = Some(key);
        let cancels = match self.capture.target {
            Some(k) => k == key,
            None => false,
        };
        if cancels {
            self.capture.target = None;
        } else {
            self.capture.arm(key);
        }
    }

    /// Leaving the tab cancels any pending capture.
    pub fn leave(&mut self)
        ensures
            final(self)@ == (BindEditorView {
                selected: old(self)@.selected,
                capture: CaptureView { target: None, captured: None },
            }),
    {
        self.capture.cancel();
    }

    /// What the detail row says.
    pub fn prompt(&self) -> (p: Prompt)
        ensures
            p == (match self.selected {
                None => Prompt::Begin,
                Some(key) => if self.capture.target == Some(key) {
                    Prompt::Press
                } else {
                    Prompt::Silent
                },
            }),
    {
        match self.selected {
            None => Prompt::Begin,
            Some(key) => match self.capture.target {
                Some(k) => if k == key {
                    Prompt::Press
                } else {
                    Prompt::Silent
                },
                None => Prompt::Silent,
            },
        }
    }
}

/// Clicking a control that waits for nothing twice leaves it waiting for
/// nothing.
pub proof fn law_a_second_click_cancels(e: BindEditorView, key: MappedKey)
    requires
        e.capture.target != Some(key),
    ensures
        clicked(e, key).capture.target == Some(key),
        clicked(clicked(e, key), key).capture.target is None,
{
}

/// What is said of a download of the game database, by what went wrong.
pub open spec fn update_report(why: Option<Seq<char>>) -> FlashedView {
    match why {
        None => FlashedView { slot: Slot::Database, text: "Updated!"@, ok: true, ms: 2500 },
        Some(e) => FlashedView {
            slot: Slot::Database,
            text: "update failed: "@ + e,
            ok: false,
            ms: 5000,
        },
    }
}

/// What is said of a download of the game database.
pub fn update_flash(why: Option<&str>) -> (f: Flashed)
    ensures
        f@ == update_report(
            match why {
                Some(e) => Some(e@),
                None => None,
            },
        ),
{
    match why {
        None => Flashed {
            slot: Slot::Database,
            flash: Flash { text: "Updated!".to_owned(), ok: true },
            ms: 2500,
        },
        Some(e) => {
            let mut text = "update failed: ".to_owned();
            text.append(e);
            Flashed { slot: Slot::Database, flash: Flash { text, ok: false }, ms: 5000 }
        },
    }
}

} // verus!
