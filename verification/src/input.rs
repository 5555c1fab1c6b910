//! Which inputs drive which controls, and the capture of new ones.
use vstd::prelude::*;
use crate::library::names_view;
use crate::text::{decimal, push_decimal, same_text};

pub mod laws;

verus! {

/// The controls of the machine, and fast-forward.
#[derive(Debug, Clone, Copy, PartialEq, Eq, Structural)]
pub enum MappedKey {
    Up,
    Down,
    Left,
    Right,
    A,
    B,
    L,
    R,
    Start,
    Select,
    SpeedUp,
}

/// The bindings of one control, by what they are called, in the order they
/// were made.
#[derive(Debug)]
pub struct Bindings {
    pub inputs: Vec<String>,
}

/// The hint under a control: its first binding, and how many more there are.
pub open spec fn hint_text(inputs: Seq<Seq<char>>) -> Seq<char> {
    if inputs.len() == 0 {
        "—"@
    } else if inputs.len() == 1 {
        inputs[0]
    } else {
        inputs[0] + " +"@ + decimal((inputs.len() - 1) as nat)
    }
}

impl Bindings {
    /// Apply a captured binding: once is enough.
    pub fn bind(&mut self, input: String)
        ensures
            names_view(final(self).inputs@) == (if names_view(old(self).inputs@).contains(input@) {
                names_view(old(self).inputs@)
            } else {
                names_view(old(self).inputs@).push(input@)
            }),
    {
        let ghost nv = names_view(self.inputs@);
        let mut i: usize = 0;
        while i < self.inputs.len()
            invariant
                i <= self.inputs@.len(),
                *self == *old(self),
                nv == names_view(self.inputs@),
                forall|k: int| 0 <= k < i ==> nv[k] != input@,
            decreases self.inputs@.len() - i,
        {
            assert(nv[i as int] == self.inputs@[i as int]@);
            if same_text(self.inputs[i].as_str(), input.as_str()) {
                assert(nv.contains(input@));
                return;
            }
            i = i + 1;
        }
        assert(!nv.contains(input@));
        self.inputs.push(input);
        assert(names_view(self.inputs@) =~= nv.push(input@));
    }

    /// Remove the binding at a position, where there is one.
    pub fn unbind(&mut self, index: usize)
        ensures
            final(self).inputs@ == (if index < old(self).inputs@.len() {
                old(self).inputs@.remove(index as int)
            } else {
                old(self).inputs@
            }),
    {
        if index < self.inputs.len() {
            self.inputs.remove(index);
        }
    }

    /// The hint under the control.
    pub fn hint(&self) -> (t: String)
        ensures
            t@ == hint_text(names_view(self.inputs@)),
    {
        assert(self.inputs@.len() == self.inputs.len());
        if self.inputs.len() == 0 {
            return "—".to_owned();
        }
        let mut t = self.inputs[0].as_str().to_owned();
        if self.inputs.len() > 1 {
            t.append(" +");
            push_decimal(&mut t, self.inputs.len() as u64 - 1);
        }
        t
    }
}

/// How many controls there are.
pub const CONTROLS: usize = 11;

/// The position of a control's bindings.
pub open spec fn control_at(key: MappedKey) -> int {
    match key {
        MappedKey::Up => 0,
        MappedKey::Down => 1,
        MappedKey::Left => 2,
        MappedKey::Right => 3,
        MappedKey::A => 4,
        MappedKey::B => 5,
        MappedKey::L => 6,
        MappedKey::R => 7,
        MappedKey::Start => 8,
        MappedKey::Select => 9,
        MappedKey::SpeedUp => 10,
    }
}

fn control_index(key: MappedKey) -> (i: usize)
    ensures
        i == control_at(key),
        i < CONTROLS,
{
    match key {
        MappedKey::Up => 0,
        MappedKey::Down => 1,
        MappedKey::Left => 2,
        MappedKey::Right => 3,
        MappedKey::A => 4,
        MappedKey::B => 5,
        MappedKey::L => 6,
        MappedKey::R => 7,
        MappedKey::Start => 8,
        MappedKey::Select => 9,
        MappedKey::SpeedUp => 10,
    }
}

/// The bindings of every control.
#[derive(Debug)]
pub struct Mapping {
    pub slots: Vec<Bindings>,
}

/// What the bindings of some controls are called.
pub open spec fn slots_view(slots: Seq<Bindings>) -> Seq<Seq<Seq<char>>> {
    slots.map_values(|b: Bindings| names_view(b.inputs@))
}

/// A control's bindings with one more, unless it is there already.
pub open spec fn with_binding(inputs: Seq<Seq<char>>, input: Seq<char>) -> Seq<Seq<char>> {
    if inputs.contains(input) {
        inputs
    } else {
        inputs.push(input)
    }
}

impl Mapping {
    /// Every control has its bindings.
    pub open spec fn wf(self) -> bool {
        self.slots@.len() == CONTROLS
    }

    /// Nothing bound.
    pub fn empty() -> (m: Mapping)
        ensures
            m.wf(),
            forall|i: int| 0 <= i < CONTROLS ==> slots_view(m.slots@)[i].len() == 0,
    {
        let mut slots: Vec<Bindings> = Vec::new();
        while slots.len() < CONTROLS
            invariant
                slots@.len() <= CONTROLS,
                forall|i: int| 0 <= i < slots@.len() ==> slots@[i].inputs@.len() == 0,
            decreases CONTROLS - slots@.len(),
        {
            slots.push(Bindings { inputs: Vec::new() });
        }
        Mapping { slots }
    }

    /// A control's bindings.
    pub fn slot(&self, key: MappedKey) -> (b: &Bindings)
        requires
            self.wf(),
        ensures
            *b == self.slots@[control_at(key)],
    {
        &self.slots[control_index(key)]
    }

    /// Bind an input to a control.
    pub fn bind(&mut self, key: MappedKey, input: String)
        requires
            old(self).wf(),
        ensures
            final(self).wf(),
            slots_view(final(self).slots@) == slots_view(old(self).slots@).update(
                control_at(key),
                with_binding(slots_view(old(self).slots@)[control_at(key)], input@),
            ),
    {
        let ghost before = self.slots@;
        let i: usize = control_index(key);
        self.slots[i].bind(input);
        assert(slots_view(self.slots@) =~= slots_view(before).update(
            i as int,
            with_binding(slots_view(before)[i as int], input@),
        ));
    }

    /// Remove a control's binding at a position, where there is one.
    pub fn unbind(&mut self, key: MappedKey, index: usize)
        requires
            old(self).wf(),
        ensures
            final(self).wf(),
            slots_view(final(self).slots@) == slots_view(old(self).slots@).update(
                control_at(key),
                if index < slots_view(old(self).slots@)[control_at(key)].len() {
                    slots_view(old(self).slots@)[control_at(key)].remove(index as int)
                } else {
                    slots_view(old(self).slots@)[control_at(key)]
                },
            ),
    {
        let ghost before = self.slots@;
        let i: usize = control_index(key);
        self.slots[i].unbind(index);
        proof {
            let was = slots_view(before)[i as int];
            assert(names_view(before[i as int].inputs@) == was);
            assert(names_view(self.slots@[i as int].inputs@) =~= (if index < was.len() {
                was.remove(index as int)
            } else {
                was
            }));
            assert(slots_view(self.slots@) =~= slots_view(before).update(
                i as int,
                names_view(self.slots@[i as int].inputs@),
            ));
        }
    }
}

/// The key that drives a control before anything was rebound, by its code:
/// arrows move, Z and X are A and B, A and S are L and R, Enter and Space are
/// Start and Select, and the left Shift is held to fast-forward.
pub open spec fn default_code(i: int) -> Seq<char> {
    if i == 0 {
        "ArrowUp"@
    } else if i == 1 {
        "ArrowDown"@
    } else if i == 2 {
        "ArrowLeft"@
    } else if i == 3 {
        "ArrowRight"@
    } else if i == 4 {
        "KeyZ"@
    } else if i == 5 {
        "KeyX"@
    } else if i == 6 {
        "KeyA"@
    } else if i == 7 {
        "KeyS"@
    } else if i == 8 {
        "Enter"@
    } else if i == 9 {
        "Space"@
    } else {
        "ShiftLeft"@
    }
}

/// Every control's bindings before anything was rebound.
pub open spec fn default_slots() -> Seq<Seq<Seq<char>>> {
    Seq::new(CONTROLS as nat, |i: int| seq![default_code(i)])
}

fn bound_to(code: &str) -> (b: Bindings)
    ensures
        names_view(b.inputs@) == seq![code@],
{
    let mut inputs: Vec<String> = Vec::new();
    inputs.push(code.to_owned());
    assert(names_view(inputs@) =~= seq![code@]);
    Bindings { inputs }
}

impl Default for Mapping {
    /// The bindings before anything was rebound.
    fn default() -> (m: Mapping)
        ensures
            m.wf(),
            slots_view(m.slots@) == default_slots(),
    {
        let mut slots: Vec<Bindings> = Vec::new();
        slots.push(bound_to("ArrowUp"));
        slots.push(bound_to("ArrowDown"));
        slots.push(bound_to("ArrowLeft"));
        slots.push(bound_to("ArrowRight"));
        slots.push(bound_to("KeyZ"));
        slots.push(bound_to("KeyX"));
        slots.push(bound_to("KeyA"));
        slots.push(bound_to("KeyS"));
        slots.push(bound_to("Enter"));
        slots.push(bound_to("Space"));
        slots.push(bound_to("ShiftLeft"));
        assert(slots_view(slots@) =~= default_slots());
        Mapping { slots }
    }
}

// ---------------------------------------------------------------------
// Capture
// ---------------------------------------------------------------------

/// A binding being captured.
#[derive(Debug)]
pub struct Capture {
    /// The control being rebound, if any.
    pub target: Option<MappedKey>,
    /// What the capture came to: the control, and the input it is bound to.
    pub captured: Option<(MappedKey, String)>,
}

/// What a [`Capture`] says.
#[verifier::ext_equal]
pub struct CaptureView {
    pub target: Option<MappedKey>,
    pub captured: Option<(MappedKey, Seq<char>)>,
}

impl View for Capture {
    type V = CaptureView;

    open spec fn view(&self) -> CaptureView {
        CaptureView {
            target: self.target,
            captured: match self.captured {
                Some((key, input)) => Some((key, input@)),
                None => None,
            },
        }
    }
}

/// An input arrived: a pending capture takes it.
pub open spec fn taken(c: CaptureView, input: Seq<char>) -> CaptureView {
    match c.target {
        Some(key) => CaptureView { target: None, captured: Some((key, input)) },
        None => c,
    }
}

/// A control was armed: what was captured for another is dropped.
pub open spec fn armed(key: MappedKey) -> CaptureView {
    CaptureView { target: Some(key), captured: None }
}

impl Capture {
    /// Nothing is being captured.
    pub fn new() -> (c: Capture)
        ensures
            c@ == (CaptureView { target: None, captured: None }),
    {
        Capture { target: None, captured: None }
    }

    /// An input arrived: a pending capture takes it.
    pub fn take(&mut self, input: &str)
        ensures
            final(self)@ == taken(old(self)@, input@),
    {
        match self.target {
            Some(key) => {
                self.target = None;
                self.captured = Some((key, input.to_owned()));
            },
            None => {},
        }
    }

    /// Wait for an input to bind to a control.
    pub fn arm(&mut self, key: MappedKey)
        ensures
            final(self)@ == armed(key),
    {
        self.target = Some(key);
        self.captured = None;
    }

    /// Forget whatever was pending.
    pub fn cancel(&mut self)
        ensures
            final(self)@ == (CaptureView { target: None, captured: None }),
    {
        self.target = None;
        self.captured = None;
    }

    /// Apply what was captured, once.
    pub fn apply(&mut self, mapping: &mut Mapping)
        requires
            old(mapping).wf(),
        ensures
            final(mapping).wf(),
            final(self)@ == (CaptureView { captured: None, ..old(self)@ }),
            slots_view(final(mapping).slots@) == (match old(self)@.captured {
                Some((key, input)) => slots_view(old(mapping).slots@).update(
                    control_at(key),
                    with_binding(slots_view(old(mapping).slots@)[control_at(key)], input),
                ),
                None => slots_view(old(mapping).slots@),
            }),
    {
        let mut captured: Option<(MappedKey, String)> = None;
        std::mem::swap(&mut captured, &mut self.captured);
        match captured {
            Some((key, input)) => {
                mapping.bind(key, input);
            },
            None => {},
        }
    }
}

/// A captured input is bound once, however often it is captured, and no other
/// control's bindings change.
pub proof fn law_a_binding_is_made_once(
    slots: Seq<Seq<Seq<char>>>,
    key: MappedKey,
    input: Seq<char>,
    other: MappedKey,
)
    requires
        slots.len() == CONTROLS,
        key != other,
    ensures
        ({
            let once = slots.update(
                control_at(key),
                with_binding(slots[control_at(key)], input),
            );
            let twice = once.update(control_at(key), with_binding(once[control_at(key)], input));
            &&& once[control_at(key)].contains(input)
            &&& twice == once
            &&& once[control_at(other)] == slots[control_at(other)]
        }),
{
    let once = slots.update(control_at(key), with_binding(slots[control_at(key)], input));
    let at = control_at(key);
    assert(once[at].contains(input)) by {
        if !slots[at].contains(input) {
            assert(once[at][slots[at].len() as int] == input);
        }
    }
    assert(once.update(at, with_binding(once[at], input)) =~= once);
}

} // verus!
