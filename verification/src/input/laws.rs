//! What holds of the controls and what is bound to them.
use vstd::prelude::*;
use crate::input::{
    armed, control_at, default_slots, hint_text, taken, with_binding, CaptureView, MappedKey,
};
use crate::text::decimal;

verus! {

/// Every control has a place of its own among the eleven.
pub proof fn law_controls_have_places_of_their_own(a: MappedKey, b: MappedKey)
    ensures
        0 <= control_at(a) < 11,
        control_at(a) == control_at(b) ==> a == b,
{
}

/// What the controls are before anyone changes them, one key each.
pub proof fn law_what_the_controls_are_at_first(key: MappedKey)
    ensures
        default_slots().len() == 11,
        default_slots()[control_at(key)].len() == 1,
        ({
            let code = default_slots()[control_at(key)][0];
            match key {
                MappedKey::Up => code == "ArrowUp"@,
                MappedKey::Down => code == "ArrowDown"@,
                MappedKey::Left => code == "ArrowLeft"@,
                MappedKey::Right => code == "ArrowRight"@,
                MappedKey::A => code == "KeyZ"@,
                MappedKey::B => code == "KeyX"@,
                MappedKey::L => code == "KeyA"@,
                MappedKey::R => code == "KeyS"@,
                MappedKey::Start => code == "Enter"@,
                MappedKey::Select => code == "Space"@,
                MappedKey::SpeedUp => code == "ShiftLeft"@,
            }
        }),
{
}

/// Binding an input adds it behind the others, and leaves them as they are
/// where it is bound already.
pub proof fn law_bindings_join_at_the_end(inputs: Seq<Seq<char>>, input: Seq<char>, i: int)
    requires
        0 <= i < inputs.len(),
    ensures
        with_binding(inputs, input)[i] == inputs[i],
        with_binding(inputs, input).contains(input),
        inputs.contains(input) ==> with_binding(inputs, input) == inputs,
        !inputs.contains(input) ==> with_binding(inputs, input).len() == inputs.len() + 1
            && with_binding(inputs, input).last() == input,
{
    if !inputs.contains(input) {
        assert(inputs.push(input)[inputs.len() as int] == input);
    }
}

/// A capture that waits for a control takes one input for it and waits no
/// longer; one that waits for nothing takes nothing.
pub proof fn law_a_capture_takes_one_input(
    key: MappedKey,
    input: Seq<char>,
    next: Seq<char>,
    c: CaptureView,
)
    ensures
        taken(armed(key), input) == (CaptureView { target: None, captured: Some((key, input)) }),
        taken(taken(armed(key), input), next) == taken(armed(key), input),
        c.target is None ==> taken(c, input) == c,
        armed(key).target == Some(key),
        armed(key).captured is None,
{
}

/// A control is hinted at by its first input, and by how many more there are; a
/// dash where there is none.
pub proof fn law_how_a_control_is_hinted_at(inputs: Seq<Seq<char>>)
    ensures
        inputs.len() == 0 ==> hint_text(inputs) == "—"@,
        inputs.len() == 1 ==> hint_text(inputs) == inputs[0],
        inputs.len() > 1 ==> hint_text(inputs) == inputs[0] + " +"@ + decimal(
            (inputs.len() - 1) as nat,
        ),
{
}

} // verus!
