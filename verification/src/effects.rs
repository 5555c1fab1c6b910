//! The framebuffer effect registry. Only the nearest pass-through ships; others
//! can be dropped in later.
use vstd::prelude::*;
use crate::text::same_text;

verus! {

/// A way to put the frame on the screen.
#[derive(Debug, Clone, Copy)]
pub struct Effect {
    pub id: &'static str,
    pub name: &'static str,
    pub scale: u32,
}

/// Whether an effect is the nearest pass-through.
pub open spec fn is_passthrough(e: Effect) -> bool {
    e.id@ == ""@ && e.name@ == "—"@ && e.scale == 1
}

/// Nearest pass-through.
pub fn passthrough() -> (e: Effect)
    ensures
        is_passthrough(e),
{
    Effect { id: "", name: "—", scale: 1 }
}

/// The first effect with a key, from a position on.
pub open spec fn effect_from(effects: Seq<Effect>, id: Seq<char>, i: int) -> Option<Effect>
    decreases effects.len() - i,
{
    if i >= effects.len() {
        None
    } else if effects[i].id@ == id {
        Some(effects[i])
    } else {
        effect_from(effects, id, i + 1)
    }
}

/// Resolve an effect key among some effects; unknown keys fall back to
/// pass-through.
pub fn effect_among(effects: &Vec<Effect>, id: &str) -> (e: Effect)
    ensures
        match effect_from(effects@, id@, 0) {
            Some(x) => e == x,
            None => is_passthrough(e),
        },
{
    let mut i: usize = 0;
    while i < effects.len()
        invariant
            i <= effects@.len(),
            effect_from(effects@, id@, 0) == effect_from(effects@, id@, i as int),
        decreases effects@.len() - i,
    {
        if same_text(effects[i].id, id) {
            return effects[i];
        }
        i = i + 1;
    }
    passthrough()
}

/// Resolve an effect key; unknown and empty keys fall back to pass-through,
/// which is all there is.
pub fn effect_for(id: &str) -> (e: Effect)
    ensures
        is_passthrough(e),
{
    let mut effects: Vec<Effect> = Vec::new();
    effects.push(passthrough());
    let e = effect_among(&effects, id);
    proof {
        assert(effect_from(effects@, id@, 1) is None);
    }
    e
}

/// An effect is found by its key, the first of several; what has no key of
/// theirs is none. The pass-through shows every pixel once.
pub proof fn law_effects_are_found_by_key(
    effects: Seq<Effect>,
    id: Seq<char>,
    from: int,
    i: int,
    e: Effect,
)
    requires
        0 <= from <= i < effects.len(),
        forall|k: int| from <= k < i ==> (#[trigger] effects[k]).id@ != id,
    ensures
        effects[i].id@ == id ==> effect_from(effects, id, from) == Some(effects[i]),
        i == effects.len() - 1 && effects[i].id@ != id ==> effect_from(effects, id, from) is None,
        is_passthrough(e) ==> e.id@ == ""@ && e.scale == 1,
    decreases i - from,
{
    if from < i {
        assert(effects[from].id@ != id);
        law_effects_are_found_by_key(effects, id, from + 1, i, e);
    } else if i == effects.len() - 1 {
        assert(effect_from(effects, id, i + 1) is None);
    }
}

} // verus!
