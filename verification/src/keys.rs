//! The key map: "1".."6" pick a single orbital, "7".."0" a superposition
//! preset. The same labels are accepted as the program's first argument.

use vstd::prelude::*;

use crate::orbital::Orbital;
use crate::state::{preset_view, SimState, StateView};

verus! {

/// The state a key label selects, if any.
pub open spec fn key_view(key: Seq<char>) -> Option<StateView> {
    if key == seq!['1'] {
        Some(StateView::Single(Orbital::S1))
    } else if key == seq!['2'] {
        Some(StateView::Single(Orbital::S2))
    } else if key == seq!['3'] {
        Some(StateView::Single(Orbital::P2z))
    } else if key == seq!['4'] {
        Some(StateView::Single(Orbital::P3z))
    } else if key == seq!['5'] {
        Some(StateView::Single(Orbital::D3z2))
    } else if key == seq!['6'] {
        Some(StateView::Single(Orbital::D3xy))
    } else if key == seq!['7'] {
        Some(preset_view(0))
    } else if key == seq!['8'] {
        Some(preset_view(1))
    } else if key == seq!['9'] {
        Some(preset_view(2))
    } else if key == seq!['0'] {
        Some(preset_view(3))
    } else {
        None
    }
}

proof fn lemma_singleton_eq(a: char, b: char)
    ensures
        (seq![a] == seq![b]) <==> a == b,
{
    if seq![a] == seq![b] {
        assert(seq![a][0] == seq![b][0]);
    }
}

/// The state the one-character key `c` selects, if any.
fn state_from_char(c: char) -> (r: Option<SimState>)
    ensures
        r is Some <==> key_view(seq![c]) is Some,
        r matches Some(s) ==> key_view(seq![c]) == Some(s@),
{
    proof {
        lemma_singleton_eq(c, '1');
        lemma_singleton_eq(c, '2');
        lemma_singleton_eq(c, '3');
        lemma_singleton_eq(c, '4');
        lemma_singleton_eq(c, '5');
        lemma_singleton_eq(c, '6');
        lemma_singleton_eq(c, '7');
        lemma_singleton_eq(c, '8');
        lemma_singleton_eq(c, '9');
        lemma_singleton_eq(c, '0');
    }
    if c == '1' {
        Some(SimState::Single(Orbital::S1))
    } else if c == '2' {
        Some(SimState::Single(Orbital::S2))
    } else if c == '3' {
        Some(SimState::Single(Orbital::P2z))
    } else if c == '4' {
        Some(SimState::Single(Orbital::P3z))
    } else if c == '5' {
        Some(SimState::Single(Orbital::D3z2))
    } else if c == '6' {
        Some(SimState::Single(Orbital::D3xy))
    } else if c == '7' {
        Some(SimState::preset(0))
    } else if c == '8' {
        Some(SimState::preset(1))
    } else if c == '9' {
        Some(SimState::preset(2))
    } else if c == '0' {
        Some(SimState::preset(3))
    } else {
        None
    }
}

/// Map a key/argument ("1".."6" orbitals, "7".."0" presets) to a state.
pub fn state_from_key(key: &str) -> (r: Option<SimState>)
    ensures
        r is Some <==> key_view(key@) is Some,
        r matches Some(s) ==> key_view(key@) == Some(s@),
{
    if key.unicode_len() != 1 {
        return None;
    }
    let c = key.get_char(0);
    proof {
        assert(key@ =~= seq![c]);
    }
    state_from_char(c)
}

/// The state selected by the last key of `keys` that selects one, if any.
pub open spec fn last_selected(keys: Seq<char>) -> Option<StateView>
    decreases keys.len(),
{
    if keys.len() == 0 {
        None
    } else {
        match key_view(seq![keys.last()]) {
            Some(v) => Some(v),
            None => last_selected(keys.drop_last()),
        }
    }
}

/// What one frame of keyboard input decides.
pub struct ControlOutcome {
    /// Quit the program; nothing else changes in that frame.
    pub quit: bool,
    /// The state to switch to, if a digit key picked one.
    pub select: Option<SimState>,
    /// Whether the camera rotates on its own afterwards.
    pub auto_rotate: bool,
    /// Whether time is paused afterwards.
    pub paused: bool,
}

/// The discrete decisions of one frame of keyboard input. `quit` is whether
/// Q was pressed, `digits` the labels of the digit keys pressed this frame in
/// the order they are scanned, `spin` and `pause` whether Space and P were
/// pressed; `auto_rotate` and `paused` are the current settings. Q overrides
/// everything; among the digits the last one that picks a state wins; Space
/// and P toggle their setting.
pub fn control_step(
    quit: bool,
    digits: &Vec<char>,
    spin: bool,
    pause: bool,
    auto_rotate: bool,
    paused: bool,
) -> (r: ControlOutcome)
    ensures
        r.quit == quit,
        quit ==> r.select is None && r.auto_rotate == auto_rotate && r.paused == paused,
        !quit ==> (r.select is Some <==> last_selected(digits@) is Some),
        !quit ==> (r.select matches Some(s) ==> last_selected(digits@) == Some(s@)),
        !quit ==> r.auto_rotate == (auto_rotate != spin) && r.paused == (paused != pause),
{
    if quit {
        return ControlOutcome { quit: true, select: None, auto_rotate, paused };
    }
    let mut select: Option<SimState> = None;
    let mut i: usize = 0;
    while i < digits.len()
        invariant
            i <= digits.len(),
            select is Some <==> last_selected(digits@.take(i as int)) is Some,
            select matches Some(s) ==> last_selected(digits@.take(i as int)) == Some(s@),
        decreases digits.len() - i,
    {
        let picked = state_from_char(digits[i]);
        proof {
            let t = digits@.take(i as int + 1);
            assert(t.drop_last() =~= digits@.take(i as int));
            assert(t.last() == digits@[i as int]);
        }
        if picked.is_some() {
            select = picked;
        }
        i = i + 1;
    }
    proof {
        assert(digits@.take(digits.len() as int) =~= digits@);
    }
    ControlOutcome { quit: false, select, auto_rotate: auto_rotate != spin, paused: paused != pause }
}

/// Exactly the ten single-digit labels select a state.
pub proof fn lemma_keys_are_the_digits(key: Seq<char>)
    ensures
        key_view(key) is Some <==> (key.len() == 1 && '0' <= key[0] <= '9'),
{
    if key.len() == 1 && '0' <= key[0] <= '9' {
        let c = key[0];
        assert(key =~= seq![c]);
    }
}

/// Digits 1..6 select stationary eigenstates; 7, 8, 9 and 0 select the
/// superposition presets in order.
pub proof fn lemma_digit_keys_select_presets(key: Seq<char>)
    ensures
        key == seq!['7'] ==> key_view(key) == Some(preset_view(0)),
        key == seq!['8'] ==> key_view(key) == Some(preset_view(1)),
        key == seq!['9'] ==> key_view(key) == Some(preset_view(2)),
        key == seq!['0'] ==> key_view(key) == Some(preset_view(3)),
        key_view(key) matches Some(v) ==> (v.dynamic() <==> (key == seq!['7'] || key == seq!['8']
            || key == seq!['9'] || key == seq!['0'])),
{
    if key.len() == 1 {
        let c = key[0];
        assert(key =~= seq![c]);
        assert(seq!['7'][0] == '7' && seq!['0'][0] == '0');
        assert(seq!['8'][0] == '8' && seq!['9'][0] == '9');
    }
}

/// Different keys select different states.
pub proof fn lemma_keys_select_distinct_states(a: char, b: char)
    requires
        a != b,
        key_view(seq![a]) is Some,
    ensures
        key_view(seq![a]) != key_view(seq![b]),
{
    reveal_strlit("1s + 2p_z");
    reveal_strlit("1s + 2s");
    reveal_strlit("2p_z + 3d_z2");
    reveal_strlit("1s + 2p_z + 3d_z2");
    lemma_singleton_eq(a, '1');
    lemma_singleton_eq(a, '2');
    lemma_singleton_eq(a, '3');
    lemma_singleton_eq(a, '4');
    lemma_singleton_eq(a, '5');
    lemma_singleton_eq(a, '6');
    lemma_singleton_eq(a, '7');
    lemma_singleton_eq(a, '8');
    lemma_singleton_eq(a, '9');
    lemma_singleton_eq(a, '0');
    lemma_singleton_eq(b, '1');
    lemma_singleton_eq(b, '2');
    lemma_singleton_eq(b, '3');
    lemma_singleton_eq(b, '4');
    lemma_singleton_eq(b, '5');
    lemma_singleton_eq(b, '6');
    lemma_singleton_eq(b, '7');
    lemma_singleton_eq(b, '8');
    lemma_singleton_eq(b, '9');
    lemma_singleton_eq(b, '0');
    let n0 = preset_view(0).label();
    let n1 = preset_view(1).label();
    let n2 = preset_view(2).label();
    let n3 = preset_view(3).label();
    assert(n0.len() != n2.len() && n0.len() != n3.len() && n1.len() != n2.len() && n1.len() != n3.len());
    assert(n2.len() != n3.len());
    assert(n0[6] != n1[6]);
}

/// The state to open with: the one the argument selects, or the 1s orbital
/// when there is no argument or it names no state.
pub fn initial_state(arg: Option<&str>) -> (s: SimState)
    ensures
        arg matches Some(k) ==> (key_view(k@) is Some ==> key_view(k@) == Some(s@)),
        (arg is None || key_view(arg->0@) is None) ==> s@ == StateView::Single(Orbital::S1),
{
    match arg {
        Some(k) => match state_from_key(k) {
            Some(s) => s,
            None => SimState::Single(Orbital::S1),
        },
        None => SimState::Single(Orbital::S1),
    }
}

/// The selection of a frame is decided by its last key that names a state:
/// appending such a key selects exactly what that key names, appending any
/// other key leaves the selection as it was, and no keys select nothing.
pub proof fn lemma_last_key_selects(keys: Seq<char>, k: char)
    ensures
        last_selected(Seq::<char>::empty()) is None,
        key_view(seq![k]) is Some ==> last_selected(keys.push(k)) == key_view(seq![k]),
        key_view(seq![k]) is None ==> last_selected(keys.push(k)) == last_selected(keys),
        last_selected(seq![k]) == key_view(seq![k]),
{
    assert(keys.push(k).drop_last() =~= keys);
    assert(keys.push(k).last() == k);
    assert(seq![k].drop_last() =~= Seq::<char>::empty());
}

/// A frame in which exactly one digit key is pressed selects a state, the
/// one that digit names; 0 picks the last superposition preset.
pub proof fn lemma_each_digit_selects(k: char)
    requires
        '0' <= k <= '9',
    ensures
        last_selected(seq![k]) is Some,
        last_selected(seq![k]) == key_view(seq![k]),
        k == '0' ==> last_selected(seq![k]) == Some(preset_view(3)),
{
    lemma_last_key_selects(Seq::<char>::empty(), k);
    lemma_keys_are_the_digits(seq![k]);
    lemma_digit_keys_select_presets(seq![k]);
}

} // verus!
