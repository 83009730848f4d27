//! Title-screen and credits data editing: the recorded demo input steps,
//! the buttons held in an input byte, and the stripe images (title screen,
//! ending enemy names), each a byte list closed by `0xFF` in a fixed-size
//! ROM slot.

use crate::text::{join_with, lemma_join_push, push_joined};
use vstd::prelude::*;

verus! {

/// Name of controller button `k` of an input byte, from bit 7 down.
pub open spec fn button_name(k: int) -> Seq<char> {
    if k == 0 {
        "B"@
    } else if k == 1 {
        "Y"@
    } else if k == 2 {
        "Select"@
    } else if k == 3 {
        "Start"@
    } else if k == 4 {
        "Up"@
    } else if k == 5 {
        "Down"@
    } else if k == 6 {
        "Left"@
    } else {
        "Right"@
    }
}

/// Button `k` (bit `7 - k`) is held in `buttons`.
pub open spec fn button_held(buttons: u8, k: int) -> bool {
    buttons & (0x80u8 >> (k as u8)) != 0
}

/// Names of the held buttons among the first `n`, in bit order.
pub open spec fn held_names(buttons: u8, n: int) -> Seq<Seq<char>>
    decreases n,
{
    if n <= 0 {
        seq![]
    } else {
        held_names(buttons, n - 1) + if button_held(buttons, n - 1) {
            seq![button_name(n - 1)]
        } else {
            seq![]
        }
    }
}

/// `"B+Y+..."` for the held buttons, `"-"` for none.
pub open spec fn button_summary_text(buttons: u8) -> Seq<char> {
    if held_names(buttons, 8).len() == 0 {
        "-"@
    } else {
        join_with(held_names(buttons, 8), "+"@)
    }
}

fn button_name_str(k: u8) -> (name: &'static str)
    requires
        k < 8,
    ensures
        name@ == button_name(k as int),
{
    match k {
        0 => "B",
        1 => "Y",
        2 => "Select",
        3 => "Start",
        4 => "Up",
        5 => "Down",
        6 => "Left",
        _ => "Right",
    }
}

/// The held buttons of a demo input byte, e.g. `"B+Right"`, or `"-"`.
pub fn button_summary(buttons: u8) -> (text: String)
    ensures
        text@ == button_summary_text(buttons),
{
    let mut out = String::new();
    let mut count: usize = 0;
    let mut k: u8 = 0;
    while k < 8
        invariant
            k <= 8,
            count == held_names(buttons, k as int).len(),
            count <= k,
            out@ == join_with(held_names(buttons, k as int), "+"@),
        decreases 8 - k,
    {
        if buttons & (0x80u8 >> k) != 0 {
            proof {
                lemma_join_push(held_names(buttons, k as int), "+"@, button_name(k as int));
                assert(held_names(buttons, k as int + 1) =~= held_names(buttons, k as int).push(
                    button_name(k as int),
                ));
            }
            push_joined(&mut out, count, "+", button_name_str(k));
            count += 1;
        } else {
            assert(held_names(buttons, k as int + 1) =~= held_names(buttons, k as int));
        }
        k += 1;
    }
    if count == 0 {
        let mut dash = String::new();
        dash.append("-");
        return dash;
    }
    out
}

/// One recorded step of the title-screen demo: the buttons held and for
/// how many frames.
#[derive(Clone, Copy, Debug, PartialEq, Eq, Structural)]
pub struct DemoStep {
    pub buttons: u8,
    pub duration: u8,
}

/// The step a new demo step starts as: no button, 16 frames.
pub open spec fn new_demo_step() -> DemoStep {
    DemoStep { buttons: 0, duration: 0x10 }
}

/// Bytes the demo input takes in its slot: two per step and the end
/// marker.
pub open spec fn demo_input_size(steps: int) -> int {
    steps * 2 + 1
}

/// Add a step at the end of the demo input when the slot of `max_size`
/// bytes has room for it; returns whether it was added.
pub fn add_demo_step(steps: &mut Vec<DemoStep>, max_size: usize) -> (added: bool)
    requires
        old(steps)@.len() * 2 + 3 <= usize::MAX,
    ensures
        added == (demo_input_size(old(steps)@.len() as int) + 2 <= max_size),
        final(steps)@ == (if added {
            old(steps)@.push(new_demo_step())
        } else {
            old(steps)@
        }),
{
    if steps.len() * 2 + 3 <= max_size {
        steps.push(DemoStep { buttons: 0, duration: 0x10 });
        true
    } else {
        false
    }
}

/// Remove the last demo step, if any; returns whether one was removed.
pub fn remove_demo_step(steps: &mut Vec<DemoStep>) -> (removed: bool)
    ensures
        removed == (old(steps)@.len() > 0),
        final(steps)@ == (if removed {
            old(steps)@.drop_last()
        } else {
            old(steps)@
        }),
{
    if steps.len() > 0 {
        steps.pop();
        true
    } else {
        false
    }
}

/// The stripe's last byte is the `0xFF` end marker.
pub open spec fn stripe_terminated(stripe: Seq<u8>) -> bool {
    stripe.len() > 0 && stripe.last() == 0xFF
}

/// Whether the stripe ends with the `0xFF` end marker (the editor warns
/// when it does not).
pub fn stripe_ends_with_ff(stripe: &Vec<u8>) -> (ok: bool)
    ensures
        ok == stripe_terminated(stripe@),
{
    stripe.len() > 0 && stripe[stripe.len() - 1] == 0xFF
}

/// Add a blank (`0xFC`) byte before the stripe's last byte (at the start
/// of an empty stripe) when the slot of `max_size` bytes has room; returns
/// whether it was added.
pub fn add_stripe_byte(stripe: &mut Vec<u8>, max_size: usize) -> (added: bool)
    ensures
        added == (old(stripe)@.len() < max_size),
        final(stripe)@ == (if !added {
            old(stripe)@
        } else if old(stripe)@.len() == 0 {
            seq![0xFCu8]
        } else {
            old(stripe)@.insert(old(stripe)@.len() - 1, 0xFCu8)
        }),
{
    if stripe.len() < max_size {
        let at = if stripe.len() > 0 { stripe.len() - 1 } else { 0 };
        stripe.insert(at, 0xFC);
        proof {
            if old(stripe)@.len() == 0 {
                assert(stripe@ =~= seq![0xFCu8]);
            }
        }
        true
    } else {
        false
    }
}

/// Remove the byte before the stripe's last byte when the stripe holds
/// more than the end marker; returns whether one was removed.
pub fn remove_stripe_byte(stripe: &mut Vec<u8>) -> (removed: bool)
    ensures
        removed == (old(stripe)@.len() > 1),
        final(stripe)@ == (if removed {
            old(stripe)@.remove(old(stripe)@.len() - 2)
        } else {
            old(stripe)@
        }),
{
    if stripe.len() > 1 {
        let at = stripe.len() - 2;
        stripe.remove(at);
        true
    } else {
        false
    }
}

/// Adding a blank byte to a stripe closed by `0xFF` and removing one again
/// gives the stripe back, and it stays closed by `0xFF` in between.
pub proof fn lemma_stripe_add_remove(stripe: Seq<u8>)
    requires
        stripe_terminated(stripe),
    ensures
        stripe_terminated(stripe.insert(stripe.len() - 1, 0xFCu8)),
        stripe.insert(stripe.len() - 1, 0xFCu8).remove(stripe.len() - 1) == stripe,
{
    let added = stripe.insert(stripe.len() - 1, 0xFCu8);
    assert(added.last() == 0xFF);
    assert(added.remove(stripe.len() - 1) =~= stripe);
}

} // verus!
