//! The prompt banks: stretch prompts shown on the fullscreen break overlay,
//! and notification bodies shown instead of blocking while on a call, each
//! picked at random.

use vstd::prelude::*;

verus! {

/// Number of stretch prompts.
pub const STRETCH_COUNT: usize = 6;

/// Number of meeting notices.
pub const MEETING_COUNT: usize = 5;

/// Title of stretch prompt `i`.
pub open spec fn stretch_title(i: int) -> Seq<char> {
    if i == 0 {
        "Stand up & stretch"@
    } else if i == 1 {
        "Break time — get up"@
    } else if i == 2 {
        "Move that body"@
    } else if i == 3 {
        "Unfreeze yourself"@
    } else if i == 4 {
        "Eyes and spine, please"@
    } else {
        "Up you get"@
    }
}

/// Body of stretch prompt `i`.
pub open spec fn stretch_body(i: int) -> Seq<char> {
    if i == 0 {
        "Roll your shoulders back, look at something far away, and take five slow breaths. Your spine will thank you."@
    } else if i == 1 {
        "Reach for the ceiling, then slowly touch your toes. Hold each for ten seconds."@
    } else if i == 2 {
        "Walk to another room and back. Refill your water while you're at it."@
    } else if i == 3 {
        "Neck rolls, wrist circles, and a big yawn. You've earned it after that focus block."@
    } else if i == 4 {
        "Look 20 feet away for 20 seconds, then stand tall and twist gently side to side."@
    } else {
        "Ten slow calf raises and a good back arch. Small moves, big difference."@
    }
}

/// Meeting notice `i`.
pub open spec fn meeting_text(i: int) -> Seq<char> {
    if i == 0 {
        "Straighten your back, plant both feet, and stretch your neck while you listen. No one will notice."@
    } else if i == 1 {
        "You're on a call — stand up quietly and roll your shoulders. Stretch beats stiffness."@
    } else if i == 2 {
        "Camera or not, rise up. Do some calf raises while they share their screen."@
    } else if i == 3 {
        "Stay in the meeting, but get on your feet and lengthen your spine for a moment."@
    } else {
        "Mic's hot, but your legs can still move. Stand and shift your weight side to side."@
    }
}

/// Calls `fastrand::usize(..n)` on the thread-local generator. Claimed: the
/// result lies in `0..n` (the call panics on an empty range, which `n > 0`
/// rules out). Which value comes back is chance and is not stated.
#[verifier::external_body]
fn random_below(n: usize) -> (r: usize)
    requires
        n > 0,
    ensures
        r < n,
{
    fastrand::usize(..n)
}

/// Stretch prompt `i`, as (title, body).
pub fn stretch_at(i: usize) -> (r: (&'static str, &'static str))
    requires
        i < STRETCH_COUNT,
    ensures
        r.0@ == stretch_title(i as int),
        r.1@ == stretch_body(i as int),
{
    match i {
        0 => ("Stand up & stretch", "Roll your shoulders back, look at something far away, and take five slow breaths. Your spine will thank you."),
        1 => ("Break time — get up", "Reach for the ceiling, then slowly touch your toes. Hold each for ten seconds."),
        2 => ("Move that body", "Walk to another room and back. Refill your water while you're at it."),
        3 => ("Unfreeze yourself", "Neck rolls, wrist circles, and a big yawn. You've earned it after that focus block."),
        4 => ("Eyes and spine, please", "Look 20 feet away for 20 seconds, then stand tall and twist gently side to side."),
        _ => ("Up you get", "Ten slow calf raises and a good back arch. Small moves, big difference."),
    }
}

/// Meeting notice `i`.
pub fn meeting_at(i: usize) -> (r: &'static str)
    requires
        i < MEETING_COUNT,
    ensures
        r@ == meeting_text(i as int),
{
    match i {
        0 => "Straighten your back, plant both feet, and stretch your neck while you listen. No one will notice.",
        1 => "You're on a call — stand up quietly and roll your shoulders. Stretch beats stiffness.",
        2 => "Camera or not, rise up. Do some calf raises while they share their screen.",
        3 => "Stay in the meeting, but get on your feet and lengthen your spine for a moment.",
        _ => "Mic's hot, but your legs can still move. Stand and shift your weight side to side.",
    }
}

/// A random stretch prompt from the bank, as (title, body).
pub fn random_stretch() -> (r: (&'static str, &'static str))
    ensures
        exists|i: int|
            0 <= i < STRETCH_COUNT && r.0@ == #[trigger] stretch_title(i) && r.1@ == stretch_body(i),
{
    let i = random_below(STRETCH_COUNT);
    stretch_at(i)
}

/// A random meeting notice from the bank.
pub fn random_meeting() -> (r: &'static str)
    ensures
        exists|i: int| 0 <= i < MEETING_COUNT && r@ == #[trigger] meeting_text(i),
{
    let i = random_below(MEETING_COUNT);
    meeting_at(i)
}

/// Every prompt of both banks has a non-empty text.
pub proof fn lemma_prompts_nonempty(i: int)
    ensures
        0 <= i < STRETCH_COUNT ==> stretch_title(i).len() > 0 && stretch_body(i).len() > 0,
        0 <= i < MEETING_COUNT ==> meeting_text(i).len() > 0,
{
    reveal_strlit("Stand up & stretch");
    reveal_strlit("Roll your shoulders back, look at something far away, and take five slow breaths. Your spine will thank you.");
    reveal_strlit("Break time — get up");
    reveal_strlit("Reach for the ceiling, then slowly touch your toes. Hold each for ten seconds.");
    reveal_strlit("Move that body");
    reveal_strlit("Walk to another room and back. Refill your water while you're at it.");
    reveal_strlit("Unfreeze yourself");
    reveal_strlit("Neck rolls, wrist circles, and a big yawn. You've earned it after that focus block.");
    reveal_strlit("Eyes and spine, please");
    reveal_strlit("Look 20 feet away for 20 seconds, then stand tall and twist gently side to side.");
    reveal_strlit("Up you get");
    reveal_strlit("Ten slow calf raises and a good back arch. Small moves, big difference.");
    reveal_strlit("Straighten your back, plant both feet, and stretch your neck while you listen. No one will notice.");
    reveal_strlit("You're on a call — stand up quietly and roll your shoulders. Stretch beats stiffness.");
    reveal_strlit("Camera or not, rise up. Do some calf raises while they share their screen.");
    reveal_strlit("Stay in the meeting, but get on your feet and lengthen your spine for a moment.");
    reveal_strlit("Mic's hot, but your legs can still move. Stand and shift your weight side to side.");
}

} // verus!
