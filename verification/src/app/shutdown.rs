//! The shutdown sequence: two progress screens when leaving the main loop,
//! none when boot was interrupted; a signal during a screen skips the rest.

use vstd::prelude::*;

verus! {

/// One shutdown screen: progress, label and how long to wait for a signal.
pub struct ShutdownFrame {
    pub progress: u8,
    pub label: String,
    pub wait_ms: i32,
}

/// A shutdown screen by its parts.
pub open spec fn shutdown_parts(f: ShutdownFrame) -> (u8, Seq<char>, i32) {
    (f.progress, f.label@, f.wait_ms)
}

/// Title of the shutdown screens.
pub fn shutdown_title() -> (r: String)
    ensures
        r@ == "Shutting down..."@,
{
    String::from_str("Shutting down...")
}

/// The shutdown screens: with the animation, "Saving" at 50 % for
/// `frame_ms` then "Goodbye" at 100 % for `done_ms` (both taken as 32-bit
/// milliseconds); without it, none.
pub fn shutdown_frames(show_animation: bool, frame_ms: u64, done_ms: u64) -> (r: Vec<ShutdownFrame>)
    ensures
        !show_animation ==> r@.len() == 0,
        show_animation ==> r@.len() == 2 && shutdown_parts(r@[0]) == (50u8, "Saving"@, frame_ms as i32)
            && shutdown_parts(r@[1]) == (100u8, "Goodbye"@, done_ms as i32),
{
    let mut v: Vec<ShutdownFrame> = Vec::new();
    if show_animation {
        v.push(ShutdownFrame { progress: 50, label: String::from_str("Saving"), wait_ms: frame_ms as i32 });
        v.push(ShutdownFrame { progress: 100, label: String::from_str("Goodbye"), wait_ms: done_ms as i32 });
    }
    v
}

} // verus!
