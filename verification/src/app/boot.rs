//! The boot sequence: four progress screens, with the font loaded after
//! the first and the monitors started after the second.

use vstd::prelude::*;

verus! {

/// Work that follows a boot screen.
#[derive(Debug, Clone, Copy, PartialEq, Eq)]
pub enum BootWork {
    Nothing,
    LoadFont,
    InitMonitor,
}

/// One boot screen: the progress and label shown, how long to wait for a
/// signal afterwards, and the work that follows.
pub struct BootFrame {
    pub progress: u8,
    pub label: String,
    pub wait_ms: i32,
    pub after: BootWork,
}

/// How long a screen at `progress` stays: the final screen stays
/// `done_ms`, the others `boot_ms`.
pub open spec fn frame_wait(progress: u8, boot_ms: i32, done_ms: i32) -> i32 {
    if progress == 100 {
        done_ms
    } else {
        boot_ms
    }
}

/// A boot screen by its parts.
pub open spec fn frame_parts(f: BootFrame) -> (u8, Seq<char>, i32, BootWork) {
    (f.progress, f.label@, f.wait_ms, f.after)
}

/// Title of the boot screens.
pub fn boot_title() -> (r: String)
    ensures
        r@ == "Booting..."@,
{
    String::from_str("Booting...")
}

fn frame(progress: u8, label: &str, boot_ms: i32, done_ms: i32, after: BootWork) -> (r: BootFrame)
    ensures
        frame_parts(r) == (progress, label@, frame_wait(progress, boot_ms, done_ms), after),
{
    let wait_ms = if progress == 100 {
        done_ms
    } else {
        boot_ms
    };
    BootFrame { progress, label: String::from_str(label), wait_ms, after }
}

/// The boot screens in order: "Init OLED" at 20 % (then the font is
/// loaded), "Load font" at 50 % (then the monitors start), "Init monitor"
/// at 80 % and "Ready" at 100 %.
pub fn boot_frames(boot_ms: i32, done_ms: i32) -> (r: Vec<BootFrame>)
    ensures
        r@.len() == 4,
        frame_parts(r@[0]) == (20u8, "Init OLED"@, boot_ms, BootWork::LoadFont),
        frame_parts(r@[1]) == (50u8, "Load font"@, boot_ms, BootWork::InitMonitor),
        frame_parts(r@[2]) == (80u8, "Init monitor"@, boot_ms, BootWork::Nothing),
        frame_parts(r@[3]) == (100u8, "Ready"@, done_ms, BootWork::Nothing),
{
    let mut v: Vec<BootFrame> = Vec::new();
    v.push(frame(20, "Init OLED", boot_ms, done_ms, BootWork::LoadFont));
    v.push(frame(50, "Load font", boot_ms, done_ms, BootWork::InitMonitor));
    v.push(frame(80, "Init monitor", boot_ms, done_ms, BootWork::Nothing));
    v.push(frame(100, "Ready", boot_ms, done_ms, BootWork::Nothing));
    v
}

} // verus!
