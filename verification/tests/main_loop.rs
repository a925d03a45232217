use oled_desktop_pet::app::boot::{boot_frames, boot_title, BootWork};
use oled_desktop_pet::app::main_loop::{MainLoop, DAY_CONTRAST};
use oled_desktop_pet::app::shutdown::{shutdown_frames, shutdown_title};

#[test]
fn monitor_every_fourth_frame_and_night_every_sixty() {
    let mut l = MainLoop::new();
    let mut monitors = 0;
    let mut checks = 0;
    for _ in 0..(4 * 60 * 2) {
        let plan = l.begin_frame();
        if plan.monitor {
            monitors += 1;
        }
        if plan.check_night {
            checks += 1;
            assert_eq!(l.cycle % 240, 0);
        }
        l.end_frame(5);
    }
    assert_eq!(monitors, 120);
    assert_eq!(checks, 2);
}

#[test]
fn contrast_follows_the_night() {
    let mut l = MainLoop::new();
    assert_eq!(l.night_update(false, 40), None);
    assert_eq!(l.night_update(true, 40), Some(40));
    assert_eq!(l.night_update(true, 40), None);
    assert_eq!(l.night_update(false, 40), Some(DAY_CONTRAST));
}

#[test]
fn memory_trim_period() {
    let mut l = MainLoop::new();
    let mut trims = Vec::new();
    for _ in 0..45 {
        if l.end_frame(5) {
            trims.push(l.cycle);
        }
    }
    assert_eq!(trims, vec![20, 40]);
    let mut never = MainLoop::new();
    assert!(!never.end_frame(0));
}

#[test]
fn boot_and_shutdown_screens() {
    assert_eq!(boot_title(), "Booting...");
    let f = boot_frames(250, 400);
    let parts: Vec<(u8, &str, i32, BootWork)> = f.iter().map(|s| (s.progress, s.label.as_str(), s.wait_ms, s.after)).collect();
    assert_eq!(
        parts,
        vec![
            (20, "Init OLED", 250, BootWork::LoadFont),
            (50, "Load font", 250, BootWork::InitMonitor),
            (80, "Init monitor", 250, BootWork::Nothing),
            (100, "Ready", 400, BootWork::Nothing),
        ]
    );
    assert_eq!(shutdown_title(), "Shutting down...");
    let s = shutdown_frames(true, 200, 400);
    assert_eq!(s.len(), 2);
    assert_eq!((s[0].progress, s[0].label.as_str(), s[0].wait_ms), (50, "Saving", 200));
    assert_eq!((s[1].progress, s[1].label.as_str(), s[1].wait_ms), (100, "Goodbye", 400));
    assert!(shutdown_frames(false, 200, 400).is_empty());
}
