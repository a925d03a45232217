use oled_desktop_pet::display::i2c_bus::{command_frame, data_frame};
use oled_desktop_pet::display::ssd1309::{BusStep, Ssd1309};
use oled_desktop_pet::display::Framebuffer;

fn commands(steps: &[BusStep]) -> Vec<Vec<u8>> {
    steps
        .iter()
        .filter_map(|s| match s {
            BusStep::Command(b) => Some(b.clone()),
            _ => None,
        })
        .collect()
}

#[test]
fn init_sequence() {
    let steps = Ssd1309::init();
    assert_eq!(steps.len(), 18);
    assert!(matches!(&steps[0], BusStep::Command(b) if b == &vec![0xAE]));
    assert!(matches!(&steps[7], BusStep::PauseMs(100)));
    assert!(matches!(&steps[8], BusStep::Command(b) if b == &vec![0x20, 0x02]));
    assert!(matches!(&steps[17], BusStep::Command(b) if b == &vec![0xAF]));
    assert_eq!(commands(&steps)[11], vec![0x81, 0xCF]);
}

#[test]
fn push_frame_pages_carry_the_buffer() {
    let mut fb = Framebuffer::new();
    for (i, b) in fb.buffer.iter_mut().enumerate() {
        *b = (i * 7 % 256) as u8;
    }
    let steps = Ssd1309::push_frame(&fb);
    assert_eq!(steps.len(), 24);
    let mut data: Vec<u8> = Vec::new();
    for (k, s) in steps.iter().enumerate() {
        let page = (k / 3) as u8;
        match (k % 3, s) {
            (0, BusStep::Command(b)) => assert_eq!(b, &vec![0xB0 | page]),
            (1, BusStep::Command(b)) => assert_eq!(b, &vec![0x00, 0x10]),
            (2, BusStep::Data(b)) => {
                assert_eq!(b.len(), 128);
                data.extend_from_slice(b);
            }
            _ => panic!("unexpected step {k}"),
        }
    }
    assert_eq!(data, fb.buffer.to_vec());
}

#[test]
fn contrast_and_sleep() {
    assert!(matches!(&Ssd1309::set_contrast(40)[0], BusStep::Command(b) if b == &vec![0x81, 40]));
    assert!(matches!(&Ssd1309::sleep()[0], BusStep::Command(b) if b == &vec![0xAE]));
    assert_eq!(Ssd1309::sleep().len(), 1);
}

#[test]
fn bus_frames() {
    assert_eq!(command_frame(&[0x81, 0xCF]), Some(vec![0x00, 0x81, 0xCF]));
    assert_eq!(data_frame(&[1, 2, 3]), Some(vec![0x40, 1, 2, 3]));
    assert_eq!(data_frame(&[0u8; 255]).map(|v| v.len()), Some(256));
    assert_eq!(data_frame(&[0u8; 256]), None);
    assert_eq!(command_frame(&[0u8; 300]), None);
}
