use graphplay::runner::{dummy_block_count, select_device, DeviceNotFoundError};
use graphplay::{BLOCK_SIZE, DEFAULT_SAMPLE_RATE};

fn names(list: &[&str]) -> Vec<String> {
    list.iter().map(|s| s.to_string()).collect()
}

#[test]
fn select_device_finds_exact_match() {
    let devices = names(&["default", "hdmi:0", "usb-dac"]);
    assert_eq!(select_device(&devices, &"usb-dac".to_string()), Ok(2));
}

#[test]
fn select_device_returns_first_match() {
    let devices = names(&["dac", "dac"]);
    assert_eq!(select_device(&devices, &"dac".to_string()), Ok(0));
}

#[test]
fn select_device_fails_without_match() {
    let devices = names(&["default", "hdmi:0"]);
    assert_eq!(
        select_device(&devices, &"usb-dac".to_string()),
        Err(DeviceNotFoundError)
    );
}

#[test]
fn select_device_fails_on_empty_enumeration() {
    let devices: Vec<String> = Vec::new();
    assert!(select_device(&devices, &"anything".to_string()).is_err());
}

#[test]
fn dummy_block_count_matches_the_formula() {
    // 48000 / 64 * 2 * 10 == 15000 blocks for ten stereo seconds.
    assert_eq!(dummy_block_count(DEFAULT_SAMPLE_RATE, 2, 10), 15000);
    assert_eq!(dummy_block_count(DEFAULT_SAMPLE_RATE, 2, 0), 0);
    assert_eq!(dummy_block_count(BLOCK_SIZE as u32, 1, 1), 1);
}
