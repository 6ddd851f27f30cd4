use frame_engine::app_config::{AppConfig, MonitorConfig, WindowConfig};

fn windowed(size: (u32, u32)) -> AppConfig {
    AppConfig { window_config: WindowConfig { size }, monitor_config: None }
}

fn fullscreen(window: (u32, u32), monitor: (u32, u32)) -> AppConfig {
    AppConfig {
        window_config: WindowConfig { size: window },
        monitor_config: Some(MonitorConfig { size: monitor }),
    }
}

fn same(first: &AppConfig, second: &AppConfig) -> bool {
    first.window_config.size == second.window_config.size
        && first.monitor_config.map(|m| m.size) == second.monitor_config.map(|m| m.size)
}

#[test]
fn stored_without_monitor() {
    let bytes = windowed((800, 600)).to_bytes();
    assert_eq!(bytes, vec![0x20, 0x03, 0, 0, 0x58, 0x02, 0, 0, 0]);
}

#[test]
fn stored_with_monitor() {
    let bytes = fullscreen((1, 2), (0x01020304, u32::MAX)).to_bytes();
    assert_eq!(
        bytes,
        vec![1, 0, 0, 0, 2, 0, 0, 0, 1, 4, 3, 2, 1, 0xff, 0xff, 0xff, 0xff]
    );
}

#[test]
fn read_back_as_stored() {
    for config in [
        windowed((800, 600)),
        windowed((0, 0)),
        windowed((u32::MAX, 1)),
        fullscreen((1280, 720), (1920, 1080)),
        fullscreen((0, u32::MAX), (u32::MAX, 0)),
    ] {
        let read = AppConfig::from_bytes(&config.to_bytes()).unwrap();
        assert!(same(&read, &config));
    }
}

#[test]
fn read_from_bytes() {
    let read = AppConfig::from_bytes(&[0x20, 0x03, 0, 0, 0x58, 0x02, 0, 0, 0]).unwrap();
    assert_eq!(read.window_config.size, (800, 600));
    assert!(read.monitor_config.is_none());
    let read = AppConfig::from_bytes(&[1, 0, 0, 0, 2, 0, 0, 0, 1, 3, 0, 0, 0, 4, 0, 0, 0]).unwrap();
    assert_eq!(read.window_config.size, (1, 2));
    assert_eq!(read.monitor_config.unwrap().size, (3, 4));
}

#[test]
fn other_bytes_are_refused() {
    assert!(AppConfig::from_bytes(&[]).is_none());
    assert!(AppConfig::from_bytes(&[0; 8]).is_none());
    assert!(AppConfig::from_bytes(&[0; 10]).is_none());
    assert!(AppConfig::from_bytes(&[0; 17]).is_none());
    assert!(AppConfig::from_bytes(&[1; 9]).is_none());
    assert!(AppConfig::from_bytes(&[2, 0, 0, 0, 2, 0, 0, 0, 2]).is_none());
    assert!(AppConfig::from_bytes(&[1; 16]).is_none());
    assert!(AppConfig::from_bytes(&[1; 18]).is_none());
    let mut flagged = vec![0u8; 17];
    flagged[8] = 2;
    assert!(AppConfig::from_bytes(&flagged).is_none());
}

#[test]
fn resized_notes_window_and_monitor() {
    let resized = fullscreen((1, 2), (3, 4)).resized((5, 6));
    assert_eq!(resized.window_config.size, (5, 6));
    assert_eq!(resized.monitor_config.unwrap().size, (5, 6));
    let resized = windowed((1, 2)).resized((7, 8));
    assert_eq!(resized.window_config.size, (7, 8));
    assert!(resized.monitor_config.is_none());
}
