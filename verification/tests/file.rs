use drumbox64::file::{LoadError, FILE_SIZE, V1_SIZE};
use drumbox64::types::{Kit, Pattern, Velocity, NUM_TRACKS};

#[test]
fn round_trip() {
    let mut p = Pattern::default();
    p.name = "Test".to_string();
    p.kit = Kit::Tr808;
    p.tempo = 130;
    p.swing = 42;
    p.steps[0][0] = Velocity::Loud;
    p.steps[1][4] = Velocity::Medium;
    p.steps[6][15] = Velocity::Soft;
    p.track_volume[0] = 110;
    p.track_volume[3] = 64;
    p.track_pan[1] = -32;
    p.track_pan[6] = 60;

    let bytes = p.to_bytes();
    assert_eq!(bytes.len(), FILE_SIZE);

    let loaded = Pattern::from_bytes(&bytes).unwrap();
    assert_eq!(loaded.name, "Test");
    assert_eq!(loaded.kit, Kit::Tr808);
    assert_eq!(loaded.tempo, 130);
    assert_eq!(loaded.swing, 42);
    assert_eq!(loaded.steps[0][0], Velocity::Loud);
    assert_eq!(loaded.steps[1][4], Velocity::Medium);
    assert_eq!(loaded.steps[6][15], Velocity::Soft);
    assert_eq!(loaded.track_volume[0], 110);
    assert_eq!(loaded.track_volume[3], 64);
    assert_eq!(loaded.track_pan[1], -32);
    assert_eq!(loaded.track_pan[6], 60);
}

#[test]
fn loads_v1_file_with_defaults() {
    // Hand-craft a 135-byte v1 file (no vol/pan trailer).
    let mut buf = vec![0u8; V1_SIZE];
    buf[0..4].copy_from_slice(b"DB64");
    buf[4] = Kit::Sid as u8;
    buf[5] = 100;
    buf[6] = 25;
    buf[7..23].fill(b' ');
    buf[7..11].copy_from_slice(b"Old ");
    buf[23] = Velocity::Loud as u8; // track 0 step 0

    let loaded = Pattern::from_bytes(&buf).unwrap();
    assert_eq!(loaded.tempo, 100);
    assert_eq!(loaded.swing, 25);
    assert_eq!(loaded.steps[0][0], Velocity::Loud);
    // Defaults applied
    assert_eq!(loaded.track_volume, [100; NUM_TRACKS]);
    assert_eq!(loaded.track_pan, [0; NUM_TRACKS]);
    assert_eq!(loaded.name, "Old");
    assert_eq!(loaded.kit, Kit::Sid);
}

#[test]
fn saved_layout() {
    let mut p = Pattern::default();
    p.tempo = 300;
    p.swing = 150;
    p.track_volume[2] = 200;
    p.track_pan[0] = -1;
    p.steps[1][2] = Velocity::Medium;
    let b = p.to_bytes();
    assert_eq!(&b[0..4], b"DB64");
    assert_eq!(b[4], 0);
    assert_eq!(b[5], 255);
    assert_eq!(b[6], 99);
    assert_eq!(&b[7..23], b"New Pattern     ");
    assert_eq!(b[23 + 16 + 2], 2);
    assert_eq!(b[135 + 2], 127);
    assert_eq!(b[142], 0xFF);
}

#[test]
fn settings_are_held_on_load() {
    let mut p = Pattern::default();
    p.tempo = 20;
    p.track_volume[5] = 250;
    let loaded = Pattern::from_bytes(&p.to_bytes()).unwrap();
    assert_eq!(loaded.tempo, 40);
    assert_eq!(loaded.track_volume[5], 127);
}

#[test]
fn long_names_are_cut_and_unicode_names_survive() {
    let mut p = Pattern::default();
    p.name = "A very long pattern name".to_string();
    assert_eq!(Pattern::from_bytes(&p.to_bytes()).unwrap().name, "A very long patt");
    p.name = "Größe".to_string();
    assert_eq!(Pattern::from_bytes(&p.to_bytes()).unwrap().name, "Größe");
    p.name = "trailing  ".to_string();
    assert_eq!(Pattern::from_bytes(&p.to_bytes()).unwrap().name, "trailing");
}

#[test]
fn load_errors() {
    assert_eq!(Pattern::from_bytes(&[0u8; 10]).unwrap_err(), LoadError::TooShort);
    let mut buf = vec![0u8; FILE_SIZE];
    buf[0..4].copy_from_slice(b"DB65");
    assert_eq!(Pattern::from_bytes(&buf).unwrap_err(), LoadError::NotDb64);
    assert_eq!(LoadError::TooShort.message(), "file too short");
    assert_eq!(LoadError::NotDb64.message(), "not a DB64 file");
}

#[test]
fn invalid_name_bytes_are_replaced() {
    let mut b = Pattern::default().to_bytes();
    b[7] = 0xFF;
    let loaded = Pattern::from_bytes(&b).unwrap();
    assert!(loaded.name.starts_with('\u{FFFD}'));
}

#[test]
fn truncated_v2_file_loads_as_v1() {
    let mut p = Pattern::default();
    p.name = "Cut".to_string();
    p.steps[4][9] = Velocity::Soft;
    p.track_volume[4] = 33;
    p.track_pan[4] = 12;
    let bytes = p.to_bytes();
    let full = Pattern::from_bytes(&bytes).unwrap();
    let v1 = Pattern::from_bytes(&bytes[..V1_SIZE]).unwrap();
    assert_eq!(v1.name, full.name);
    assert_eq!(v1.steps, full.steps);
    assert_eq!(full.track_volume[4], 33);
    assert_eq!(full.track_pan[4], 12);
    assert_eq!(v1.track_volume, [100; NUM_TRACKS]);
    assert_eq!(v1.track_pan, [0; NUM_TRACKS]);
}
