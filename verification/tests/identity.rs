use housemanfs::identity::{FileId, FileKey, VolumeId};

#[test]
fn identity_is_keyed_on_id_not_path() {
    let volume = VolumeId::from_bytes([1; 16]);
    let file = FileId::from_bytes([2; 16]);
    let key = FileKey::new(volume, file);

    // A move changes the name and the parent, neither of which is part of identity.
    assert_eq!(key, FileKey::new(volume, file));
    assert_ne!(key.file, FileId::from_bytes([3; 16]));
}

#[test]
fn same_file_id_on_different_volumes_is_a_different_key() {
    let file = FileId::from_bytes([7; 16]);
    let a = FileKey::new(VolumeId::from_bytes([1; 16]), file);
    let b = FileKey::new(VolumeId::from_bytes([2; 16]), file);

    assert_ne!(a, b);
}

#[test]
fn bytes_round_trip() {
    let mut raw = [0u8; 16];
    for (i, b) in raw.iter_mut().enumerate() {
        *b = i as u8 * 17;
    }
    assert_eq!(VolumeId::from_bytes(raw).as_bytes(), &raw);
    assert_eq!(FileId::from_bytes(raw).as_bytes(), &raw);
}

#[test]
fn hex_rendering_is_two_lower_case_digits_per_byte() {
    let mut raw = [0u8; 16];
    raw[0] = 0xab;
    raw[1] = 0x01;
    raw[15] = 0xf0;
    assert_eq!(
        VolumeId::from_bytes(raw).to_hex(),
        "ab0100000000000000000000000000f0"
    );
    assert_eq!(FileId::from_bytes([0xff; 16]).to_hex(), "ff".repeat(16));
}
