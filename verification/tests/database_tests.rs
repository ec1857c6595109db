use rust_shooter::database::{
    get_record, get_u8x4_data, i32_from_le_bytes, i32_to_le_bytes, save_record, save_u8x4_data,
    DEFAULT_RECORD, MUSIC_VOLUME_OFFSET, RECORD_OFFSET, SOUND_VOLUME_OFFSET,
};

#[test]
fn missing_store_reads_default_record() {
    assert_eq!(get_record(&None), DEFAULT_RECORD);
}

#[test]
fn record_round_trips_through_the_store() {
    for value in [0, 1, -1, 42, -12345, i32::MAX, i32::MIN] {
        let mut store: Vec<u8> = Vec::new();
        save_record(&mut store, value);
        assert_eq!(get_record(&Some(store)), value);
    }
}

#[test]
fn short_store_reads_as_zero_filled() {
    // A store holding only two bytes: the missing tail reads as zeros.
    let store = vec![7u8, 1u8];
    let bytes = get_u8x4_data(&store, 0);
    assert_eq!(bytes, [7, 1, 0, 0]);
    assert_eq!(get_record(&Some(store)), 263);
}

#[test]
fn reading_past_the_end_gives_zeros() {
    let store = vec![1u8, 2, 3, 4];
    assert_eq!(get_u8x4_data(&store, 100), [0, 0, 0, 0]);
}

#[test]
fn writing_past_the_end_grows_a_zero_gap() {
    let mut store = vec![9u8];
    save_u8x4_data(&mut store, 4, [1, 2, 3, 4]);
    assert_eq!(store, vec![9, 0, 0, 0, 1, 2, 3, 4]);
}

#[test]
fn writing_overwrites_only_its_slot() {
    let mut store = vec![1u8, 1, 1, 1, 2, 2, 2, 2, 3, 3, 3, 3];
    save_u8x4_data(&mut store, SOUND_VOLUME_OFFSET, [7, 8, 9, 10]);
    assert_eq!(store, vec![1, 1, 1, 1, 7, 8, 9, 10, 3, 3, 3, 3]);
}

#[test]
fn volume_slots_do_not_clobber_the_record() {
    let mut store: Vec<u8> = Vec::new();
    save_record(&mut store, 777);
    save_u8x4_data(&mut store, SOUND_VOLUME_OFFSET, [1, 2, 3, 4]);
    save_u8x4_data(&mut store, MUSIC_VOLUME_OFFSET, [5, 6, 7, 8]);
    assert_eq!(get_record(&Some(store.clone())), 777);
    assert_eq!(get_u8x4_data(&store, SOUND_VOLUME_OFFSET), [1, 2, 3, 4]);
    assert_eq!(get_u8x4_data(&store, MUSIC_VOLUME_OFFSET), [5, 6, 7, 8]);
    assert_eq!(RECORD_OFFSET, 0);
}

#[test]
fn little_endian_coding_is_exact() {
    assert_eq!(i32_to_le_bytes(1), [1, 0, 0, 0]);
    assert_eq!(i32_to_le_bytes(258), [2, 1, 0, 0]);
    assert_eq!(i32_to_le_bytes(-1), [0xFF, 0xFF, 0xFF, 0xFF]);
    assert_eq!(i32_to_le_bytes(i32::MIN), [0, 0, 0, 0x80]);
    assert_eq!(i32_from_le_bytes([1, 0, 0, 0]), 1);
    assert_eq!(i32_from_le_bytes([0xFF, 0xFF, 0xFF, 0xFF]), -1);
    assert_eq!(i32_from_le_bytes([0, 0, 0, 0x80]), i32::MIN);
    assert_eq!(i32_from_le_bytes([0xFF, 0xFF, 0xFF, 0x7F]), i32::MAX);
}
