use recordkeeper::save::LOC_GOLD;
use recordkeeper::save::SAVE_DATA_SIZE;
use recordkeeper::item::ItemSlot;
use recordkeeper::item::ItemType;
use recordkeeper::PlayTime;
use recordkeeper::Pos;
use recordkeeper::SaveData;
use recordkeeper::SaveError;
use recordkeeper::SaveFlag;
use recordkeeper::SaveTimestamp;

fn base_buffer() -> Vec<u8> {
    let mut b = vec![0u8; SAVE_DATA_SIZE];
    write_magic_and_version(&mut b);
    b
}

fn write_magic_and_version(b: &mut [u8]) {
    // 0xb368fa6a, little endian
    b[0] = 0x6a;
    b[1] = 0xfa;
    b[2] = 0x68;
    b[3] = 0xb3;
    b[4] = 10;
}

#[test]
fn decode_of_valid_buffer_succeeds() {
    let b = base_buffer();
    let s = SaveData::from_bytes(&b).unwrap();
    assert_eq!(0, s.gold);
    assert_eq!(0, s.play_time.to_seconds());
    assert_eq!(0, s.party_characters.len());
    assert!(!s.is_dlc4());
}

#[test]
fn wrong_magic_is_unrecognized_regardless_of_the_rest() {
    let mut b = base_buffer();
    b[0] = 0x6b;
    assert_eq!(Err(SaveError::UnrecognizedFormat), SaveData::from_bytes(&b).map(|_| ()));

    let mut junk = vec![0xa5u8; SAVE_DATA_SIZE];
    junk[4] = 10;
    assert_eq!(Err(SaveError::UnrecognizedFormat), SaveData::from_bytes(&junk).map(|_| ()));

    // even a short buffer with four magic bytes present but wrong
    let short = vec![1u8, 2, 3, 4];
    assert_eq!(Err(SaveError::UnrecognizedFormat), SaveData::from_bytes(&short).map(|_| ()));
}

#[test]
fn wrong_version_is_unsupported_and_carries_the_byte() {
    let mut b = base_buffer();
    b[4] = 9;
    assert_eq!(Err(SaveError::UnsupportedVersion(9)), SaveData::from_bytes(&b).map(|_| ()));
    b[4] = 0xfe;
    assert_eq!(Err(SaveError::UnsupportedVersion(0xfe)), SaveData::from_bytes(&b).map(|_| ()));
}

#[test]
fn short_buffers_are_reported() {
    assert_eq!(Err(SaveError::TooShort), SaveData::from_bytes(&[]).map(|_| ()));
    assert_eq!(Err(SaveError::TooShort), SaveData::from_bytes(&[0x6a, 0xfa, 0x68]).map(|_| ()));
    // correct magic, buffer ends before the version byte
    assert_eq!(
        Err(SaveError::TooShort),
        SaveData::from_bytes(&[0x6a, 0xfa, 0x68, 0xb3]).map(|_| ())
    );
    // correct magic and version, buffer ends before the modeled regions
    let mut b = vec![0u8; 64];
    write_magic_and_version(&mut b);
    assert_eq!(Err(SaveError::TooShort), SaveData::from_bytes(&b).map(|_| ()));
}

#[test]
fn encode_into_short_buffer_is_out_of_bounds_and_leaves_it_alone() {
    let b = base_buffer();
    let s = SaveData::from_bytes(&b).unwrap();
    let mut dest = vec![7u8; 16];
    assert_eq!(Err(SaveError::OutOfBounds), s.write_to(&mut dest));
    assert_eq!(vec![7u8; 16], dest);
}

#[test]
fn round_trip_preserves_every_modeled_field() {
    let b = base_buffer();
    let mut s = SaveData::from_bytes(&b).unwrap();

    s.gold = 123456;
    s.seen_colonies = 17;
    s.play_time = PlayTime::from_seconds(3725);
    s.timestamp = SaveTimestamp::from_date_time(2023, 12, 28, 6, 40);
    s.map_id = 0x1234;
    s.map_time.hour = 21;
    s.map_time.minute = 59;
    s.weather = 3;
    s.controlled_character_idx = 2;
    s.player_pos = Pos {
        x_bits: 1.5f32.to_bits(),
        y_bits: (-20.25f32).to_bits(),
        z_bits: 0.0f32.to_bits(),
        rotation_bits: 90.0f32.to_bits(),
    };
    s.ship_pos = Pos {
        x_bits: 300.0f32.to_bits(),
        y_bits: 0.0f32.to_bits(),
        z_bits: 7.75f32.to_bits(),
        rotation_bits: 0.0f32.to_bits(),
    };
    s.saved_event_flow = 0xdeadbeef;
    s.set_flag(SaveFlag::Dlc4, true);
    s.set_flag(SaveFlag::WeatherLocked, true);
    s.party_characters.try_push(4).unwrap();
    s.party_characters.try_push(9).unwrap();
    s.party_guests.try_push(1000).unwrap();
    s.inventory.chronological_id_max = 55;
    s.inventory.gems[3] = ItemSlot {
        item_id: 0x1005,
        slot_index: 3,
        item_type: 2,
        chronological_id: 12,
        amount: 7,
        flags: 1,
    };

    let mut out = vec![0u8; SAVE_DATA_SIZE];
    s.write_to(&mut out).unwrap();
    let d = SaveData::from_bytes(&out).unwrap();

    assert_eq!(123456, d.gold);
    assert_eq!(17, d.seen_colonies);
    assert_eq!(3725, d.play_time.to_seconds());
    assert_eq!((1, 2, 5), d.play_time.to_hours_mins_secs());
    assert_eq!(2023, d.timestamp.year());
    assert_eq!(12, d.timestamp.month());
    assert_eq!(28, d.timestamp.day());
    assert_eq!(6, d.timestamp.hour());
    assert_eq!(40, d.timestamp.minute());
    assert_eq!(0x1234, d.map_id);
    assert_eq!(21, d.map_time.hour);
    assert_eq!(59, d.map_time.minute);
    assert_eq!(3, d.weather);
    assert_eq!(2, d.controlled_character_idx);
    assert_eq!(1.5f32, f32::from_bits(d.player_pos.x_bits));
    assert_eq!(-20.25f32, f32::from_bits(d.player_pos.y_bits));
    assert_eq!(90.0f32, f32::from_bits(d.player_pos.rotation_bits));
    assert_eq!(300.0f32, f32::from_bits(d.ship_pos.x_bits));
    assert_eq!(7.75f32, f32::from_bits(d.ship_pos.z_bits));
    assert_eq!(0xdeadbeef, d.saved_event_flow);
    assert!(d.is_flag_set(SaveFlag::Dlc4));
    assert!(d.is_dlc4());
    assert!(d.is_flag_set(SaveFlag::WeatherLocked));
    assert!(!d.is_flag_set(SaveFlag::TimeLocked));
    assert_eq!(2, d.party_characters.len());
    assert_eq!(Some(&4), d.party_characters.get(0));
    assert_eq!(Some(&9), d.party_characters.get(1));
    assert_eq!(Some(&1000), d.party_guests.get(0));
    assert_eq!(55, d.inventory.chronological_id_max);
    assert_eq!(s.inventory.gems[3], d.inventory.gems[3]);
    assert_eq!(s.inventory.slots(ItemType::Gem)[3], d.inventory.slots(ItemType::Gem)[3]);
}

#[test]
fn encode_leaves_unmodeled_bytes_untouched() {
    let b = base_buffer();
    let s = SaveData::from_bytes(&b).unwrap();
    let mut out = vec![0x5au8; SAVE_DATA_SIZE + 100];
    s.write_to(&mut out).unwrap();
    // a byte between modeled regions, and one past the modeled regions
    assert_eq!(0x5a, out[LOC_GOLD + 4]);
    assert_eq!(0x5a, out[SAVE_DATA_SIZE + 50]);
    // re-decode still succeeds on the larger buffer
    assert!(SaveData::from_bytes(&out).is_ok());
}

#[test]
fn set_flag_toggles_only_the_named_flag() {
    let b = base_buffer();
    let mut s = SaveData::from_bytes(&b).unwrap();
    s.set_flag(SaveFlag::Gauntlet, true);
    assert!(s.is_flag_set(SaveFlag::Gauntlet));
    assert!(!s.is_flag_set(SaveFlag::TimeLocked));
    assert!(!s.is_flag_set(SaveFlag::Intermission));
    s.set_flag(SaveFlag::Gauntlet, false);
    assert!(!s.is_flag_set(SaveFlag::Gauntlet));
}
