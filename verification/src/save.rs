//! The save-data aggregate: the full typed decomposition of the buffer,
//! gated by a magic number and a version byte.
//!
//! Every modeled region sits at a fixed absolute offset. Decoding validates
//! the magic number and version first and reads nothing else when either
//! fails; encoding writes only the modeled regions, so unmodeled bytes pass
//! through untouched.

use crate::codec::le16;
use crate::codec::le32;
use crate::codec::read_u16;
use crate::codec::read_u32;
use crate::codec::read_u8;
use crate::codec::unchanged_outside;
use crate::codec::write_u16;
use crate::codec::write_u32;
use crate::codec::write_u8;
use crate::flags::BitFlags;
use crate::item::Inventory;
use crate::item::INVENTORY_SIZE;
use crate::util::FixVec;
use vstd::prelude::*;
use vstd::string::StringExecFns;

verus! {

/// The magic constant at offset 0 of every recognized save buffer.
pub const SAVE_MAGIC: u32 = 0xb368fa6a;

/// The only supported save format version.
pub const SAVE_VERSION: u8 = 10;

/// Capacity of the party member list.
pub const PARTY_MAX: usize = 16;

/// Capacity of the party guest list.
pub const PARTY_GUEST_MAX: usize = 32;

/// Absolute offset of the play time field.
pub const LOC_PLAY_TIME: usize = 0x10;

/// Absolute offset of the timestamp field.
pub const LOC_TIMESTAMP: usize = 0x18;

/// Absolute offset of the gold field.
pub const LOC_GOLD: usize = 0x20;

/// Absolute offset of the seen-colonies field.
pub const LOC_SEEN_COLONIES: usize = 0x4c;

/// Absolute offset of the save flag byte.
pub const LOC_SAVE_FLAGS: usize = 0x664;

/// Absolute offset of the saved event flow ID.
pub const LOC_SAVED_EVENT_FLOW: usize = 0x684;

/// Absolute offset of the map ID.
pub const LOC_MAP_ID: usize = 0x68c;

/// Absolute offset of the map time.
pub const LOC_MAP_TIME: usize = 0x68e;

/// Absolute offset of the weather ID.
pub const LOC_WEATHER: usize = 0x692;

/// Absolute offset of the player position.
pub const LOC_PLAYER_POS: usize = 0x6a0;

/// Absolute offset of the ship position.
pub const LOC_SHIP_POS: usize = 0x6c0;

/// Absolute offset of the controlled character index.
pub const LOC_CONTROLLED_CHARACTER: usize = 0x6d0;

/// Absolute offset of the party member list.
pub const LOC_PARTY_CHARACTERS: usize = 0xe330;

/// Absolute offset of the party guest list.
pub const LOC_PARTY_GUESTS: usize = 0xe358;

/// Absolute offset of the inventory region.
pub const LOC_INVENTORY: usize = 0x53c78;

/// The least buffer length that holds every modeled region.
pub const SAVE_DATA_SIZE: usize = LOC_INVENTORY + INVENTORY_SIZE;

/// Why a decode or encode operation failed.
#[derive(Debug, Clone, Copy, PartialEq, Eq, Structural)]
pub enum SaveError {
    /// The buffer ends before a declared field.
    TooShort,
    /// The magic number does not match: not a recognized save file.
    UnrecognizedFormat,
    /// The version byte is not the supported version; carries the actual
    /// version byte for diagnostics.
    UnsupportedVersion(u8),
    /// An encode destination range lies out of bounds.
    OutOfBounds,
}

/// In-game play time, stored as whole seconds.
#[derive(Debug, Clone, Copy, PartialEq, Eq, Structural)]
pub struct PlayTime {
    pub raw: u32,
}

/// The wall-clock moment a save was written, packed into two words.
#[derive(Debug, Clone, Copy, PartialEq, Eq, Structural)]
pub struct SaveTimestamp {
    pub time: u32,
    pub date: u32,
}

/// In-game time of day on the current map.
#[derive(Debug, Clone, Copy, PartialEq, Eq, Structural)]
pub struct MapTime {
    pub hour: u16,
    pub minute: u16,
}

/// The named boolean flags of the top-level save flag byte.
#[derive(Debug, Clone, Copy, PartialEq, Eq, Structural)]
pub enum SaveFlag {
    TimeLocked,
    WeatherLocked,
    AboardShip,
    /// Saved when prompted to by the game, for example on chapter end or
    /// before the final fight.
    Intermission,
    Dlc4,
    /// Mid-run data from the gauntlet exists.
    Gauntlet,
}

/// The bit index a named save flag maps to.
pub open spec fn save_flag_index(f: SaveFlag) -> int {
    match f {
        SaveFlag::TimeLocked => 0,
        SaveFlag::WeatherLocked => 1,
        SaveFlag::AboardShip => 2,
        SaveFlag::Intermission => 3,
        SaveFlag::Dlc4 => 4,
        SaveFlag::Gauntlet => 5,
    }
}

impl SaveFlag {
    /// The bit index of this flag within the save flag byte.
    pub fn flag_index(self) -> (r: usize)
        ensures
            r as int == save_flag_index(self),
    {
        match self {
            SaveFlag::TimeLocked => 0,
            SaveFlag::WeatherLocked => 1,
            SaveFlag::AboardShip => 2,
            SaveFlag::Intermission => 3,
            SaveFlag::Dlc4 => 4,
            SaveFlag::Gauntlet => 5,
        }
    }
}

impl PlayTime {
    /// The play time a byte region holds.
    pub open spec fn decoded(region: Seq<u8>) -> PlayTime {
        PlayTime { raw: le32(region, 0) as u32 }
    }

    pub fn from_seconds(seconds: u32) -> (r: Self)
        ensures
            r.raw == seconds,
    {
        PlayTime { raw: seconds }
    }

    pub fn to_seconds(self) -> (r: u32)
        ensures
            r == self.raw,
    {
        self.raw
    }

    /// The play time split into whole hours, minutes and seconds.
    pub fn to_hours_mins_secs(self) -> (r: (u32, u32, u32))
        ensures
            r.0 == self.raw / 3600,
            r.1 == self.raw % 3600 / 60,
            r.2 == self.raw % 3600 % 60,
    {
        let secs = self.to_seconds();
        (secs / 3600, secs % 3600 / 60, secs % 3600 % 60)
    }

    /// Reads the play time at `off`.
    pub fn read_at(buf: &[u8], off: usize) -> (r: Self)
        requires
            off + 4 <= buf.len(),
        ensures
            r == Self::decoded(buf@.subrange(off as int, off as int + 4)),
    {
        let r = PlayTime { raw: read_u32(buf, off) };
        proof {
            assert(le32(buf@.subrange(off as int, off as int + 4), 0) == le32(buf@, off as int));
        }
        r
    }

    /// Writes the play time at `off`, leaving all other bytes as they were.
    pub fn write_at(&self, buf: &mut Vec<u8>, off: usize)
        requires
            off + 4 <= old(buf).len(),
        ensures
            final(buf).len() == old(buf).len(),
            Self::decoded(final(buf)@.subrange(off as int, off as int + 4)) == *self,
            unchanged_outside(old(buf)@, final(buf)@, off as int, 4),
    {
        write_u32(buf, off, self.raw);
        proof {
            assert(le32(final(buf)@.subrange(off as int, off as int + 4), 0) == le32(
                final(buf)@,
                off as int,
            ));
        }
    }
}

impl SaveTimestamp {
    /// The timestamp a byte region holds.
    pub open spec fn decoded(region: Seq<u8>) -> SaveTimestamp {
        SaveTimestamp { time: le32(region, 0) as u32, date: le32(region, 4) as u32 }
    }

    /// The packed year.
    pub open spec fn year_spec(&self) -> u32 {
        self.date >> 0x12
    }

    /// The packed month.
    pub open spec fn month_spec(&self) -> u8 {
        ((self.date >> 0xe) & 0xf) as u8
    }

    /// The packed day of the month.
    pub open spec fn day_spec(&self) -> u8 {
        (self.date & 0x1f) as u8
    }

    /// The packed hour.
    pub open spec fn hour_spec(&self) -> u8 {
        (self.time >> 0x1a) as u8
    }

    /// The packed minute.
    pub open spec fn minute_spec(&self) -> u8 {
        ((self.time >> 0x14) & 0x3f) as u8
    }

    /// Packs a calendar date and time of day. Fields beyond their packed
    /// widths (14 bits of year, 6 of hour; 4 of month, 5 of day, 6 of
    /// minute) are truncated by the packing.
    pub fn from_date_time(year: u32, month: u8, day: u8, hour: u8, minute: u8) -> (r: Self)
        ensures
            r.date == (year << 0x12) | (((month as u32) & 0xf) << 0xe) | ((day as u32) & 0x1f),
            r.time == ((hour as u32) << 0x1a) | (((minute as u32) & 0x3f) << 0x14),
            year < 0x4000 ==> r.year_spec() == year,
            r.month_spec() == month & 0xf,
            r.day_spec() == day & 0x1f,
            hour < 0x40 ==> r.hour_spec() == hour,
            r.minute_spec() == minute & 0x3f,
    {
        let date = (year << 0x12) | (((month as u32) & 0xf) << 0xe) | ((day as u32) & 0x1f);
        let time = ((hour as u32) << 0x1a) | (((minute as u32) & 0x3f) << 0x14);
        proof {
            assert(year < 0x4000 ==> ((year << 0x12) | (((month as u32) & 0xf) << 0xe) | ((
            day as u32) & 0x1f)) >> 0x12 == year) by (bit_vector);
            assert(((((year << 0x12) | (((month as u32) & 0xf) << 0xe) | ((day as u32) & 0x1f))
                >> 0xe) & 0xf) as u8 == month & 0xf) by (bit_vector);
            assert((((year << 0x12) | (((month as u32) & 0xf) << 0xe) | ((day as u32) & 0x1f))
                & 0x1f) as u8 == day & 0x1f) by (bit_vector);
            assert(hour < 0x40 ==> ((((hour as u32) << 0x1a) | (((minute as u32) & 0x3f) << 0x14))
                >> 0x1a) as u8 == hour) by (bit_vector);
            assert((((((hour as u32) << 0x1a) | (((minute as u32) & 0x3f) << 0x14)) >> 0x14)
                & 0x3f) as u8 == minute & 0x3f) by (bit_vector);
        }
        Self { date, time }
    }

    pub fn year(&self) -> (r: u32)
        ensures
            r == self.year_spec(),
    {
        self.date >> 0x12
    }

    pub fn month(&self) -> (r: u8)
        ensures
            r == self.month_spec(),
    {
        proof {
            let d = self.date;
            assert((d >> 0xe) & 0xf <= 0xf) by (bit_vector);
        }
        ((self.date >> 0xe) & 0xf) as u8
    }

    pub fn day(&self) -> (r: u8)
        ensures
            r == self.day_spec(),
    {
        proof {
            let d = self.date;
            assert(d & 0x1f <= 0x1f) by (bit_vector);
        }
        (self.date & 0x1f) as u8
    }

    pub fn hour(&self) -> (r: u8)
        ensures
            r == self.hour_spec(),
    {
        proof {
            let t = self.time;
            assert(t >> 0x1a <= 0x3f) by (bit_vector);
        }
        (self.time >> 0x1a) as u8
    }

    pub fn minute(&self) -> (r: u8)
        ensures
            r == self.minute_spec(),
    {
        proof {
            let t = self.time;
            assert((t >> 0x14) & 0x3f <= 0x3f) by (bit_vector);
        }
        ((self.time >> 0x14) & 0x3f) as u8
    }

    /// Reads the timestamp at `off`.
    pub fn read_at(buf: &[u8], off: usize) -> (r: Self)
        requires
            off + 8 <= buf.len(),
        ensures
            r == Self::decoded(buf@.subrange(off as int, off as int + 8)),
    {
        let r = SaveTimestamp { time: read_u32(buf, off), date: read_u32(buf, off + 4) };
        proof {
            let region = buf@.subrange(off as int, off as int + 8);
            assert(le32(region, 0) == le32(buf@, off as int));
            assert(le32(region, 4) == le32(buf@, off as int + 4));
        }
        r
    }

    /// Writes the timestamp at `off`, leaving all other bytes as they were.
    pub fn write_at(&self, buf: &mut Vec<u8>, off: usize)
        requires
            off + 8 <= old(buf).len(),
        ensures
            final(buf).len() == old(buf).len(),
            Self::decoded(final(buf)@.subrange(off as int, off as int + 8)) == *self,
            unchanged_outside(old(buf)@, final(buf)@, off as int, 8),
    {
        write_u32(buf, off, self.time);
        write_u32(buf, off + 4, self.date);
        proof {
            let region = final(buf)@.subrange(off as int, off as int + 8);
            assert(le32(region, 0) == le32(final(buf)@, off as int));
            assert(le32(region, 4) == le32(final(buf)@, off as int + 4));
        }
    }
}


/// A position and orientation in the world.
///
/// The game stores each component as a 32-bit IEEE floating-point value;
/// this type carries the raw bit patterns, and interpreting them as
/// floating point is the caller's concern.
#[derive(Debug, Clone, Copy, PartialEq, Eq, Structural)]
pub struct Pos {
    pub x_bits: u32,
    pub y_bits: u32,
    pub z_bits: u32,
    pub rotation_bits: u32,
}

impl Pos {
    /// The position a byte region holds.
    pub open spec fn decoded(region: Seq<u8>) -> Pos {
        Pos {
            x_bits: le32(region, 0) as u32,
            y_bits: le32(region, 4) as u32,
            z_bits: le32(region, 8) as u32,
            rotation_bits: le32(region, 12) as u32,
        }
    }

    /// Reads the position at `off`.
    pub fn read_at(buf: &[u8], off: usize) -> (r: Self)
        requires
            off + 16 <= buf.len(),
        ensures
            r == Self::decoded(buf@.subrange(off as int, off as int + 16)),
    {
        let r = Pos {
            x_bits: read_u32(buf, off),
            y_bits: read_u32(buf, off + 4),
            z_bits: read_u32(buf, off + 8),
            rotation_bits: read_u32(buf, off + 12),
        };
        proof {
            let region = buf@.subrange(off as int, off as int + 16);
            assert(le32(region, 0) == le32(buf@, off as int));
            assert(le32(region, 4) == le32(buf@, off as int + 4));
            assert(le32(region, 8) == le32(buf@, off as int + 8));
            assert(le32(region, 12) == le32(buf@, off as int + 12));
        }
        r
    }

    /// Writes the position at `off`, leaving all other bytes as they were.
    pub fn write_at(&self, buf: &mut Vec<u8>, off: usize)
        requires
            off + 16 <= old(buf).len(),
        ensures
            final(buf).len() == old(buf).len(),
            Self::decoded(final(buf)@.subrange(off as int, off as int + 16)) == *self,
            unchanged_outside(old(buf)@, final(buf)@, off as int, 16),
    {
        write_u32(buf, off, self.x_bits);
        write_u32(buf, off + 4, self.y_bits);
        write_u32(buf, off + 8, self.z_bits);
        write_u32(buf, off + 12, self.rotation_bits);
        proof {
            let region = final(buf)@.subrange(off as int, off as int + 16);
            assert(le32(region, 0) == le32(final(buf)@, off as int));
            assert(le32(region, 4) == le32(final(buf)@, off as int + 4));
            assert(le32(region, 8) == le32(final(buf)@, off as int + 8));
            assert(le32(region, 12) == le32(final(buf)@, off as int + 12));
        }
    }
}

impl MapTime {
    /// The map time a byte region holds.
    pub open spec fn decoded(region: Seq<u8>) -> MapTime {
        MapTime { hour: le16(region, 0) as u16, minute: le16(region, 2) as u16 }
    }

    /// Reads the map time at `off`.
    pub fn read_at(buf: &[u8], off: usize) -> (r: Self)
        requires
            off + 4 <= buf.len(),
        ensures
            r == Self::decoded(buf@.subrange(off as int, off as int + 4)),
    {
        let r = MapTime { hour: read_u16(buf, off), minute: read_u16(buf, off + 2) };
        proof {
            let region = buf@.subrange(off as int, off as int + 4);
            assert(le16(region, 0) == le16(buf@, off as int));
            assert(le16(region, 2) == le16(buf@, off as int + 2));
        }
        r
    }

    /// Writes the map time at `off`, leaving all other bytes as they were.
    pub fn write_at(&self, buf: &mut Vec<u8>, off: usize)
        requires
            off + 4 <= old(buf).len(),
        ensures
            final(buf).len() == old(buf).len(),
            Self::decoded(final(buf)@.subrange(off as int, off as int + 4)) == *self,
            unchanged_outside(old(buf)@, final(buf)@, off as int, 4),
    {
        write_u16(buf, off, self.hour);
        write_u16(buf, off + 2, self.minute);
        proof {
            let region = final(buf)@.subrange(off as int, off as int + 4);
            assert(le16(region, 0) == le16(final(buf)@, off as int));
            assert(le16(region, 2) == le16(final(buf)@, off as int + 2));
        }
    }
}

/// The save-data aggregate: the typed decomposition of the buffer's
/// modeled regions, each at its fixed absolute offset.
pub struct SaveData {
    pub play_time: PlayTime,
    pub timestamp: SaveTimestamp,
    pub gold: u32,
    /// Updated by the game on load.
    pub seen_colonies: u32,
    pub save_flags: BitFlags<1>,
    /// Saved event flow ID for end-of-chapter saves.
    pub saved_event_flow: u32,
    pub map_id: u16,
    pub map_time: MapTime,
    /// ID for the weather set. The game only considers this if the
    /// weather-locked save flag is set.
    pub weather: u16,
    pub player_pos: Pos,
    pub ship_pos: Pos,
    /// Starts at 0, index for `party_characters`.
    pub controlled_character_idx: u32,
    pub party_characters: FixVec<u16, PARTY_MAX>,
    /// Guest IDs from the NPC list.
    pub party_guests: FixVec<u16, PARTY_GUEST_MAX>,
    pub inventory: Inventory,
}

/// The outcome of the decode gate: the magic number, the version byte and
/// the buffer length are checked in that order, and nothing else is read
/// when one of them fails.
pub open spec fn decode_gate(b: Seq<u8>) -> Result<(), SaveError> {
    if b.len() < 4 {
        Err(SaveError::TooShort)
    } else if le32(b, 0) != SAVE_MAGIC as int {
        Err(SaveError::UnrecognizedFormat)
    } else if b.len() < 5 {
        Err(SaveError::TooShort)
    } else if b[4] != SAVE_VERSION {
        Err(SaveError::UnsupportedVersion(b[4]))
    } else if b.len() < SAVE_DATA_SIZE {
        Err(SaveError::TooShort)
    } else {
        Ok(())
    }
}

impl SaveData {
    /// Every variable-size region holds exactly its declared storage.
    pub open spec fn wf(&self) -> bool {
        &&& self.save_flags.wf()
        &&& self.party_characters.wf()
        &&& self.party_guests.wf()
        &&& self.inventory.wf()
    }

    /// The aggregate is exactly what the buffer's modeled regions hold.
    pub open spec fn matches_bytes(&self, b: Seq<u8>) -> bool {
        &&& self.play_time == PlayTime::decoded(
            b.subrange(LOC_PLAY_TIME as int, LOC_PLAY_TIME as int + 4),
        )
        &&& self.timestamp == SaveTimestamp::decoded(
            b.subrange(LOC_TIMESTAMP as int, LOC_TIMESTAMP as int + 8),
        )
        &&& self.gold as int == le32(b, LOC_GOLD as int)
        &&& self.seen_colonies as int == le32(b, LOC_SEEN_COLONIES as int)
        &&& self.save_flags.bytes@ == b.subrange(LOC_SAVE_FLAGS as int, LOC_SAVE_FLAGS as int + 1)
        &&& self.saved_event_flow as int == le32(b, LOC_SAVED_EVENT_FLOW as int)
        &&& self.map_id as int == le16(b, LOC_MAP_ID as int)
        &&& self.map_time == MapTime::decoded(
            b.subrange(LOC_MAP_TIME as int, LOC_MAP_TIME as int + 4),
        )
        &&& self.weather as int == le16(b, LOC_WEATHER as int)
        &&& self.player_pos == Pos::decoded(
            b.subrange(LOC_PLAYER_POS as int, LOC_PLAYER_POS as int + 16),
        )
        &&& self.ship_pos == Pos::decoded(b.subrange(LOC_SHIP_POS as int, LOC_SHIP_POS as int + 16))
        &&& self.controlled_character_idx as int == le32(b, LOC_CONTROLLED_CHARACTER as int)
        &&& self.party_characters.matches_region(
            b.subrange(
                LOC_PARTY_CHARACTERS as int,
                LOC_PARTY_CHARACTERS as int + FixVec::<u16, PARTY_MAX>::spec_size(),
            ),
        )
        &&& self.party_guests.matches_region(
            b.subrange(
                LOC_PARTY_GUESTS as int,
                LOC_PARTY_GUESTS as int + FixVec::<u16, PARTY_GUEST_MAX>::spec_size(),
            ),
        )
        &&& self.inventory.matches_region(
            b.subrange(LOC_INVENTORY as int, LOC_INVENTORY as int + INVENTORY_SIZE as int),
        )
    }

    /// Decodes a save buffer. The magic number and the version byte gate
    /// the whole decode: a buffer failing either check yields the
    /// corresponding error and nothing more is read; otherwise every
    /// modeled region is read at its fixed offset.
    pub fn from_bytes(bytes: &[u8]) -> (r: Result<SaveData, SaveError>)
        ensures
            r is Ok <==> decode_gate(bytes@) is Ok,
            r matches Err(e) ==> decode_gate(bytes@) == Err::<(), SaveError>(e),
            r matches Ok(s) ==> s.wf() && s.matches_bytes(bytes@),
    {
        if bytes.len() < 4 {
            return Err(SaveError::TooShort);
        }
        let magic = read_u32(bytes, 0);
        if magic != SAVE_MAGIC {
            return Err(SaveError::UnrecognizedFormat);
        }
        if bytes.len() < 5 {
            return Err(SaveError::TooShort);
        }
        let version = read_u8(bytes, 4);
        if version != SAVE_VERSION {
            return Err(SaveError::UnsupportedVersion(version));
        }
        if bytes.len() < SAVE_DATA_SIZE {
            return Err(SaveError::TooShort);
        }
        let s = SaveData {
            play_time: PlayTime::read_at(bytes, LOC_PLAY_TIME),
            timestamp: SaveTimestamp::read_at(bytes, LOC_TIMESTAMP),
            gold: read_u32(bytes, LOC_GOLD),
            seen_colonies: read_u32(bytes, LOC_SEEN_COLONIES),
            save_flags: BitFlags::read_at(bytes, LOC_SAVE_FLAGS),
            saved_event_flow: read_u32(bytes, LOC_SAVED_EVENT_FLOW),
            map_id: read_u16(bytes, LOC_MAP_ID),
            map_time: MapTime::read_at(bytes, LOC_MAP_TIME),
            weather: read_u16(bytes, LOC_WEATHER),
            player_pos: Pos::read_at(bytes, LOC_PLAYER_POS),
            ship_pos: Pos::read_at(bytes, LOC_SHIP_POS),
            controlled_character_idx: read_u32(bytes, LOC_CONTROLLED_CHARACTER),
            party_characters: FixVec::<u16, PARTY_MAX>::read_at(bytes, LOC_PARTY_CHARACTERS),
            party_guests: FixVec::<u16, PARTY_GUEST_MAX>::read_at(bytes, LOC_PARTY_GUESTS),
            inventory: Inventory::read_at(bytes, LOC_INVENTORY),
        };
        Ok(s)
    }

    /// Returns whether a named save flag is set.
    pub fn is_flag_set(&self, flag: SaveFlag) -> (r: bool)
        requires
            self.save_flags.wf(),
        ensures
            r == self.save_flags.flag(save_flag_index(flag)),
    {
        match self.save_flags.get(flag.flag_index()) {
            Some(v) => v,
            None => {
                proof {
                    assert(false);
                }
                false
            },
        }
    }

    /// Sets a named save flag, leaving every other flag and every other
    /// field as it was.
    pub fn set_flag(&mut self, flag: SaveFlag, value: bool)
        requires
            old(self).save_flags.wf(),
        ensures
            final(self).save_flags.wf(),
            final(self).save_flags.flag(save_flag_index(flag)) == value,
            forall|j: int|
                0 <= j < 8 && j != save_flag_index(flag) ==> final(self).save_flags.flag(j) == old(
                    self,
                ).save_flags.flag(j),
            final(self).play_time == old(self).play_time,
            final(self).timestamp == old(self).timestamp,
            final(self).gold == old(self).gold,
            final(self).seen_colonies == old(self).seen_colonies,
            final(self).saved_event_flow == old(self).saved_event_flow,
            final(self).map_id == old(self).map_id,
            final(self).map_time == old(self).map_time,
            final(self).weather == old(self).weather,
            final(self).player_pos == old(self).player_pos,
            final(self).ship_pos == old(self).ship_pos,
            final(self).controlled_character_idx == old(self).controlled_character_idx,
            final(self).party_characters == old(self).party_characters,
            final(self).party_guests == old(self).party_guests,
            final(self).inventory == old(self).inventory,
    {
        let idx = flag.flag_index();
        match self.save_flags.set(idx, value) {
            Ok(_) => (),
            Err(_) => {
                proof {
                    assert(false);
                }
            },
        }
    }

    /// Returns whether the save belongs to the fourth DLC's campaign.
    pub fn is_dlc4(&self) -> (r: bool)
        requires
            self.save_flags.wf(),
        ensures
            r == self.save_flags.flag(save_flag_index(SaveFlag::Dlc4)),
    {
        self.is_flag_set(SaveFlag::Dlc4)
    }
}

/// A byte the aggregate models: it belongs to some fixed region that
/// encoding writes.
pub open spec fn save_modeled_byte(i: int) -> bool {
    ||| 0 <= i < 5
    ||| LOC_PLAY_TIME <= i < LOC_PLAY_TIME + 4
    ||| LOC_TIMESTAMP <= i < LOC_TIMESTAMP + 8
    ||| LOC_GOLD <= i < LOC_GOLD + 4
    ||| LOC_SEEN_COLONIES <= i < LOC_SEEN_COLONIES + 4
    ||| LOC_SAVE_FLAGS <= i < LOC_SAVE_FLAGS + 1
    ||| LOC_SAVED_EVENT_FLOW <= i < LOC_SAVED_EVENT_FLOW + 4
    ||| LOC_MAP_ID <= i < LOC_MAP_ID + 2
    ||| LOC_MAP_TIME <= i < LOC_MAP_TIME + 4
    ||| LOC_WEATHER <= i < LOC_WEATHER + 2
    ||| LOC_PLAYER_POS <= i < LOC_PLAYER_POS + 16
    ||| LOC_SHIP_POS <= i < LOC_SHIP_POS + 16
    ||| LOC_CONTROLLED_CHARACTER <= i < LOC_CONTROLLED_CHARACTER + 4
    ||| LOC_PARTY_CHARACTERS <= i < LOC_PARTY_CHARACTERS + FixVec::<u16, PARTY_MAX>::spec_size()
    ||| LOC_PARTY_GUESTS <= i < LOC_PARTY_GUESTS + FixVec::<u16, PARTY_GUEST_MAX>::spec_size()
    ||| LOC_INVENTORY <= i < LOC_INVENTORY + INVENTORY_SIZE
}

/// Two aggregates agree on every modeled field, the backing storage of
/// their variable-size regions included.
pub open spec fn fields_agree(a: SaveData, b: SaveData) -> bool {
    &&& a.play_time == b.play_time
    &&& a.timestamp == b.timestamp
    &&& a.gold == b.gold
    &&& a.seen_colonies == b.seen_colonies
    &&& a.save_flags.bytes@ == b.save_flags.bytes@
    &&& a.saved_event_flow == b.saved_event_flow
    &&& a.map_id == b.map_id
    &&& a.map_time == b.map_time
    &&& a.weather == b.weather
    &&& a.player_pos == b.player_pos
    &&& a.ship_pos == b.ship_pos
    &&& a.controlled_character_idx == b.controlled_character_idx
    &&& a.party_characters.buf@ == b.party_characters.buf@
    &&& a.party_characters.len == b.party_characters.len
    &&& a.party_guests.buf@ == b.party_guests.buf@
    &&& a.party_guests.len == b.party_guests.len
    &&& a.inventory.chronological_id_max == b.inventory.chronological_id_max
    &&& a.inventory.cylinders@ == b.inventory.cylinders@
    &&& a.inventory.gems@ == b.inventory.gems@
    &&& a.inventory.collectibles@ == b.inventory.collectibles@
    &&& a.inventory.infos@ == b.inventory.infos@
    &&& a.inventory.accessories@ == b.inventory.accessories@
    &&& a.inventory.key_items@ == b.inventory.key_items@
    &&& a.inventory.exchange@ == b.inventory.exchange@
    &&& a.inventory.extra@ == b.inventory.extra@
}

/// Round trip: a buffer an aggregate was encoded into passes the decode
/// gate, and any aggregate decoded from it agrees with the encoded one
/// field by field.
pub proof fn lemma_save_round_trip(s: SaveData, d: SaveData, b: Seq<u8>)
    requires
        b.len() >= SAVE_DATA_SIZE,
        le32(b, 0) == SAVE_MAGIC as int,
        b[4] == SAVE_VERSION,
        s.matches_bytes(b),
        d.matches_bytes(b),
    ensures
        decode_gate(b) is Ok,
        fields_agree(s, d),
{
}

impl SaveData {
    /// Encodes the aggregate into a save buffer in place: the magic number,
    /// the version byte and every modeled region are written at their fixed
    /// offsets, and every unmodeled byte keeps its value. Fails only when
    /// the buffer is too short to hold the modeled regions, and then leaves
    /// it untouched.
    pub fn write_to(&self, buf: &mut Vec<u8>) -> (r: Result<(), SaveError>)
        requires
            self.wf(),
        ensures
            r is Ok <==> old(buf).len() >= SAVE_DATA_SIZE,
            r is Err ==> final(buf)@ == old(buf)@ && r == Err::<(), SaveError>(
                SaveError::OutOfBounds,
            ),
            r is Ok ==> final(buf).len() == old(buf).len() && le32(final(buf)@, 0)
                == SAVE_MAGIC as int && final(buf)@[4] == SAVE_VERSION && self.matches_bytes(
                final(buf)@,
            ) && (forall|i: int|
                0 <= i < old(buf)@.len() && !save_modeled_byte(i) ==> final(buf)@[i] == old(
                    buf,
                )@[i]),
    {
        if buf.len() < SAVE_DATA_SIZE {
            return Err(SaveError::OutOfBounds);
        }
        write_u32(buf, 0, SAVE_MAGIC);
        let ghost s1 = buf@;
        write_u8(buf, 4, SAVE_VERSION);
        proof {
            assert(le32(buf@, 0) == SAVE_MAGIC as int);
        }
        let ghost s2 = buf@;
        self.play_time.write_at(buf, LOC_PLAY_TIME);
        proof {
            assert(le32(buf@, 0) == SAVE_MAGIC as int);
            assert(buf@[4] == SAVE_VERSION);
        }
        let ghost s3 = buf@;
        self.timestamp.write_at(buf, LOC_TIMESTAMP);
        proof {
            assert(le32(buf@, 0) == SAVE_MAGIC as int);
            assert(buf@[4] == SAVE_VERSION);
            assert(buf@.subrange(LOC_PLAY_TIME as int, LOC_PLAY_TIME as int + 4) =~= s3.subrange(LOC_PLAY_TIME as int, LOC_PLAY_TIME as int + 4));
            assert(PlayTime::decoded(buf@.subrange(LOC_PLAY_TIME as int, LOC_PLAY_TIME as int + 4)) == self.play_time);
        }
        let ghost s4 = buf@;
        write_u32(buf, LOC_GOLD, self.gold);
        proof {
            assert(le32(buf@, 0) == SAVE_MAGIC as int);
            assert(buf@[4] == SAVE_VERSION);
            assert(buf@.subrange(LOC_PLAY_TIME as int, LOC_PLAY_TIME as int + 4) =~= s4.subrange(LOC_PLAY_TIME as int, LOC_PLAY_TIME as int + 4));
            assert(PlayTime::decoded(buf@.subrange(LOC_PLAY_TIME as int, LOC_PLAY_TIME as int + 4)) == self.play_time);
            assert(buf@.subrange(LOC_TIMESTAMP as int, LOC_TIMESTAMP as int + 8) =~= s4.subrange(LOC_TIMESTAMP as int, LOC_TIMESTAMP as int + 8));
            assert(SaveTimestamp::decoded(buf@.subrange(LOC_TIMESTAMP as int, LOC_TIMESTAMP as int + 8)) == self.timestamp);
        }
        let ghost s5 = buf@;
        write_u32(buf, LOC_SEEN_COLONIES, self.seen_colonies);
        proof {
            assert(le32(buf@, 0) == SAVE_MAGIC as int);
            assert(buf@[4] == SAVE_VERSION);
            assert(buf@.subrange(LOC_PLAY_TIME as int, LOC_PLAY_TIME as int + 4) =~= s5.subrange(LOC_PLAY_TIME as int, LOC_PLAY_TIME as int + 4));
            assert(PlayTime::decoded(buf@.subrange(LOC_PLAY_TIME as int, LOC_PLAY_TIME as int + 4)) == self.play_time);
            assert(buf@.subrange(LOC_TIMESTAMP as int, LOC_TIMESTAMP as int + 8) =~= s5.subrange(LOC_TIMESTAMP as int, LOC_TIMESTAMP as int + 8));
            assert(SaveTimestamp::decoded(buf@.subrange(LOC_TIMESTAMP as int, LOC_TIMESTAMP as int + 8)) == self.timestamp);
            assert(le32(buf@, LOC_GOLD as int) == self.gold as int);
        }
        let ghost s6 = buf@;
        self.save_flags.write_at(buf, LOC_SAVE_FLAGS);
        proof {
            assert(le32(buf@, 0) == SAVE_MAGIC as int);
            assert(buf@[4] == SAVE_VERSION);
            assert(buf@.subrange(LOC_PLAY_TIME as int, LOC_PLAY_TIME as int + 4) =~= s6.subrange(LOC_PLAY_TIME as int, LOC_PLAY_TIME as int + 4));
            assert(PlayTime::decoded(buf@.subrange(LOC_PLAY_TIME as int, LOC_PLAY_TIME as int + 4)) == self.play_time);
            assert(buf@.subrange(LOC_TIMESTAMP as int, LOC_TIMESTAMP as int + 8) =~= s6.subrange(LOC_TIMESTAMP as int, LOC_TIMESTAMP as int + 8));
            assert(SaveTimestamp::decoded(buf@.subrange(LOC_TIMESTAMP as int, LOC_TIMESTAMP as int + 8)) == self.timestamp);
            assert(le32(buf@, LOC_GOLD as int) == self.gold as int);
            assert(le32(buf@, LOC_SEEN_COLONIES as int) == self.seen_colonies as int);
        }
        let ghost s7 = buf@;
        write_u32(buf, LOC_SAVED_EVENT_FLOW, self.saved_event_flow);
        proof {
            assert(le32(buf@, 0) == SAVE_MAGIC as int);
            assert(buf@[4] == SAVE_VERSION);
            assert(buf@.subrange(LOC_PLAY_TIME as int, LOC_PLAY_TIME as int + 4) =~= s7.subrange(LOC_PLAY_TIME as int, LOC_PLAY_TIME as int + 4));
            assert(PlayTime::decoded(buf@.subrange(LOC_PLAY_TIME as int, LOC_PLAY_TIME as int + 4)) == self.play_time);
            assert(buf@.subrange(LOC_TIMESTAMP as int, LOC_TIMESTAMP as int + 8) =~= s7.subrange(LOC_TIMESTAMP as int, LOC_TIMESTAMP as int + 8));
            assert(SaveTimestamp::decoded(buf@.subrange(LOC_TIMESTAMP as int, LOC_TIMESTAMP as int + 8)) == self.timestamp);
            assert(le32(buf@, LOC_GOLD as int) == self.gold as int);
            assert(le32(buf@, LOC_SEEN_COLONIES as int) == self.seen_colonies as int);
            assert(buf@.subrange(LOC_SAVE_FLAGS as int, LOC_SAVE_FLAGS as int + 1) =~= s7.subrange(LOC_SAVE_FLAGS as int, LOC_SAVE_FLAGS as int + 1));
            assert(buf@.subrange(LOC_SAVE_FLAGS as int, LOC_SAVE_FLAGS as int + 1) == self.save_flags.bytes@);
        }
        let ghost s8 = buf@;
        write_u16(buf, LOC_MAP_ID, self.map_id);
        proof {
            assert(le32(buf@, 0) == SAVE_MAGIC as int);
            assert(buf@[4] == SAVE_VERSION);
            assert(buf@.subrange(LOC_PLAY_TIME as int, LOC_PLAY_TIME as int + 4) =~= s8.subrange(LOC_PLAY_TIME as int, LOC_PLAY_TIME as int + 4));
            assert(PlayTime::decoded(buf@.subrange(LOC_PLAY_TIME as int, LOC_PLAY_TIME as int + 4)) == self.play_time);
            assert(buf@.subrange(LOC_TIMESTAMP as int, LOC_TIMESTAMP as int + 8) =~= s8.subrange(LOC_TIMESTAMP as int, LOC_TIMESTAMP as int + 8));
            assert(SaveTimestamp::decoded(buf@.subrange(LOC_TIMESTAMP as int, LOC_TIMESTAMP as int + 8)) == self.timestamp);
            assert(le32(buf@, LOC_GOLD as int) == self.gold as int);
            assert(le32(buf@, LOC_SEEN_COLONIES as int) == self.seen_colonies as int);
            assert(buf@.subrange(LOC_SAVE_FLAGS as int, LOC_SAVE_FLAGS as int + 1) =~= s8.subrange(LOC_SAVE_FLAGS as int, LOC_SAVE_FLAGS as int + 1));
            assert(buf@.subrange(LOC_SAVE_FLAGS as int, LOC_SAVE_FLAGS as int + 1) == self.save_flags.bytes@);
            assert(le32(buf@, LOC_SAVED_EVENT_FLOW as int) == self.saved_event_flow as int);
        }
        let ghost s9 = buf@;
        self.map_time.write_at(buf, LOC_MAP_TIME);
        proof {
            assert(le32(buf@, 0) == SAVE_MAGIC as int);
            assert(buf@[4] == SAVE_VERSION);
            assert(buf@.subrange(LOC_PLAY_TIME as int, LOC_PLAY_TIME as int + 4) =~= s9.subrange(LOC_PLAY_TIME as int, LOC_PLAY_TIME as int + 4));
            assert(PlayTime::decoded(buf@.subrange(LOC_PLAY_TIME as int, LOC_PLAY_TIME as int + 4)) == self.play_time);
            assert(buf@.subrange(LOC_TIMESTAMP as int, LOC_TIMESTAMP as int + 8) =~= s9.subrange(LOC_TIMESTAMP as int, LOC_TIMESTAMP as int + 8));
            assert(SaveTimestamp::decoded(buf@.subrange(LOC_TIMESTAMP as int, LOC_TIMESTAMP as int + 8)) == self.timestamp);
            assert(le32(buf@, LOC_GOLD as int) == self.gold as int);
            assert(le32(buf@, LOC_SEEN_COLONIES as int) == self.seen_colonies as int);
            assert(buf@.subrange(LOC_SAVE_FLAGS as int, LOC_SAVE_FLAGS as int + 1) =~= s9.subrange(LOC_SAVE_FLAGS as int, LOC_SAVE_FLAGS as int + 1));
            assert(buf@.subrange(LOC_SAVE_FLAGS as int, LOC_SAVE_FLAGS as int + 1) == self.save_flags.bytes@);
            assert(le32(buf@, LOC_SAVED_EVENT_FLOW as int) == self.saved_event_flow as int);
            assert(le16(buf@, LOC_MAP_ID as int) == self.map_id as int);
        }
        let ghost s10 = buf@;
        write_u16(buf, LOC_WEATHER, self.weather);
        proof {
            assert(le32(buf@, 0) == SAVE_MAGIC as int);
            assert(buf@[4] == SAVE_VERSION);
            assert(buf@.subrange(LOC_PLAY_TIME as int, LOC_PLAY_TIME as int + 4) =~= s10.subrange(LOC_PLAY_TIME as int, LOC_PLAY_TIME as int + 4));
            assert(PlayTime::decoded(buf@.subrange(LOC_PLAY_TIME as int, LOC_PLAY_TIME as int + 4)) == self.play_time);
            assert(buf@.subrange(LOC_TIMESTAMP as int, LOC_TIMESTAMP as int + 8) =~= s10.subrange(LOC_TIMESTAMP as int, LOC_TIMESTAMP as int + 8));
            assert(SaveTimestamp::decoded(buf@.subrange(LOC_TIMESTAMP as int, LOC_TIMESTAMP as int + 8)) == self.timestamp);
            assert(le32(buf@, LOC_GOLD as int) == self.gold as int);
            assert(le32(buf@, LOC_SEEN_COLONIES as int) == self.seen_colonies as int);
            assert(buf@.subrange(LOC_SAVE_FLAGS as int, LOC_SAVE_FLAGS as int + 1) =~= s10.subrange(LOC_SAVE_FLAGS as int, LOC_SAVE_FLAGS as int + 1));
            assert(buf@.subrange(LOC_SAVE_FLAGS as int, LOC_SAVE_FLAGS as int + 1) == self.save_flags.bytes@);
            assert(le32(buf@, LOC_SAVED_EVENT_FLOW as int) == self.saved_event_flow as int);
            assert(le16(buf@, LOC_MAP_ID as int) == self.map_id as int);
            assert(buf@.subrange(LOC_MAP_TIME as int, LOC_MAP_TIME as int + 4) =~= s10.subrange(LOC_MAP_TIME as int, LOC_MAP_TIME as int + 4));
            assert(MapTime::decoded(buf@.subrange(LOC_MAP_TIME as int, LOC_MAP_TIME as int + 4)) == self.map_time);
        }
        let ghost s11 = buf@;
        self.player_pos.write_at(buf, LOC_PLAYER_POS);
        proof {
            assert(le32(buf@, 0) == SAVE_MAGIC as int);
            assert(buf@[4] == SAVE_VERSION);
            assert(buf@.subrange(LOC_PLAY_TIME as int, LOC_PLAY_TIME as int + 4) =~= s11.subrange(LOC_PLAY_TIME as int, LOC_PLAY_TIME as int + 4));
            assert(PlayTime::decoded(buf@.subrange(LOC_PLAY_TIME as int, LOC_PLAY_TIME as int + 4)) == self.play_time);
            assert(buf@.subrange(LOC_TIMESTAMP as int, LOC_TIMESTAMP as int + 8) =~= s11.subrange(LOC_TIMESTAMP as int, LOC_TIMESTAMP as int + 8));
            assert(SaveTimestamp::decoded(buf@.subrange(LOC_TIMESTAMP as int, LOC_TIMESTAMP as int + 8)) == self.timestamp);
            assert(le32(buf@, LOC_GOLD as int) == self.gold as int);
            assert(le32(buf@, LOC_SEEN_COLONIES as int) == self.seen_colonies as int);
            assert(buf@.subrange(LOC_SAVE_FLAGS as int, LOC_SAVE_FLAGS as int + 1) =~= s11.subrange(LOC_SAVE_FLAGS as int, LOC_SAVE_FLAGS as int + 1));
            assert(buf@.subrange(LOC_SAVE_FLAGS as int, LOC_SAVE_FLAGS as int + 1) == self.save_flags.bytes@);
            assert(le32(buf@, LOC_SAVED_EVENT_FLOW as int) == self.saved_event_flow as int);
            assert(le16(buf@, LOC_MAP_ID as int) == self.map_id as int);
            assert(buf@.subrange(LOC_MAP_TIME as int, LOC_MAP_TIME as int + 4) =~= s11.subrange(LOC_MAP_TIME as int, LOC_MAP_TIME as int + 4));
            assert(MapTime::decoded(buf@.subrange(LOC_MAP_TIME as int, LOC_MAP_TIME as int + 4)) == self.map_time);
            assert(le16(buf@, LOC_WEATHER as int) == self.weather as int);
        }
        let ghost s12 = buf@;
        self.ship_pos.write_at(buf, LOC_SHIP_POS);
        proof {
            assert(le32(buf@, 0) == SAVE_MAGIC as int);
            assert(buf@[4] == SAVE_VERSION);
            assert(buf@.subrange(LOC_PLAY_TIME as int, LOC_PLAY_TIME as int + 4) =~= s12.subrange(LOC_PLAY_TIME as int, LOC_PLAY_TIME as int + 4));
            assert(PlayTime::decoded(buf@.subrange(LOC_PLAY_TIME as int, LOC_PLAY_TIME as int + 4)) == self.play_time);
            assert(buf@.subrange(LOC_TIMESTAMP as int, LOC_TIMESTAMP as int + 8) =~= s12.subrange(LOC_TIMESTAMP as int, LOC_TIMESTAMP as int + 8));
            assert(SaveTimestamp::decoded(buf@.subrange(LOC_TIMESTAMP as int, LOC_TIMESTAMP as int + 8)) == self.timestamp);
            assert(le32(buf@, LOC_GOLD as int) == self.gold as int);
            assert(le32(buf@, LOC_SEEN_COLONIES as int) == self.seen_colonies as int);
            assert(buf@.subrange(LOC_SAVE_FLAGS as int, LOC_SAVE_FLAGS as int + 1) =~= s12.subrange(LOC_SAVE_FLAGS as int, LOC_SAVE_FLAGS as int + 1));
            assert(buf@.subrange(LOC_SAVE_FLAGS as int, LOC_SAVE_FLAGS as int + 1) == self.save_flags.bytes@);
            assert(le32(buf@, LOC_SAVED_EVENT_FLOW as int) == self.saved_event_flow as int);
            assert(le16(buf@, LOC_MAP_ID as int) == self.map_id as int);
            assert(buf@.subrange(LOC_MAP_TIME as int, LOC_MAP_TIME as int + 4) =~= s12.subrange(LOC_MAP_TIME as int, LOC_MAP_TIME as int + 4));
            assert(MapTime::decoded(buf@.subrange(LOC_MAP_TIME as int, LOC_MAP_TIME as int + 4)) == self.map_time);
            assert(le16(buf@, LOC_WEATHER as int) == self.weather as int);
            assert(buf@.subrange(LOC_PLAYER_POS as int, LOC_PLAYER_POS as int + 16) =~= s12.subrange(LOC_PLAYER_POS as int, LOC_PLAYER_POS as int + 16));
            assert(Pos::decoded(buf@.subrange(LOC_PLAYER_POS as int, LOC_PLAYER_POS as int + 16)) == self.player_pos);
        }
        let ghost s13 = buf@;
        write_u32(buf, LOC_CONTROLLED_CHARACTER, self.controlled_character_idx);
        proof {
            assert(le32(buf@, 0) == SAVE_MAGIC as int);
            assert(buf@[4] == SAVE_VERSION);
            assert(buf@.subrange(LOC_PLAY_TIME as int, LOC_PLAY_TIME as int + 4) =~= s13.subrange(LOC_PLAY_TIME as int, LOC_PLAY_TIME as int + 4));
            assert(PlayTime::decoded(buf@.subrange(LOC_PLAY_TIME as int, LOC_PLAY_TIME as int + 4)) == self.play_time);
            assert(buf@.subrange(LOC_TIMESTAMP as int, LOC_TIMESTAMP as int + 8) =~= s13.subrange(LOC_TIMESTAMP as int, LOC_TIMESTAMP as int + 8));
            assert(SaveTimestamp::decoded(buf@.subrange(LOC_TIMESTAMP as int, LOC_TIMESTAMP as int + 8)) == self.timestamp);
            assert(le32(buf@, LOC_GOLD as int) == self.gold as int);
            assert(le32(buf@, LOC_SEEN_COLONIES as int) == self.seen_colonies as int);
            assert(buf@.subrange(LOC_SAVE_FLAGS as int, LOC_SAVE_FLAGS as int + 1) =~= s13.subrange(LOC_SAVE_FLAGS as int, LOC_SAVE_FLAGS as int + 1));
            assert(buf@.subrange(LOC_SAVE_FLAGS as int, LOC_SAVE_FLAGS as int + 1) == self.save_flags.bytes@);
            assert(le32(buf@, LOC_SAVED_EVENT_FLOW as int) == self.saved_event_flow as int);
            assert(le16(buf@, LOC_MAP_ID as int) == self.map_id as int);
            assert(buf@.subrange(LOC_MAP_TIME as int, LOC_MAP_TIME as int + 4) =~= s13.subrange(LOC_MAP_TIME as int, LOC_MAP_TIME as int + 4));
            assert(MapTime::decoded(buf@.subrange(LOC_MAP_TIME as int, LOC_MAP_TIME as int + 4)) == self.map_time);
            assert(le16(buf@, LOC_WEATHER as int) == self.weather as int);
            assert(buf@.subrange(LOC_PLAYER_POS as int, LOC_PLAYER_POS as int + 16) =~= s13.subrange(LOC_PLAYER_POS as int, LOC_PLAYER_POS as int + 16));
            assert(Pos::decoded(buf@.subrange(LOC_PLAYER_POS as int, LOC_PLAYER_POS as int + 16)) == self.player_pos);
            assert(buf@.subrange(LOC_SHIP_POS as int, LOC_SHIP_POS as int + 16) =~= s13.subrange(LOC_SHIP_POS as int, LOC_SHIP_POS as int + 16));
            assert(Pos::decoded(buf@.subrange(LOC_SHIP_POS as int, LOC_SHIP_POS as int + 16)) == self.ship_pos);
        }
        let ghost s14 = buf@;
        self.party_characters.write_at(buf, LOC_PARTY_CHARACTERS);
        proof {
            assert(le32(buf@, 0) == SAVE_MAGIC as int);
            assert(buf@[4] == SAVE_VERSION);
            assert(buf@.subrange(LOC_PLAY_TIME as int, LOC_PLAY_TIME as int + 4) =~= s14.subrange(LOC_PLAY_TIME as int, LOC_PLAY_TIME as int + 4));
            assert(PlayTime::decoded(buf@.subrange(LOC_PLAY_TIME as int, LOC_PLAY_TIME as int + 4)) == self.play_time);
            assert(buf@.subrange(LOC_TIMESTAMP as int, LOC_TIMESTAMP as int + 8) =~= s14.subrange(LOC_TIMESTAMP as int, LOC_TIMESTAMP as int + 8));
            assert(SaveTimestamp::decoded(buf@.subrange(LOC_TIMESTAMP as int, LOC_TIMESTAMP as int + 8)) == self.timestamp);
            assert(le32(buf@, LOC_GOLD as int) == self.gold as int);
            assert(le32(buf@, LOC_SEEN_COLONIES as int) == self.seen_colonies as int);
            assert(buf@.subrange(LOC_SAVE_FLAGS as int, LOC_SAVE_FLAGS as int + 1) =~= s14.subrange(LOC_SAVE_FLAGS as int, LOC_SAVE_FLAGS as int + 1));
            assert(buf@.subrange(LOC_SAVE_FLAGS as int, LOC_SAVE_FLAGS as int + 1) == self.save_flags.bytes@);
            assert(le32(buf@, LOC_SAVED_EVENT_FLOW as int) == self.saved_event_flow as int);
            assert(le16(buf@, LOC_MAP_ID as int) == self.map_id as int);
            assert(buf@.subrange(LOC_MAP_TIME as int, LOC_MAP_TIME as int + 4) =~= s14.subrange(LOC_MAP_TIME as int, LOC_MAP_TIME as int + 4));
            assert(MapTime::decoded(buf@.subrange(LOC_MAP_TIME as int, LOC_MAP_TIME as int + 4)) == self.map_time);
            assert(le16(buf@, LOC_WEATHER as int) == self.weather as int);
            assert(buf@.subrange(LOC_PLAYER_POS as int, LOC_PLAYER_POS as int + 16) =~= s14.subrange(LOC_PLAYER_POS as int, LOC_PLAYER_POS as int + 16));
            assert(Pos::decoded(buf@.subrange(LOC_PLAYER_POS as int, LOC_PLAYER_POS as int + 16)) == self.player_pos);
            assert(buf@.subrange(LOC_SHIP_POS as int, LOC_SHIP_POS as int + 16) =~= s14.subrange(LOC_SHIP_POS as int, LOC_SHIP_POS as int + 16));
            assert(Pos::decoded(buf@.subrange(LOC_SHIP_POS as int, LOC_SHIP_POS as int + 16)) == self.ship_pos);
            assert(le32(buf@, LOC_CONTROLLED_CHARACTER as int) == self.controlled_character_idx as int);
        }
        let ghost s15 = buf@;
        self.party_guests.write_at(buf, LOC_PARTY_GUESTS);
        proof {
            assert(le32(buf@, 0) == SAVE_MAGIC as int);
            assert(buf@[4] == SAVE_VERSION);
            assert(buf@.subrange(LOC_PLAY_TIME as int, LOC_PLAY_TIME as int + 4) =~= s15.subrange(LOC_PLAY_TIME as int, LOC_PLAY_TIME as int + 4));
            assert(PlayTime::decoded(buf@.subrange(LOC_PLAY_TIME as int, LOC_PLAY_TIME as int + 4)) == self.play_time);
            assert(buf@.subrange(LOC_TIMESTAMP as int, LOC_TIMESTAMP as int + 8) =~= s15.subrange(LOC_TIMESTAMP as int, LOC_TIMESTAMP as int + 8));
            assert(SaveTimestamp::decoded(buf@.subrange(LOC_TIMESTAMP as int, LOC_TIMESTAMP as int + 8)) == self.timestamp);
            assert(le32(buf@, LOC_GOLD as int) == self.gold as int);
            assert(le32(buf@, LOC_SEEN_COLONIES as int) == self.seen_colonies as int);
            assert(buf@.subrange(LOC_SAVE_FLAGS as int, LOC_SAVE_FLAGS as int + 1) =~= s15.subrange(LOC_SAVE_FLAGS as int, LOC_SAVE_FLAGS as int + 1));
            assert(buf@.subrange(LOC_SAVE_FLAGS as int, LOC_SAVE_FLAGS as int + 1) == self.save_flags.bytes@);
            assert(le32(buf@, LOC_SAVED_EVENT_FLOW as int) == self.saved_event_flow as int);
            assert(le16(buf@, LOC_MAP_ID as int) == self.map_id as int);
            assert(buf@.subrange(LOC_MAP_TIME as int, LOC_MAP_TIME as int + 4) =~= s15.subrange(LOC_MAP_TIME as int, LOC_MAP_TIME as int + 4));
            assert(MapTime::decoded(buf@.subrange(LOC_MAP_TIME as int, LOC_MAP_TIME as int + 4)) == self.map_time);
            assert(le16(buf@, LOC_WEATHER as int) == self.weather as int);
            assert(buf@.subrange(LOC_PLAYER_POS as int, LOC_PLAYER_POS as int + 16) =~= s15.subrange(LOC_PLAYER_POS as int, LOC_PLAYER_POS as int + 16));
            assert(Pos::decoded(buf@.subrange(LOC_PLAYER_POS as int, LOC_PLAYER_POS as int + 16)) == self.player_pos);
            assert(buf@.subrange(LOC_SHIP_POS as int, LOC_SHIP_POS as int + 16) =~= s15.subrange(LOC_SHIP_POS as int, LOC_SHIP_POS as int + 16));
            assert(Pos::decoded(buf@.subrange(LOC_SHIP_POS as int, LOC_SHIP_POS as int + 16)) == self.ship_pos);
            assert(le32(buf@, LOC_CONTROLLED_CHARACTER as int) == self.controlled_character_idx as int);
            assert(buf@.subrange(LOC_PARTY_CHARACTERS as int, LOC_PARTY_CHARACTERS as int + FixVec::<u16, PARTY_MAX>::spec_size()) =~= s15.subrange(LOC_PARTY_CHARACTERS as int, LOC_PARTY_CHARACTERS as int + FixVec::<u16, PARTY_MAX>::spec_size()));
            assert(self.party_characters.matches_region(buf@.subrange(LOC_PARTY_CHARACTERS as int, LOC_PARTY_CHARACTERS as int + FixVec::<u16, PARTY_MAX>::spec_size())));
        }
        let ghost s16 = buf@;
        self.inventory.write_at(buf, LOC_INVENTORY);
        proof {
            assert(le32(buf@, 0) == SAVE_MAGIC as int);
            assert(buf@[4] == SAVE_VERSION);
            assert(buf@.subrange(LOC_PLAY_TIME as int, LOC_PLAY_TIME as int + 4) =~= s16.subrange(LOC_PLAY_TIME as int, LOC_PLAY_TIME as int + 4));
            assert(PlayTime::decoded(buf@.subrange(LOC_PLAY_TIME as int, LOC_PLAY_TIME as int + 4)) == self.play_time);
            assert(buf@.subrange(LOC_TIMESTAMP as int, LOC_TIMESTAMP as int + 8) =~= s16.subrange(LOC_TIMESTAMP as int, LOC_TIMESTAMP as int + 8));
            assert(SaveTimestamp::decoded(buf@.subrange(LOC_TIMESTAMP as int, LOC_TIMESTAMP as int + 8)) == self.timestamp);
            assert(le32(buf@, LOC_GOLD as int) == self.gold as int);
            assert(le32(buf@, LOC_SEEN_COLONIES as int) == self.seen_colonies as int);
            assert(buf@.subrange(LOC_SAVE_FLAGS as int, LOC_SAVE_FLAGS as int + 1) =~= s16.subrange(LOC_SAVE_FLAGS as int, LOC_SAVE_FLAGS as int + 1));
            assert(buf@.subrange(LOC_SAVE_FLAGS as int, LOC_SAVE_FLAGS as int + 1) == self.save_flags.bytes@);
            assert(le32(buf@, LOC_SAVED_EVENT_FLOW as int) == self.saved_event_flow as int);
            assert(le16(buf@, LOC_MAP_ID as int) == self.map_id as int);
            assert(buf@.subrange(LOC_MAP_TIME as int, LOC_MAP_TIME as int + 4) =~= s16.subrange(LOC_MAP_TIME as int, LOC_MAP_TIME as int + 4));
            assert(MapTime::decoded(buf@.subrange(LOC_MAP_TIME as int, LOC_MAP_TIME as int + 4)) == self.map_time);
            assert(le16(buf@, LOC_WEATHER as int) == self.weather as int);
            assert(buf@.subrange(LOC_PLAYER_POS as int, LOC_PLAYER_POS as int + 16) =~= s16.subrange(LOC_PLAYER_POS as int, LOC_PLAYER_POS as int + 16));
            assert(Pos::decoded(buf@.subrange(LOC_PLAYER_POS as int, LOC_PLAYER_POS as int + 16)) == self.player_pos);
            assert(buf@.subrange(LOC_SHIP_POS as int, LOC_SHIP_POS as int + 16) =~= s16.subrange(LOC_SHIP_POS as int, LOC_SHIP_POS as int + 16));
            assert(Pos::decoded(buf@.subrange(LOC_SHIP_POS as int, LOC_SHIP_POS as int + 16)) == self.ship_pos);
            assert(le32(buf@, LOC_CONTROLLED_CHARACTER as int) == self.controlled_character_idx as int);
            assert(buf@.subrange(LOC_PARTY_CHARACTERS as int, LOC_PARTY_CHARACTERS as int + FixVec::<u16, PARTY_MAX>::spec_size()) =~= s16.subrange(LOC_PARTY_CHARACTERS as int, LOC_PARTY_CHARACTERS as int + FixVec::<u16, PARTY_MAX>::spec_size()));
            assert(self.party_characters.matches_region(buf@.subrange(LOC_PARTY_CHARACTERS as int, LOC_PARTY_CHARACTERS as int + FixVec::<u16, PARTY_MAX>::spec_size())));
            assert(buf@.subrange(LOC_PARTY_GUESTS as int, LOC_PARTY_GUESTS as int + FixVec::<u16, PARTY_GUEST_MAX>::spec_size()) =~= s16.subrange(LOC_PARTY_GUESTS as int, LOC_PARTY_GUESTS as int + FixVec::<u16, PARTY_GUEST_MAX>::spec_size()));
            assert(self.party_guests.matches_region(buf@.subrange(LOC_PARTY_GUESTS as int, LOC_PARTY_GUESTS as int + FixVec::<u16, PARTY_GUEST_MAX>::spec_size())));
        }
        let ghost s17 = buf@;
        proof {
            assert(final(buf)@ == buf@);
            assert forall|i: int|
                0 <= i < old(buf)@.len() && !save_modeled_byte(i) implies final(buf)@[i]
                == old(buf)@[i] by {
                assert(s1[i] == old(buf)@[i]);
                assert(s2[i] == s1[i]);
                assert(s3[i] == s2[i]);
                assert(s4[i] == s3[i]);
                assert(s5[i] == s4[i]);
                assert(s6[i] == s5[i]);
                assert(s7[i] == s6[i]);
                assert(s8[i] == s7[i]);
                assert(s9[i] == s8[i]);
                assert(s10[i] == s9[i]);
                assert(s11[i] == s10[i]);
                assert(s12[i] == s11[i]);
                assert(s13[i] == s12[i]);
                assert(s14[i] == s13[i]);
                assert(s15[i] == s14[i]);
                assert(s16[i] == s15[i]);
                assert(s17[i] == s16[i]);
                assert(final(buf)@[i] == s17[i]);
            }
        }
        Ok(())
    }
}

/// The decimal digit character for `v`.
pub open spec fn dec_digit(v: int) -> char {
    if v == 0 {
        '0'
    } else if v == 1 {
        '1'
    } else if v == 2 {
        '2'
    } else if v == 3 {
        '3'
    } else if v == 4 {
        '4'
    } else if v == 5 {
        '5'
    } else if v == 6 {
        '6'
    } else if v == 7 {
        '7'
    } else if v == 8 {
        '8'
    } else {
        '9'
    }
}

/// The decimal digits of `v`, most significant first.
pub open spec fn dec_digits(v: int) -> Seq<char>
    decreases v,
{
    if v < 10 {
        seq![dec_digit(v)]
    } else {
        dec_digits(v / 10).push(dec_digit(v % 10))
    }
}

/// `v` zero-padded on the left to at least `w` digits.
pub open spec fn zero_pad(v: int, w: int) -> Seq<char> {
    if dec_digits(v).len() >= w {
        dec_digits(v)
    } else {
        Seq::new((w - dec_digits(v).len()) as nat, |i: int| '0') + dec_digits(v)
    }
}

/// How many digits a value has.
proof fn lemma_dec_digits_len(v: int)
    requires
        v >= 0,
    ensures
        dec_digits(v).len() >= 1,
        v < 10 ==> dec_digits(v).len() == 1,
        10 <= v < 100 ==> dec_digits(v).len() == 2,
        100 <= v < 1000 ==> dec_digits(v).len() == 3,
        1000 <= v ==> dec_digits(v).len() >= 4,
    decreases v,
{
    if v >= 10 {
        lemma_dec_digits_len(v / 10);
    }
}

/// The one-character string for a decimal digit.
fn digit_str(v: u32) -> (r: &'static str)
    requires
        v < 10,
    ensures
        r@ == seq![dec_digit(v as int)],
{
    match v {
        0 => {
            proof {
                reveal_strlit("0");
                assert("0"@ =~= seq!['0']);
            }
            "0"
        },
        1 => {
            proof {
                reveal_strlit("1");
                assert("1"@ =~= seq!['1']);
            }
            "1"
        },
        2 => {
            proof {
                reveal_strlit("2");
                assert("2"@ =~= seq!['2']);
            }
            "2"
        },
        3 => {
            proof {
                reveal_strlit("3");
                assert("3"@ =~= seq!['3']);
            }
            "3"
        },
        4 => {
            proof {
                reveal_strlit("4");
                assert("4"@ =~= seq!['4']);
            }
            "4"
        },
        5 => {
            proof {
                reveal_strlit("5");
                assert("5"@ =~= seq!['5']);
            }
            "5"
        },
        6 => {
            proof {
                reveal_strlit("6");
                assert("6"@ =~= seq!['6']);
            }
            "6"
        },
        7 => {
            proof {
                reveal_strlit("7");
                assert("7"@ =~= seq!['7']);
            }
            "7"
        },
        8 => {
            proof {
                reveal_strlit("8");
                assert("8"@ =~= seq!['8']);
            }
            "8"
        },
        _ => {
            proof {
                reveal_strlit("9");
                assert("9"@ =~= seq!['9']);
            }
            "9"
        },
    }
}

/// Appends the decimal digits of `v`.
fn push_decimal(s: &mut String, v: u32)
    ensures
        final(s)@ == old(s)@ + dec_digits(v as int),
    decreases v,
{
    if v < 10 {
        let d = digit_str(v);
        s.append(d);
    } else {
        push_decimal(s, v / 10);
        let d = digit_str(v % 10);
        s.append(d);
        proof {
            assert(old(s)@ + dec_digits((v / 10) as int) + seq![dec_digit((v % 10) as int)]
                =~= old(s)@ + dec_digits(v as int));
        }
    }
}

/// Appends `v` zero-padded to at least two digits.
fn push_pad2(s: &mut String, v: u32)
    ensures
        final(s)@ == old(s)@ + zero_pad(v as int, 2),
{
    proof {
        lemma_dec_digits_len(v as int);
    }
    if v < 10 {
        s.append("0");
        push_decimal(s, v);
        proof {
            reveal_strlit("0");
            assert("0"@ =~= Seq::new(1nat, |i: int| '0'));
            assert(old(s)@ + "0"@ + dec_digits(v as int) =~= old(s)@ + zero_pad(v as int, 2));
        }
    } else {
        push_decimal(s, v);
    }
}

/// Appends `v` zero-padded to at least four digits.
fn push_pad4(s: &mut String, v: u32)
    ensures
        final(s)@ == old(s)@ + zero_pad(v as int, 4),
{
    proof {
        lemma_dec_digits_len(v as int);
    }
    if v < 10 {
        s.append("000");
        push_decimal(s, v);
        proof {
            reveal_strlit("000");
            assert("000"@ =~= Seq::new(3nat, |i: int| '0'));
            assert(old(s)@ + "000"@ + dec_digits(v as int) =~= old(s)@ + zero_pad(v as int, 4));
        }
    } else if v < 100 {
        s.append("00");
        push_decimal(s, v);
        proof {
            reveal_strlit("00");
            assert("00"@ =~= Seq::new(2nat, |i: int| '0'));
            assert(old(s)@ + "00"@ + dec_digits(v as int) =~= old(s)@ + zero_pad(v as int, 4));
        }
    } else if v < 1000 {
        s.append("0");
        push_decimal(s, v);
        proof {
            reveal_strlit("0");
            assert("0"@ =~= Seq::new(1nat, |i: int| '0'));
            assert(old(s)@ + "0"@ + dec_digits(v as int) =~= old(s)@ + zero_pad(v as int, 4));
        }
    } else {
        push_decimal(s, v);
    }
}

impl SaveTimestamp {
    /// The date rendered as `YYYY-MM-DD`, with more year digits when the
    /// packed year needs them.
    pub open spec fn iso_date_spec(&self) -> Seq<char> {
        zero_pad(self.year_spec() as int, 4) + seq!['-'] + zero_pad(self.month_spec() as int, 2)
            + seq!['-'] + zero_pad(self.day_spec() as int, 2)
    }

    /// The time of day rendered as `HH:MM`.
    pub open spec fn iso_time_spec(&self) -> Seq<char> {
        zero_pad(self.hour_spec() as int, 2) + seq![':'] + zero_pad(self.minute_spec() as int, 2)
    }

    /// Renders the date as `YYYY-MM-DD`.
    pub fn to_iso_date(&self) -> (r: String)
        ensures
            r@ == self.iso_date_spec(),
    {
        let mut s = String::new();
        push_pad4(&mut s, self.year());
        s.append("-");
        push_pad2(&mut s, self.month() as u32);
        s.append("-");
        push_pad2(&mut s, self.day() as u32);
        proof {
            reveal_strlit("-");
            assert("-"@ =~= seq!['-']);
            assert(s@ =~= self.iso_date_spec());
        }
        s
    }

    /// Renders the time of day as `HH:MM`.
    pub fn to_iso_time(&self) -> (r: String)
        ensures
            r@ == self.iso_time_spec(),
    {
        let mut s = String::new();
        push_pad2(&mut s, self.hour() as u32);
        s.append(":");
        push_pad2(&mut s, self.minute() as u32);
        proof {
            reveal_strlit(":");
            assert(":"@ =~= seq![':']);
            assert(s@ =~= self.iso_time_spec());
        }
        s
    }
}

} // verus!
