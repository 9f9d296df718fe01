//! The inventory region: typed item slots, their categories, and the
//! per-category slot arrays with aliasing-safe dual mutable access.

use crate::codec::le16;
use crate::codec::le32;
use crate::codec::read_u16;
use crate::codec::read_u32;
use crate::codec::read_u8;
use crate::codec::unchanged_outside;
use crate::codec::write_u16;
use crate::codec::write_u32;
use crate::codec::write_u8;
use vstd::prelude::*;

verus! {

/// Number of accessory slots in the inventory.
pub const ITEM_ACCESSORY_MAX: usize = 1500;

/// Number of cylinder slots.
pub const ITEM_CYLINDER_MAX: usize = 16;

/// Number of gem slots.
pub const ITEM_GEM_MAX: usize = 300;

/// Number of collectible slots.
pub const ITEM_COLLECTION_MAX: usize = 1500;

/// Number of info slots (discussion info dialogues).
pub const ITEM_INFO_MAX: usize = 800;

/// Number of key item slots.
pub const ITEM_PRECIOUS_MAX: usize = 200;

/// Number of exchange slots (unused item type).
pub const ITEM_EXCHANGE_MAX: usize = 16;

/// Number of extra slots.
pub const ITEM_EXTRA_MAX: usize = 64;

/// The item identifier that marks a crafted accessory.
pub const CRAFTED_ITEM_ID: u16 = 0x4fff;

/// Encoded size of one item slot record.
pub const ITEM_SLOT_SIZE: usize = 16;

/// The slot has an item inside.
pub const SLOT_FLAG_ACTIVE: u8 = 1;

/// The player has marked the item as favorite.
pub const SLOT_FLAG_FAVORITE: u8 = 2;

/// The small circle icon for items not yet checked.
pub const SLOT_FLAG_NEW: u8 = 4;

/// Whether the item has crafted accessory data associated to it.
pub const SLOT_FLAG_HAS_CRAFT_DATA: u8 = 8;

/// An item slot in the player's inventory.
///
/// A slot's `item_type` field is only meaningful when the Active flag is
/// set.
#[derive(Debug, Clone, Copy, PartialEq, Eq, Structural)]
pub struct ItemSlot {
    pub item_id: u16,
    pub slot_index: u16,
    pub item_type: u32,
    pub chronological_id: u32,
    pub amount: u16,
    pub flags: u8,
}

/// A claimed DLC manual's inventory location.
#[derive(Debug, Clone, Copy, PartialEq, Eq, Structural)]
pub struct DlcManualSlot {
    pub item_id: u16,
    pub inventory_slot_index: u16,
    pub item_type: u16,
}

/// The fixed item-type partitions of the inventory.
#[derive(Debug, Clone, Copy, PartialEq, Eq, Structural)]
pub enum ItemType {
    Cylinder,
    Gem,
    Collection,
    Info,
    Accessory,
    Collectopedia,
    Precious,
    Exchange,
    Extra,
}

/// An integer that names no item type.
#[derive(Debug, Clone, Copy, PartialEq, Eq, Structural)]
pub struct TypeFromIntError(pub u32);

/// The numeric tag of an item type as stored in a slot record.
pub open spec fn item_type_code(t: ItemType) -> u32 {
    match t {
        ItemType::Cylinder => 1u32,
        ItemType::Gem => 2u32,
        ItemType::Collection => 3u32,
        ItemType::Info => 4u32,
        ItemType::Accessory => 5u32,
        ItemType::Collectopedia => 6u32,
        ItemType::Precious => 7u32,
        ItemType::Exchange => 8u32,
        ItemType::Extra => 9u32,
    }
}

impl ItemSlot {
    /// The slot a byte region holds: little-endian fields at their fixed
    /// offsets (the final byte of the record is padding).
    pub open spec fn decoded(region: Seq<u8>) -> ItemSlot {
        ItemSlot {
            item_id: le16(region, 0) as u16,
            slot_index: le16(region, 2) as u16,
            item_type: le32(region, 4) as u32,
            chronological_id: le32(region, 8) as u32,
            amount: le16(region, 0xc) as u16,
            flags: region[0xe],
        }
    }

    /// Reads the slot record at `off`.
    pub fn read_at(buf: &[u8], off: usize) -> (r: Self)
        requires
            off + ITEM_SLOT_SIZE <= buf.len(),
        ensures
            r == Self::decoded(buf@.subrange(off as int, off as int + ITEM_SLOT_SIZE as int)),
    {
        let r = ItemSlot {
            item_id: read_u16(buf, off),
            slot_index: read_u16(buf, off + 2),
            item_type: read_u32(buf, off + 4),
            chronological_id: read_u32(buf, off + 8),
            amount: read_u16(buf, off + 0xc),
            flags: read_u8(buf, off + 0xe),
        };
        proof {
            let region = buf@.subrange(off as int, off as int + ITEM_SLOT_SIZE as int);
            assert(le16(region, 0) == le16(buf@, off as int));
            assert(le16(region, 2) == le16(buf@, off as int + 2));
            assert(le32(region, 4) == le32(buf@, off as int + 4));
            assert(le32(region, 8) == le32(buf@, off as int + 8));
            assert(le16(region, 0xc) == le16(buf@, off as int + 0xc));
            assert(region[0xe] == buf@[off as int + 0xe]);
        }
        r
    }

    /// Writes the slot record at `off`, leaving all other bytes (including
    /// the record's padding byte) as they were.
    pub fn write_at(&self, buf: &mut Vec<u8>, off: usize)
        requires
            off + ITEM_SLOT_SIZE <= old(buf).len(),
        ensures
            final(buf).len() == old(buf).len(),
            Self::decoded(final(buf)@.subrange(off as int, off as int + ITEM_SLOT_SIZE as int))
                == *self,
            unchanged_outside(old(buf)@, final(buf)@, off as int, ITEM_SLOT_SIZE as int),
    {
        write_u16(buf, off, self.item_id);
        write_u16(buf, off + 2, self.slot_index);
        write_u32(buf, off + 4, self.item_type);
        write_u32(buf, off + 8, self.chronological_id);
        write_u16(buf, off + 0xc, self.amount);
        write_u8(buf, off + 0xe, self.flags);
        proof {
            let region = final(buf)@.subrange(off as int, off as int + ITEM_SLOT_SIZE as int);
            assert(le16(region, 0) == le16(final(buf)@, off as int));
            assert(le16(region, 2) == le16(final(buf)@, off as int + 2));
            assert(le32(region, 4) == le32(final(buf)@, off as int + 4));
            assert(le32(region, 8) == le32(final(buf)@, off as int + 8));
            assert(le16(region, 0xc) == le16(final(buf)@, off as int + 0xc));
            assert(region[0xe] == final(buf)@[off as int + 0xe]);
        }
    }

    /// Returns the slot's positional index.
    pub fn index(&self) -> (r: u16)
        ensures
            r == self.slot_index,
    {
        self.slot_index
    }

    /// Returns the slot's item ID.
    pub fn item_id(&self) -> (r: u16)
        ensures
            r == self.item_id,
    {
        self.item_id
    }

    /// Returns the slot's item amount.
    pub fn amount(&self) -> (r: u16)
        ensures
            r == self.amount,
    {
        self.amount
    }

    /// The slot is occupied by a valid item.
    pub open spec fn is_valid_spec(&self) -> bool {
        self.flags & SLOT_FLAG_ACTIVE != 0
    }

    /// Returns whether the slot is occupied by a valid item.
    pub fn is_valid(&self) -> (r: bool)
        ensures
            r == self.is_valid_spec(),
    {
        self.flags & SLOT_FLAG_ACTIVE != 0
    }

    /// Returns the slot's item type.
    ///
    /// An empty slot, or one whose type tag names no item type, is a
    /// caller error and is excluded by precondition.
    pub fn item_type(&self) -> (r: ItemType)
        requires
            self.is_valid_spec(),
            1 <= self.item_type <= 9,
        ensures
            item_type_code(r) == self.item_type,
    {
        match ItemType::try_from(self.item_type) {
            Ok(t) => t,
            Err(_) => {
                proof {
                    assert(false);
                }
                ItemType::Cylinder
            },
        }
    }

    /// Returns whether the slot hosts a crafted accessory.
    pub fn is_crafted_accessory(&self) -> (r: bool)
        ensures
            r <==> (self.is_valid_spec() && self.item_type == item_type_code(ItemType::Accessory)
                && self.item_id == CRAFTED_ITEM_ID),
    {
        self.is_valid() && self.item_type == 5 && self.item_id == CRAFTED_ITEM_ID
    }

    /// Returns the slot's chronological ID, the monotonically increasing
    /// stamp used for sort stability.
    pub fn chronological_id(&self) -> (r: u32)
        ensures
            r == self.chronological_id,
    {
        self.chronological_id
    }

    /// Replaces the slot's chronological ID.
    pub fn set_chronological_id(&mut self, chronological_id: u32)
        ensures
            *final(self) == (ItemSlot { chronological_id, ..*old(self) }),
    {
        self.chronological_id = chronological_id;
    }
}

impl DlcManualSlot {
    /// The record a byte region holds.
    pub open spec fn decoded(region: Seq<u8>) -> DlcManualSlot {
        DlcManualSlot {
            item_id: le16(region, 0) as u16,
            inventory_slot_index: le16(region, 2) as u16,
            item_type: le16(region, 4) as u16,
        }
    }

    /// Reads the record at `off`.
    pub fn read_at(buf: &[u8], off: usize) -> (r: Self)
        requires
            off + 6 <= buf.len(),
        ensures
            r == Self::decoded(buf@.subrange(off as int, off as int + 6)),
    {
        let r = DlcManualSlot {
            item_id: read_u16(buf, off),
            inventory_slot_index: read_u16(buf, off + 2),
            item_type: read_u16(buf, off + 4),
        };
        proof {
            let region = buf@.subrange(off as int, off as int + 6);
            assert(le16(region, 0) == le16(buf@, off as int));
            assert(le16(region, 2) == le16(buf@, off as int + 2));
            assert(le16(region, 4) == le16(buf@, off as int + 4));
        }
        r
    }

    /// Writes the record at `off`, leaving all other bytes as they were.
    pub fn write_at(&self, buf: &mut Vec<u8>, off: usize)
        requires
            off + 6 <= old(buf).len(),
        ensures
            final(buf).len() == old(buf).len(),
            Self::decoded(final(buf)@.subrange(off as int, off as int + 6)) == *self,
            unchanged_outside(old(buf)@, final(buf)@, off as int, 6),
    {
        write_u16(buf, off, self.item_id);
        write_u16(buf, off + 2, self.inventory_slot_index);
        write_u16(buf, off + 4, self.item_type);
        proof {
            let region = final(buf)@.subrange(off as int, off as int + 6);
            assert(le16(region, 0) == le16(final(buf)@, off as int));
            assert(le16(region, 2) == le16(final(buf)@, off as int + 2));
            assert(le16(region, 4) == le16(final(buf)@, off as int + 4));
        }
    }
}

impl ItemType {
    /// The category owning an item identifier.
    ///
    /// The true identifier-range partition belongs to the game's data
    /// tables; this classifier stands in for that collaborator with fixed
    /// `0x1000`-wide identifier bands over the eight array-backed
    /// categories.
    pub open spec fn spec_by_item_id(item_id: u16) -> ItemType {
        let band = item_id / 0x1000;
        if band == 0 {
            ItemType::Cylinder
        } else if band == 1 {
            ItemType::Gem
        } else if band == 2 {
            ItemType::Collection
        } else if band == 3 {
            ItemType::Info
        } else if band == 4 {
            ItemType::Accessory
        } else if band == 5 {
            ItemType::Precious
        } else if band == 6 {
            ItemType::Exchange
        } else {
            ItemType::Extra
        }
    }

    /// Classifies an item identifier into its owning category; never the
    /// array-less collectopedia category.
    pub fn get_by_item_id(item_id: u16) -> (r: Self)
        ensures
            r == Self::spec_by_item_id(item_id),
            r != ItemType::Collectopedia,
    {
        let band = item_id / 0x1000;
        if band == 0 {
            ItemType::Cylinder
        } else if band == 1 {
            ItemType::Gem
        } else if band == 2 {
            ItemType::Collection
        } else if band == 3 {
            ItemType::Info
        } else if band == 4 {
            ItemType::Accessory
        } else if band == 5 {
            ItemType::Precious
        } else if band == 6 {
            ItemType::Exchange
        } else {
            ItemType::Extra
        }
    }

    /// The label key for this item type.
    pub fn lang_id(self) -> (r: &'static str)
        ensures
            self is Cylinder ==> r@ == "cylinder"@,
            self is Gem ==> r@ == "gem"@,
            self is Collection ==> r@ == "collection"@,
            self is Collectopedia ==> r@ == "collepedia"@,
            self is Info ==> r@ == "info"@,
            self is Accessory ==> r@ == "accessory"@,
            self is Precious ==> r@ == "precious"@,
            self is Exchange ==> r@ == "exchange"@,
            self is Extra ==> r@ == "extra"@,
    {
        match self {
            Self::Cylinder => "cylinder",
            Self::Gem => "gem",
            Self::Collection => "collection",
            Self::Collectopedia => "collepedia",
            Self::Info => "info",
            Self::Accessory => "accessory",
            Self::Precious => "precious",
            Self::Exchange => "exchange",
            Self::Extra => "extra",
        }
    }

    /// The item type named by a slot record's numeric tag, or an error
    /// carrying the unknown tag.
    pub fn try_from(value: u32) -> (r: Result<Self, TypeFromIntError>)
        ensures
            r is Ok <==> 1 <= value <= 9,
            r matches Ok(t) ==> item_type_code(t) == value,
            r matches Err(e) ==> e == (TypeFromIntError(value)),
    {
        match value {
            1 => Ok(Self::Cylinder),
            2 => Ok(Self::Gem),
            3 => Ok(Self::Collection),
            4 => Ok(Self::Info),
            5 => Ok(Self::Accessory),
            6 => Ok(Self::Collectopedia),
            7 => Ok(Self::Precious),
            8 => Ok(Self::Exchange),
            9 => Ok(Self::Extra),
            i => Err(TypeFromIntError(i)),
        }
    }
}

/// Offset of the cylinder array within the inventory region.
pub const INV_CYLINDERS_OFF: usize = 0x28;

/// Offset of the gem array within the inventory region.
pub const INV_GEMS_OFF: usize = INV_CYLINDERS_OFF + ITEM_SLOT_SIZE * ITEM_CYLINDER_MAX;

/// Offset of the collectible array within the inventory region.
pub const INV_COLLECTIBLES_OFF: usize = INV_GEMS_OFF + ITEM_SLOT_SIZE * ITEM_GEM_MAX;

/// Offset of the info array within the inventory region.
pub const INV_INFOS_OFF: usize = INV_COLLECTIBLES_OFF + ITEM_SLOT_SIZE * ITEM_COLLECTION_MAX;

/// Offset of the accessory array within the inventory region.
pub const INV_ACCESSORIES_OFF: usize = INV_INFOS_OFF + ITEM_SLOT_SIZE * ITEM_INFO_MAX;

/// Offset of the key item array within the inventory region.
pub const INV_KEY_ITEMS_OFF: usize = INV_ACCESSORIES_OFF + ITEM_SLOT_SIZE * ITEM_ACCESSORY_MAX;

/// Offset of the exchange array within the inventory region.
pub const INV_EXCHANGE_OFF: usize = INV_KEY_ITEMS_OFF + ITEM_SLOT_SIZE * ITEM_PRECIOUS_MAX;

/// Offset of the extra array within the inventory region.
pub const INV_EXTRA_OFF: usize = INV_EXCHANGE_OFF + ITEM_SLOT_SIZE * ITEM_EXCHANGE_MAX;

/// Encoded size of the whole inventory region.
pub const INVENTORY_SIZE: usize = INV_EXTRA_OFF + ITEM_SLOT_SIZE * ITEM_EXTRA_MAX;

/// The run of `n` slot records starting at `off`.
pub open spec fn decoded_slots(b: Seq<u8>, off: int, n: int) -> Seq<ItemSlot> {
    Seq::new(n as nat, |k: int| ItemSlot::decoded(b.subrange(off + 16 * k, off + 16 * k + 16)))
}

/// A slot run reads the same through an enclosing subrange as through the
/// whole buffer.
proof fn lemma_decoded_slots_shift(b: Seq<u8>, off: int, size: int, inner: int, n: int)
    requires
        0 <= off,
        0 <= inner,
        0 <= n,
        inner + 16 * n <= size,
        off + size <= b.len(),
    ensures
        decoded_slots(b.subrange(off, off + size), inner, n) == decoded_slots(b, off + inner, n),
{
    let region = b.subrange(off, off + size);
    assert forall|k: int| 0 <= k < n implies decoded_slots(region, inner, n)[k] == decoded_slots(
        b,
        off + inner,
        n,
    )[k] by {
        assert(region.subrange(inner + 16 * k, inner + 16 * k + 16) =~= b.subrange(
            off + inner + 16 * k,
            off + inner + 16 * k + 16,
        ));
    }
    assert(decoded_slots(region, inner, n) =~= decoded_slots(b, off + inner, n));
}

/// The index of the first slot holding `id`, or `-1` when none does.
pub open spec fn first_match(s: Seq<ItemSlot>, id: u16) -> int
    decreases s.len(),
{
    if s.len() == 0 {
        -1
    } else if s[0].item_id == id {
        0
    } else if first_match(s.skip(1), id) < 0 {
        -1
    } else {
        1 + first_match(s.skip(1), id)
    }
}

/// Some slot in `s` holds `id`.
pub open spec fn has_slot(s: Seq<ItemSlot>, id: u16) -> bool {
    exists|i: int| 0 <= i < s.len() && s[i].item_id == id
}

/// When slot `j` holds `id` and no earlier slot does, `j` is the first
/// match.
proof fn lemma_first_match_at(s: Seq<ItemSlot>, id: u16, j: int)
    requires
        0 <= j < s.len(),
        s[j].item_id == id,
        forall|k: int| 0 <= k < j ==> s[k].item_id != id,
    ensures
        first_match(s, id) == j,
    decreases j,
{
    if j == 0 {
    } else {
        let t = s.skip(1);
        assert(forall|k: int| 0 <= k < j - 1 ==> #[trigger] t[k].item_id == s[k + 1].item_id);
        assert(t[j - 1] == s[j]);
        lemma_first_match_at(t, id, j - 1);
    }
}

/// When no slot holds `id`, there is no first match.
proof fn lemma_first_match_none(s: Seq<ItemSlot>, id: u16)
    requires
        forall|k: int| 0 <= k < s.len() ==> s[k].item_id != id,
    ensures
        first_match(s, id) == -1,
    decreases s.len(),
{
    if s.len() > 0 {
        let t = s.skip(1);
        assert(forall|k: int| 0 <= k < t.len() ==> #[trigger] t[k].item_id == s[k + 1].item_id);
        lemma_first_match_none(t, id);
    }
}

/// The index of the first slot holding `id`, or `None` when no slot does.
fn position_of(slots: &[ItemSlot], id: u16) -> (r: Option<usize>)
    ensures
        r is Some <==> has_slot(slots@, id),
        r matches Some(j) ==> j as int == first_match(slots@, id) && j < slots@.len()
            && slots@[j as int].item_id == id,
{
    let n = slots.len();
    let mut j: usize = 0;
    while j < n
        invariant
            n == slots@.len(),
            j <= n,
            forall|k: int| 0 <= k < j ==> slots@[k].item_id != id,
        decreases n - j,
    {
        if slots[j].item_id == id {
            proof {
                lemma_first_match_at(slots@, id, j as int);
            }
            return Some(j);
        }
        j += 1;
    }
    proof {
        lemma_first_match_none(slots@, id);
    }
    None
}

/// The inventory region: one fixed-size slot array per item category.
pub struct Inventory {
    /// The highest chronological ID handed out so far.
    pub chronological_id_max: u32,
    /// `ITM_Cylinder`
    pub cylinders: Vec<ItemSlot>,
    /// `ITM_Gem`
    pub gems: Vec<ItemSlot>,
    /// `ITM_Collection`
    pub collectibles: Vec<ItemSlot>,
    /// `ITM_Info`, discussion info dialogues
    pub infos: Vec<ItemSlot>,
    /// `ITM_Accessory`
    pub accessories: Vec<ItemSlot>,
    /// `ITM_Precious`
    pub key_items: Vec<ItemSlot>,
    /// `ITM_Exchange` (unused item type)
    pub exchange: Vec<ItemSlot>,
    /// `ITM_Extra`
    pub extra: Vec<ItemSlot>,
}

impl Inventory {
    /// Every category array holds exactly its fixed number of slots.
    pub open spec fn wf(&self) -> bool {
        &&& self.cylinders@.len() == ITEM_CYLINDER_MAX
        &&& self.gems@.len() == ITEM_GEM_MAX
        &&& self.collectibles@.len() == ITEM_COLLECTION_MAX
        &&& self.infos@.len() == ITEM_INFO_MAX
        &&& self.accessories@.len() == ITEM_ACCESSORY_MAX
        &&& self.key_items@.len() == ITEM_PRECIOUS_MAX
        &&& self.exchange@.len() == ITEM_EXCHANGE_MAX
        &&& self.extra@.len() == ITEM_EXTRA_MAX
    }

    /// The slot array backing a category; the collectopedia has none.
    pub open spec fn slots_spec(&self, t: ItemType) -> Seq<ItemSlot> {
        match t {
            ItemType::Cylinder => self.cylinders@,
            ItemType::Gem => self.gems@,
            ItemType::Collection => self.collectibles@,
            ItemType::Info => self.infos@,
            ItemType::Accessory => self.accessories@,
            ItemType::Collectopedia => Seq::empty(),
            ItemType::Precious => self.key_items@,
            ItemType::Exchange => self.exchange@,
            ItemType::Extra => self.extra@,
        }
    }

    /// An identifier's owning category holds a slot for it.
    pub open spec fn has_item(&self, id: u16) -> bool {
        has_slot(self.slots_spec(ItemType::spec_by_item_id(id)), id)
    }

    /// The position of an identifier's first slot within its owning
    /// category's array.
    pub open spec fn slot_pos(&self, id: u16) -> int {
        first_match(self.slots_spec(ItemType::spec_by_item_id(id)), id)
    }

    /// The first slot holding an identifier.
    pub open spec fn slot_at(&self, id: u16) -> ItemSlot {
        self.slots_spec(ItemType::spec_by_item_id(id))[self.slot_pos(id)]
    }

    /// The full backing array for a category, inactive slots included.
    /// The array-less collectopedia category is excluded by precondition.
    pub fn slots(&self, item_type: ItemType) -> (r: &[ItemSlot])
        requires
            item_type != ItemType::Collectopedia,
        ensures
            r@ == self.slots_spec(item_type),
    {
        match item_type {
            ItemType::Cylinder => self.cylinders.as_slice(),
            ItemType::Gem => self.gems.as_slice(),
            ItemType::Collection => self.collectibles.as_slice(),
            ItemType::Info => self.infos.as_slice(),
            ItemType::Accessory => self.accessories.as_slice(),
            ItemType::Precious => self.key_items.as_slice(),
            ItemType::Exchange => self.exchange.as_slice(),
            ItemType::Extra => self.extra.as_slice(),
            ItemType::Collectopedia => {
                proof {
                    assert(false);
                }
                self.cylinders.as_slice()
            },
        }
    }

    /// The full backing array for a category, mutably. Writes through the
    /// returned slice land in that category's array and nowhere else.
    pub fn slots_mut(&mut self, item_type: ItemType) -> (r: &mut [ItemSlot])
        requires
            item_type != ItemType::Collectopedia,
        ensures
            r@ == old(self).slots_spec(item_type),
            final(self).slots_spec(item_type) == final(r)@,
            forall|u: ItemType| u != item_type ==> final(self).slots_spec(u) == old(
                self,
            ).slots_spec(u),
            final(self).chronological_id_max == old(self).chronological_id_max,
    {
        match item_type {
            ItemType::Cylinder => self.cylinders.as_mut_slice(),
            ItemType::Gem => self.gems.as_mut_slice(),
            ItemType::Collection => self.collectibles.as_mut_slice(),
            ItemType::Info => self.infos.as_mut_slice(),
            ItemType::Accessory => self.accessories.as_mut_slice(),
            ItemType::Precious => self.key_items.as_mut_slice(),
            ItemType::Exchange => self.exchange.as_mut_slice(),
            ItemType::Extra => self.extra.as_mut_slice(),
            ItemType::Collectopedia => {
                proof {
                    assert(false);
                }
                self.cylinders.as_mut_slice()
            },
        }
    }
}

impl Inventory {
    /// Two distinct categories' backing arrays, mutably and at once. The
    /// arrays are distinct named fields, so the two borrows never alias.
    fn category_pair_mut(&mut self, a: ItemType, b: ItemType) -> (r: (
        &mut Vec<ItemSlot>,
        &mut Vec<ItemSlot>,
    ))
        requires
            a != b,
            a != ItemType::Collectopedia,
            b != ItemType::Collectopedia,
        ensures
            (*r.0)@ == old(self).slots_spec(a),
            (*r.1)@ == old(self).slots_spec(b),
            final(self).slots_spec(a) == (*final(r.0))@,
            final(self).slots_spec(b) == (*final(r.1))@,
            forall|u: ItemType|
                u != a && u != b ==> final(self).slots_spec(u) == old(self).slots_spec(u),
            final(self).chronological_id_max == old(self).chronological_id_max,
    {
        match (a, b) {
            (ItemType::Cylinder, ItemType::Gem) => (&mut self.cylinders, &mut self.gems),
            (ItemType::Cylinder, ItemType::Collection) => (&mut self.cylinders, &mut self.collectibles),
            (ItemType::Cylinder, ItemType::Info) => (&mut self.cylinders, &mut self.infos),
            (ItemType::Cylinder, ItemType::Accessory) => (&mut self.cylinders, &mut self.accessories),
            (ItemType::Cylinder, ItemType::Precious) => (&mut self.cylinders, &mut self.key_items),
            (ItemType::Cylinder, ItemType::Exchange) => (&mut self.cylinders, &mut self.exchange),
            (ItemType::Cylinder, ItemType::Extra) => (&mut self.cylinders, &mut self.extra),
            (ItemType::Gem, ItemType::Cylinder) => (&mut self.gems, &mut self.cylinders),
            (ItemType::Gem, ItemType::Collection) => (&mut self.gems, &mut self.collectibles),
            (ItemType::Gem, ItemType::Info) => (&mut self.gems, &mut self.infos),
            (ItemType::Gem, ItemType::Accessory) => (&mut self.gems, &mut self.accessories),
            (ItemType::Gem, ItemType::Precious) => (&mut self.gems, &mut self.key_items),
            (ItemType::Gem, ItemType::Exchange) => (&mut self.gems, &mut self.exchange),
            (ItemType::Gem, ItemType::Extra) => (&mut self.gems, &mut self.extra),
            (ItemType::Collection, ItemType::Cylinder) => (&mut self.collectibles, &mut self.cylinders),
            (ItemType::Collection, ItemType::Gem) => (&mut self.collectibles, &mut self.gems),
            (ItemType::Collection, ItemType::Info) => (&mut self.collectibles, &mut self.infos),
            (ItemType::Collection, ItemType::Accessory) => (&mut self.collectibles, &mut self.accessories),
            (ItemType::Collection, ItemType::Precious) => (&mut self.collectibles, &mut self.key_items),
            (ItemType::Collection, ItemType::Exchange) => (&mut self.collectibles, &mut self.exchange),
            (ItemType::Collection, ItemType::Extra) => (&mut self.collectibles, &mut self.extra),
            (ItemType::Info, ItemType::Cylinder) => (&mut self.infos, &mut self.cylinders),
            (ItemType::Info, ItemType::Gem) => (&mut self.infos, &mut self.gems),
            (ItemType::Info, ItemType::Collection) => (&mut self.infos, &mut self.collectibles),
            (ItemType::Info, ItemType::Accessory) => (&mut self.infos, &mut self.accessories),
            (ItemType::Info, ItemType::Precious) => (&mut self.infos, &mut self.key_items),
            (ItemType::Info, ItemType::Exchange) => (&mut self.infos, &mut self.exchange),
            (ItemType::Info, ItemType::Extra) => (&mut self.infos, &mut self.extra),
            (ItemType::Accessory, ItemType::Cylinder) => (&mut self.accessories, &mut self.cylinders),
            (ItemType::Accessory, ItemType::Gem) => (&mut self.accessories, &mut self.gems),
            (ItemType::Accessory, ItemType::Collection) => (&mut self.accessories, &mut self.collectibles),
            (ItemType::Accessory, ItemType::Info) => (&mut self.accessories, &mut self.infos),
            (ItemType::Accessory, ItemType::Precious) => (&mut self.accessories, &mut self.key_items),
            (ItemType::Accessory, ItemType::Exchange) => (&mut self.accessories, &mut self.exchange),
            (ItemType::Accessory, ItemType::Extra) => (&mut self.accessories, &mut self.extra),
            (ItemType::Precious, ItemType::Cylinder) => (&mut self.key_items, &mut self.cylinders),
            (ItemType::Precious, ItemType::Gem) => (&mut self.key_items, &mut self.gems),
            (ItemType::Precious, ItemType::Collection) => (&mut self.key_items, &mut self.collectibles),
            (ItemType::Precious, ItemType::Info) => (&mut self.key_items, &mut self.infos),
            (ItemType::Precious, ItemType::Accessory) => (&mut self.key_items, &mut self.accessories),
            (ItemType::Precious, ItemType::Exchange) => (&mut self.key_items, &mut self.exchange),
            (ItemType::Precious, ItemType::Extra) => (&mut self.key_items, &mut self.extra),
            (ItemType::Exchange, ItemType::Cylinder) => (&mut self.exchange, &mut self.cylinders),
            (ItemType::Exchange, ItemType::Gem) => (&mut self.exchange, &mut self.gems),
            (ItemType::Exchange, ItemType::Collection) => (&mut self.exchange, &mut self.collectibles),
            (ItemType::Exchange, ItemType::Info) => (&mut self.exchange, &mut self.infos),
            (ItemType::Exchange, ItemType::Accessory) => (&mut self.exchange, &mut self.accessories),
            (ItemType::Exchange, ItemType::Precious) => (&mut self.exchange, &mut self.key_items),
            (ItemType::Exchange, ItemType::Extra) => (&mut self.exchange, &mut self.extra),
            (ItemType::Extra, ItemType::Cylinder) => (&mut self.extra, &mut self.cylinders),
            (ItemType::Extra, ItemType::Gem) => (&mut self.extra, &mut self.gems),
            (ItemType::Extra, ItemType::Collection) => (&mut self.extra, &mut self.collectibles),
            (ItemType::Extra, ItemType::Info) => (&mut self.extra, &mut self.infos),
            (ItemType::Extra, ItemType::Accessory) => (&mut self.extra, &mut self.accessories),
            (ItemType::Extra, ItemType::Precious) => (&mut self.extra, &mut self.key_items),
            (ItemType::Extra, ItemType::Exchange) => (&mut self.extra, &mut self.exchange),
            _ => {
                proof {
                    assert(false);
                }
                (&mut self.cylinders, &mut self.gems)
            },
        }
    }
}


/// Mutable references to two distinct elements of one slot array,
/// obtained by splitting the array at the larger index.
fn two_elems_mut(s: &mut [ItemSlot], i: usize, j: usize) -> (r: (&mut ItemSlot, &mut ItemSlot))
    requires
        i < old(s).len(),
        j < old(s).len(),
        i != j,
    ensures
        *r.0 == old(s)@[i as int],
        *r.1 == old(s)@[j as int],
        final(s)@.len() == old(s)@.len(),
        final(s)@[i as int] == *final(r.0),
        final(s)@[j as int] == *final(r.1),
        forall|k: int|
            0 <= k < old(s)@.len() && k != i && k != j ==> final(s)@[k] == old(s)@[k],
{
    if i > j {
        let (left, right) = s.split_at_mut(i);
        let (_low, mid) = left.split_at_mut(j);
        let ra = right.first_mut().unwrap();
        let rb = mid.first_mut().unwrap();
        (ra, rb)
    } else {
        let (left, right) = s.split_at_mut(j);
        let (_low, mid) = left.split_at_mut(i);
        let rb = right.first_mut().unwrap();
        let ra = mid.first_mut().unwrap();
        (ra, rb)
    }
}

impl Inventory {
    /// Simultaneously mutable references to the slots of two distinct item
    /// identifiers, each located by first match within its owning category.
    ///
    /// The two references never alias, so writes through one are never seen
    /// through the other: within one category the backing array is split at
    /// the larger index, and two different categories are distinct arrays.
    /// An identifier without a slot is a caller error and is excluded by
    /// precondition.
    pub fn split_slots_mut(&mut self, id_a: u16, id_b: u16) -> (r: (&mut ItemSlot, &mut ItemSlot))
        requires
            old(self).wf(),
            id_a != id_b,
            old(self).has_item(id_a),
            old(self).has_item(id_b),
        ensures
            *r.0 == old(self).slot_at(id_a),
            *r.1 == old(self).slot_at(id_b),
            final(self).slots_spec(ItemType::spec_by_item_id(id_a)).len() == old(self).slots_spec(
                ItemType::spec_by_item_id(id_a),
            ).len(),
            final(self).slots_spec(ItemType::spec_by_item_id(id_b)).len() == old(self).slots_spec(
                ItemType::spec_by_item_id(id_b),
            ).len(),
            final(self).slots_spec(ItemType::spec_by_item_id(id_a))[old(self).slot_pos(id_a)]
                == *final(r.0),
            final(self).slots_spec(ItemType::spec_by_item_id(id_b))[old(self).slot_pos(id_b)]
                == *final(r.1),
            ItemType::spec_by_item_id(id_a) == ItemType::spec_by_item_id(id_b) ==> old(self).slot_pos(
                id_a,
            ) != old(self).slot_pos(id_b),
            forall|u: ItemType, k: int|
                0 <= k < old(self).slots_spec(u).len() && !(u == ItemType::spec_by_item_id(id_a)
                    && k == old(self).slot_pos(id_a)) && !(u == ItemType::spec_by_item_id(id_b) && k
                    == old(self).slot_pos(id_b)) ==> final(self).slots_spec(u)[k] == old(
                    self,
                ).slots_spec(u)[k],
            forall|u: ItemType|
                final(self).slots_spec(u).len() == old(self).slots_spec(u).len(),
            final(self).chronological_id_max == old(self).chronological_id_max,
    {
        let ty_a = ItemType::get_by_item_id(id_a);
        let ty_b = ItemType::get_by_item_id(id_b);
        let idx_a = match position_of(self.slots(ty_a), id_a) {
            Some(i) => i,
            None => {
                proof {
                    assert(false);
                }
                0
            },
        };
        let idx_b = match position_of(self.slots(ty_b), id_b) {
            Some(i) => i,
            None => {
                proof {
                    assert(false);
                }
                0
            },
        };
        proof {
            assert(old(self).slots_spec(ty_a)[idx_a as int].item_id == id_a);
            assert(old(self).slots_spec(ty_b)[idx_b as int].item_id == id_b);
        }
        if ty_a == ty_b {
            proof {
                assert(idx_a != idx_b);
            }
            let slots = self.slots_mut(ty_a);
            two_elems_mut(slots, idx_a, idx_b)
        } else {
            let (va, vb) = self.category_pair_mut(ty_a, ty_b);
            let ra = &mut va[idx_a];
            let rb = &mut vb[idx_b];
            (ra, rb)
        }
    }
}

/// A slot run is unchanged when the written window lies outside it.
proof fn lemma_decoded_slots_unchanged(b1: Seq<u8>, b2: Seq<u8>, off: int, n: int, woff: int, wsize: int)
    requires
        unchanged_outside(b1, b2, woff, wsize),
        0 <= off,
        0 <= n,
        off + 16 * n <= b1.len(),
        off + 16 * n <= woff || woff + wsize <= off,
    ensures
        decoded_slots(b2, off, n) == decoded_slots(b1, off, n),
{
    assert forall|k: int| 0 <= k < n implies decoded_slots(b2, off, n)[k] == decoded_slots(
        b1,
        off,
        n,
    )[k] by {
        assert(b2.subrange(off + 16 * k, off + 16 * k + 16) =~= b1.subrange(
            off + 16 * k,
            off + 16 * k + 16,
        ));
    }
    assert(decoded_slots(b2, off, n) =~= decoded_slots(b1, off, n));
}

/// Reads `n` slot records starting at `off`.
fn read_slots(buf: &[u8], off: usize, n: usize) -> (r: Vec<ItemSlot>)
    requires
        off + ITEM_SLOT_SIZE * n <= buf.len(),
    ensures
        r@ == decoded_slots(buf@, off as int, n as int),
{
    let mut out: Vec<ItemSlot> = Vec::new();
    let mut k: usize = 0;
    while k < n
        invariant
            off + ITEM_SLOT_SIZE * n <= buf.len(),
            k <= n,
            out@.len() == k,
            forall|t: int|
                0 <= t < k ==> out@[t] == ItemSlot::decoded(
                    buf@.subrange(off + 16 * t, off + 16 * t + 16),
                ),
        decreases n - k,
    {
        let s = ItemSlot::read_at(buf, off + ITEM_SLOT_SIZE * k);
        out.push(s);
        k += 1;
    }
    proof {
        assert(out@ =~= decoded_slots(buf@, off as int, n as int));
    }
    out
}

/// Writes a run of slot records starting at `off`, leaving all other
/// bytes as they were.
fn write_slots(slots: &Vec<ItemSlot>, buf: &mut Vec<u8>, off: usize)
    requires
        off + ITEM_SLOT_SIZE * slots@.len() <= old(buf).len(),
    ensures
        final(buf).len() == old(buf).len(),
        decoded_slots(final(buf)@, off as int, slots@.len() as int) == slots@,
        unchanged_outside(old(buf)@, final(buf)@, off as int, 16 * slots@.len() as int),
{
    let n = slots.len();
    let mut k: usize = 0;
    while k < n
        invariant
            n == slots@.len(),
            off + ITEM_SLOT_SIZE * n <= old(buf).len(),
            k <= n,
            buf.len() == old(buf).len(),
            forall|t: int|
                0 <= t < k ==> ItemSlot::decoded(buf@.subrange(off + 16 * t, off + 16 * t + 16))
                    == slots@[t],
            unchanged_outside(old(buf)@, buf@, off as int, 16 * k as int),
        decreases n - k,
    {
        let ghost prev = buf@;
        let s = slots[k];
        s.write_at(buf, off + ITEM_SLOT_SIZE * k);
        proof {
            assert forall|t: int|
                0 <= t < k implies ItemSlot::decoded(
                buf@.subrange(off + 16 * t, off + 16 * t + 16),
            ) == slots@[t] by {
                assert(buf@.subrange(off + 16 * t, off + 16 * t + 16) =~= prev.subrange(
                    off + 16 * t,
                    off + 16 * t + 16,
                ));
            }
            assert forall|i: int|
                0 <= i < old(buf)@.len() && !(off <= i < off + 16 * (k + 1)) implies buf@[i] == old(
                buf,
            )@[i] by {
                assert(buf@[i] == prev[i]);
                assert(prev[i] == old(buf)@[i]);
            }
        }
        k += 1;
    }
    proof {
        assert(decoded_slots(final(buf)@, off as int, slots@.len() as int) =~= slots@);
    }
}

impl Inventory {
    /// The inventory a byte region holds.
    pub open spec fn matches_region(&self, region: Seq<u8>) -> bool {
        &&& self.chronological_id_max as int == le32(region, 0)
        &&& self.cylinders@ == decoded_slots(region, INV_CYLINDERS_OFF as int, ITEM_CYLINDER_MAX as int)
        &&& self.gems@ == decoded_slots(region, INV_GEMS_OFF as int, ITEM_GEM_MAX as int)
        &&& self.collectibles@ == decoded_slots(region, INV_COLLECTIBLES_OFF as int, ITEM_COLLECTION_MAX as int)
        &&& self.infos@ == decoded_slots(region, INV_INFOS_OFF as int, ITEM_INFO_MAX as int)
        &&& self.accessories@ == decoded_slots(region, INV_ACCESSORIES_OFF as int, ITEM_ACCESSORY_MAX as int)
        &&& self.key_items@ == decoded_slots(region, INV_KEY_ITEMS_OFF as int, ITEM_PRECIOUS_MAX as int)
        &&& self.exchange@ == decoded_slots(region, INV_EXCHANGE_OFF as int, ITEM_EXCHANGE_MAX as int)
        &&& self.extra@ == decoded_slots(region, INV_EXTRA_OFF as int, ITEM_EXTRA_MAX as int)
    }

    /// Reads the inventory region at `off`.
    pub fn read_at(buf: &[u8], off: usize) -> (r: Inventory)
        requires
            off + INVENTORY_SIZE <= buf.len(),
        ensures
            r.wf(),
            r.matches_region(buf@.subrange(off as int, off as int + INVENTORY_SIZE as int)),
    {
        let r = Inventory {
            chronological_id_max: read_u32(buf, off),
            cylinders: read_slots(buf, off + INV_CYLINDERS_OFF, ITEM_CYLINDER_MAX),
            gems: read_slots(buf, off + INV_GEMS_OFF, ITEM_GEM_MAX),
            collectibles: read_slots(buf, off + INV_COLLECTIBLES_OFF, ITEM_COLLECTION_MAX),
            infos: read_slots(buf, off + INV_INFOS_OFF, ITEM_INFO_MAX),
            accessories: read_slots(buf, off + INV_ACCESSORIES_OFF, ITEM_ACCESSORY_MAX),
            key_items: read_slots(buf, off + INV_KEY_ITEMS_OFF, ITEM_PRECIOUS_MAX),
            exchange: read_slots(buf, off + INV_EXCHANGE_OFF, ITEM_EXCHANGE_MAX),
            extra: read_slots(buf, off + INV_EXTRA_OFF, ITEM_EXTRA_MAX),
        };
        proof {
            let region = buf@.subrange(off as int, off as int + INVENTORY_SIZE as int);
            assert(le32(region, 0) == le32(buf@, off as int));
            lemma_decoded_slots_shift(buf@, off as int, INVENTORY_SIZE as int, INV_CYLINDERS_OFF as int, ITEM_CYLINDER_MAX as int);
            lemma_decoded_slots_shift(buf@, off as int, INVENTORY_SIZE as int, INV_GEMS_OFF as int, ITEM_GEM_MAX as int);
            lemma_decoded_slots_shift(buf@, off as int, INVENTORY_SIZE as int, INV_COLLECTIBLES_OFF as int, ITEM_COLLECTION_MAX as int);
            lemma_decoded_slots_shift(buf@, off as int, INVENTORY_SIZE as int, INV_INFOS_OFF as int, ITEM_INFO_MAX as int);
            lemma_decoded_slots_shift(buf@, off as int, INVENTORY_SIZE as int, INV_ACCESSORIES_OFF as int, ITEM_ACCESSORY_MAX as int);
            lemma_decoded_slots_shift(buf@, off as int, INVENTORY_SIZE as int, INV_KEY_ITEMS_OFF as int, ITEM_PRECIOUS_MAX as int);
            lemma_decoded_slots_shift(buf@, off as int, INVENTORY_SIZE as int, INV_EXCHANGE_OFF as int, ITEM_EXCHANGE_MAX as int);
            lemma_decoded_slots_shift(buf@, off as int, INVENTORY_SIZE as int, INV_EXTRA_OFF as int, ITEM_EXTRA_MAX as int);
        }
        r
    }

    /// Writes the inventory region at `off`, leaving all other bytes as
    /// they were.
    pub fn write_at(&self, buf: &mut Vec<u8>, off: usize)
        requires
            self.wf(),
            off + INVENTORY_SIZE <= old(buf).len(),
        ensures
            final(buf).len() == old(buf).len(),
            self.matches_region(final(buf)@.subrange(off as int, off as int + INVENTORY_SIZE as int)),
            unchanged_outside(old(buf)@, final(buf)@, off as int, INVENTORY_SIZE as int),
    {
        write_u32(buf, off, self.chronological_id_max);
        let ghost b0 = buf@;
        write_slots(&self.cylinders, buf, off + INV_CYLINDERS_OFF);
        proof {
            assert(le32(buf@, off as int) == self.chronological_id_max as int);
        }
        let ghost b1 = buf@;
        write_slots(&self.gems, buf, off + INV_GEMS_OFF);
        proof {
            assert(le32(buf@, off as int) == self.chronological_id_max as int);
            lemma_decoded_slots_unchanged(b1, buf@, off as int + INV_CYLINDERS_OFF as int, ITEM_CYLINDER_MAX as int, off as int + INV_GEMS_OFF as int, 16 * ITEM_GEM_MAX as int);
        }
        let ghost b2 = buf@;
        write_slots(&self.collectibles, buf, off + INV_COLLECTIBLES_OFF);
        proof {
            assert(le32(buf@, off as int) == self.chronological_id_max as int);
            lemma_decoded_slots_unchanged(b2, buf@, off as int + INV_CYLINDERS_OFF as int, ITEM_CYLINDER_MAX as int, off as int + INV_COLLECTIBLES_OFF as int, 16 * ITEM_COLLECTION_MAX as int);
            lemma_decoded_slots_unchanged(b2, buf@, off as int + INV_GEMS_OFF as int, ITEM_GEM_MAX as int, off as int + INV_COLLECTIBLES_OFF as int, 16 * ITEM_COLLECTION_MAX as int);
        }
        let ghost b3 = buf@;
        write_slots(&self.infos, buf, off + INV_INFOS_OFF);
        proof {
            assert(le32(buf@, off as int) == self.chronological_id_max as int);
            lemma_decoded_slots_unchanged(b3, buf@, off as int + INV_CYLINDERS_OFF as int, ITEM_CYLINDER_MAX as int, off as int + INV_INFOS_OFF as int, 16 * ITEM_INFO_MAX as int);
            lemma_decoded_slots_unchanged(b3, buf@, off as int + INV_GEMS_OFF as int, ITEM_GEM_MAX as int, off as int + INV_INFOS_OFF as int, 16 * ITEM_INFO_MAX as int);
            lemma_decoded_slots_unchanged(b3, buf@, off as int + INV_COLLECTIBLES_OFF as int, ITEM_COLLECTION_MAX as int, off as int + INV_INFOS_OFF as int, 16 * ITEM_INFO_MAX as int);
        }
        let ghost b4 = buf@;
        write_slots(&self.accessories, buf, off + INV_ACCESSORIES_OFF);
        proof {
            assert(le32(buf@, off as int) == self.chronological_id_max as int);
            lemma_decoded_slots_unchanged(b4, buf@, off as int + INV_CYLINDERS_OFF as int, ITEM_CYLINDER_MAX as int, off as int + INV_ACCESSORIES_OFF as int, 16 * ITEM_ACCESSORY_MAX as int);
            lemma_decoded_slots_unchanged(b4, buf@, off as int + INV_GEMS_OFF as int, ITEM_GEM_MAX as int, off as int + INV_ACCESSORIES_OFF as int, 16 * ITEM_ACCESSORY_MAX as int);
            lemma_decoded_slots_unchanged(b4, buf@, off as int + INV_COLLECTIBLES_OFF as int, ITEM_COLLECTION_MAX as int, off as int + INV_ACCESSORIES_OFF as int, 16 * ITEM_ACCESSORY_MAX as int);
            lemma_decoded_slots_unchanged(b4, buf@, off as int + INV_INFOS_OFF as int, ITEM_INFO_MAX as int, off as int + INV_ACCESSORIES_OFF as int, 16 * ITEM_ACCESSORY_MAX as int);
        }
        let ghost b5 = buf@;
        write_slots(&self.key_items, buf, off + INV_KEY_ITEMS_OFF);
        proof {
            assert(le32(buf@, off as int) == self.chronological_id_max as int);
            lemma_decoded_slots_unchanged(b5, buf@, off as int + INV_CYLINDERS_OFF as int, ITEM_CYLINDER_MAX as int, off as int + INV_KEY_ITEMS_OFF as int, 16 * ITEM_PRECIOUS_MAX as int);
            lemma_decoded_slots_unchanged(b5, buf@, off as int + INV_GEMS_OFF as int, ITEM_GEM_MAX as int, off as int + INV_KEY_ITEMS_OFF as int, 16 * ITEM_PRECIOUS_MAX as int);
            lemma_decoded_slots_unchanged(b5, buf@, off as int + INV_COLLECTIBLES_OFF as int, ITEM_COLLECTION_MAX as int, off as int + INV_KEY_ITEMS_OFF as int, 16 * ITEM_PRECIOUS_MAX as int);
            lemma_decoded_slots_unchanged(b5, buf@, off as int + INV_INFOS_OFF as int, ITEM_INFO_MAX as int, off as int + INV_KEY_ITEMS_OFF as int, 16 * ITEM_PRECIOUS_MAX as int);
            lemma_decoded_slots_unchanged(b5, buf@, off as int + INV_ACCESSORIES_OFF as int, ITEM_ACCESSORY_MAX as int, off as int + INV_KEY_ITEMS_OFF as int, 16 * ITEM_PRECIOUS_MAX as int);
        }
        let ghost b6 = buf@;
        write_slots(&self.exchange, buf, off + INV_EXCHANGE_OFF);
        proof {
            assert(le32(buf@, off as int) == self.chronological_id_max as int);
            lemma_decoded_slots_unchanged(b6, buf@, off as int + INV_CYLINDERS_OFF as int, ITEM_CYLINDER_MAX as int, off as int + INV_EXCHANGE_OFF as int, 16 * ITEM_EXCHANGE_MAX as int);
            lemma_decoded_slots_unchanged(b6, buf@, off as int + INV_GEMS_OFF as int, ITEM_GEM_MAX as int, off as int + INV_EXCHANGE_OFF as int, 16 * ITEM_EXCHANGE_MAX as int);
            lemma_decoded_slots_unchanged(b6, buf@, off as int + INV_COLLECTIBLES_OFF as int, ITEM_COLLECTION_MAX as int, off as int + INV_EXCHANGE_OFF as int, 16 * ITEM_EXCHANGE_MAX as int);
            lemma_decoded_slots_unchanged(b6, buf@, off as int + INV_INFOS_OFF as int, ITEM_INFO_MAX as int, off as int + INV_EXCHANGE_OFF as int, 16 * ITEM_EXCHANGE_MAX as int);
            lemma_decoded_slots_unchanged(b6, buf@, off as int + INV_ACCESSORIES_OFF as int, ITEM_ACCESSORY_MAX as int, off as int + INV_EXCHANGE_OFF as int, 16 * ITEM_EXCHANGE_MAX as int);
            lemma_decoded_slots_unchanged(b6, buf@, off as int + INV_KEY_ITEMS_OFF as int, ITEM_PRECIOUS_MAX as int, off as int + INV_EXCHANGE_OFF as int, 16 * ITEM_EXCHANGE_MAX as int);
        }
        let ghost b7 = buf@;
        write_slots(&self.extra, buf, off + INV_EXTRA_OFF);
        proof {
            assert(le32(buf@, off as int) == self.chronological_id_max as int);
            lemma_decoded_slots_unchanged(b7, buf@, off as int + INV_CYLINDERS_OFF as int, ITEM_CYLINDER_MAX as int, off as int + INV_EXTRA_OFF as int, 16 * ITEM_EXTRA_MAX as int);
            lemma_decoded_slots_unchanged(b7, buf@, off as int + INV_GEMS_OFF as int, ITEM_GEM_MAX as int, off as int + INV_EXTRA_OFF as int, 16 * ITEM_EXTRA_MAX as int);
            lemma_decoded_slots_unchanged(b7, buf@, off as int + INV_COLLECTIBLES_OFF as int, ITEM_COLLECTION_MAX as int, off as int + INV_EXTRA_OFF as int, 16 * ITEM_EXTRA_MAX as int);
            lemma_decoded_slots_unchanged(b7, buf@, off as int + INV_INFOS_OFF as int, ITEM_INFO_MAX as int, off as int + INV_EXTRA_OFF as int, 16 * ITEM_EXTRA_MAX as int);
            lemma_decoded_slots_unchanged(b7, buf@, off as int + INV_ACCESSORIES_OFF as int, ITEM_ACCESSORY_MAX as int, off as int + INV_EXTRA_OFF as int, 16 * ITEM_EXTRA_MAX as int);
            lemma_decoded_slots_unchanged(b7, buf@, off as int + INV_KEY_ITEMS_OFF as int, ITEM_PRECIOUS_MAX as int, off as int + INV_EXTRA_OFF as int, 16 * ITEM_EXTRA_MAX as int);
            lemma_decoded_slots_unchanged(b7, buf@, off as int + INV_EXCHANGE_OFF as int, ITEM_EXCHANGE_MAX as int, off as int + INV_EXTRA_OFF as int, 16 * ITEM_EXTRA_MAX as int);
        }
        let ghost b8 = buf@;
        proof {
            let region = final(buf)@.subrange(off as int, off as int + INVENTORY_SIZE as int);
            assert(le32(region, 0) == le32(final(buf)@, off as int));
            lemma_decoded_slots_shift(final(buf)@, off as int, INVENTORY_SIZE as int, INV_CYLINDERS_OFF as int, ITEM_CYLINDER_MAX as int);
            lemma_decoded_slots_shift(final(buf)@, off as int, INVENTORY_SIZE as int, INV_GEMS_OFF as int, ITEM_GEM_MAX as int);
            lemma_decoded_slots_shift(final(buf)@, off as int, INVENTORY_SIZE as int, INV_COLLECTIBLES_OFF as int, ITEM_COLLECTION_MAX as int);
            lemma_decoded_slots_shift(final(buf)@, off as int, INVENTORY_SIZE as int, INV_INFOS_OFF as int, ITEM_INFO_MAX as int);
            lemma_decoded_slots_shift(final(buf)@, off as int, INVENTORY_SIZE as int, INV_ACCESSORIES_OFF as int, ITEM_ACCESSORY_MAX as int);
            lemma_decoded_slots_shift(final(buf)@, off as int, INVENTORY_SIZE as int, INV_KEY_ITEMS_OFF as int, ITEM_PRECIOUS_MAX as int);
            lemma_decoded_slots_shift(final(buf)@, off as int, INVENTORY_SIZE as int, INV_EXCHANGE_OFF as int, ITEM_EXCHANGE_MAX as int);
            lemma_decoded_slots_shift(final(buf)@, off as int, INVENTORY_SIZE as int, INV_EXTRA_OFF as int, ITEM_EXTRA_MAX as int);
            assert forall|i: int|
                0 <= i < old(buf)@.len() && !(off <= i < off + INVENTORY_SIZE) implies final(buf)@[i]
                == old(buf)@[i] by {
                assert(b0[i] == old(buf)@[i]);
                assert(b1[i] == b0[i]);
                assert(b2[i] == b1[i]);
                assert(b3[i] == b2[i]);
                assert(b4[i] == b3[i]);
                assert(b5[i] == b4[i]);
                assert(b6[i] == b5[i]);
                assert(b7[i] == b6[i]);
                assert(b8[i] == b7[i]);
                assert(final(buf)@[i] == b8[i]);
            }
        }
    }
}

} // verus!
