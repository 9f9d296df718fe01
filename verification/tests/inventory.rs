use recordkeeper::item::DlcManualSlot;
use recordkeeper::item::Inventory;
use recordkeeper::item::ItemSlot;
use recordkeeper::item::ItemType;
use recordkeeper::item::TypeFromIntError;
use recordkeeper::item::CRAFTED_ITEM_ID;
use recordkeeper::item::INVENTORY_SIZE;

fn empty_inventory() -> Inventory {
    let region = vec![0u8; INVENTORY_SIZE];
    Inventory::read_at(&region, 0)
}

fn slot(item_id: u16, item_type: u32, amount: u16) -> ItemSlot {
    ItemSlot { item_id, slot_index: 0, item_type, chronological_id: 0, amount, flags: 1 }
}

#[test]
fn slot_record_decodes_to_an_active_accessory() {
    let bytes: Vec<u8> = vec![
        0x05, 0x00, // item_id
        0x00, 0x00, // slot_index
        0x05, 0x00, 0x00, 0x00, // item_type
        0x01, 0x00, 0x00, 0x00, // chronological_id
        0x01, 0x00, // amount
        0x01, // flags
        0x00, // padding
    ];
    let s = ItemSlot::read_at(&bytes, 0);
    assert_eq!(0x0005, s.item_id());
    assert_eq!(0, s.index());
    assert_eq!(1, s.amount());
    assert_eq!(1, s.chronological_id());
    assert!(s.is_valid());
    assert_eq!(ItemType::Accessory, s.item_type());
}

#[test]
fn slot_record_round_trips() {
    let mut s = slot(0x2002, 3, 42);
    s.set_chronological_id(77);
    let mut buf = vec![0u8; 40];
    s.write_at(&mut buf, 8);
    let d = ItemSlot::read_at(&buf, 8);
    assert_eq!(s, d);
    assert_eq!(77, d.chronological_id());
}

#[test]
fn split_two_mut_in_the_same_category() {
    let mut inv = empty_inventory();
    inv.accessories[2] = slot(0x4001, 5, 1);
    inv.accessories[7] = slot(0x4002, 5, 1);
    {
        let (a, b) = inv.split_slots_mut(0x4001, 0x4002);
        assert_eq!(0x4001, a.item_id());
        assert_eq!(0x4002, b.item_id());
        a.amount = 11;
        b.amount = 22;
        assert_eq!(11, a.amount());
        assert_eq!(22, b.amount());
    }
    assert_eq!(11, inv.accessories[2].amount());
    assert_eq!(22, inv.accessories[7].amount());
    assert_eq!(0, inv.accessories[3].amount());
}

#[test]
fn split_two_mut_with_reversed_positions() {
    let mut inv = empty_inventory();
    inv.gems[9] = slot(0x1001, 2, 1);
    inv.gems[4] = slot(0x1002, 2, 1);
    let (a, b) = inv.split_slots_mut(0x1001, 0x1002);
    a.amount = 5;
    b.amount = 6;
    assert_eq!(5, inv.gems[9].amount());
    assert_eq!(6, inv.gems[4].amount());
}

#[test]
fn split_two_mut_across_categories() {
    let mut inv = empty_inventory();
    inv.cylinders[1] = slot(0x0005, 1, 1);
    inv.gems[3] = slot(0x1003, 2, 1);
    {
        let (a, b) = inv.split_slots_mut(0x0005, 0x1003);
        a.amount = 33;
        b.amount = 44;
    }
    assert_eq!(33, inv.cylinders[1].amount());
    assert_eq!(44, inv.gems[3].amount());
    assert_eq!(0, inv.cylinders[0].amount());
    assert_eq!(0, inv.gems[0].amount());
}

#[test]
fn slots_and_slots_mut_expose_the_full_backing_array() {
    let mut inv = empty_inventory();
    assert_eq!(16, inv.slots(ItemType::Cylinder).len());
    assert_eq!(300, inv.slots(ItemType::Gem).len());
    assert_eq!(1500, inv.slots(ItemType::Collection).len());
    assert_eq!(800, inv.slots(ItemType::Info).len());
    assert_eq!(1500, inv.slots(ItemType::Accessory).len());
    assert_eq!(200, inv.slots(ItemType::Precious).len());
    assert_eq!(16, inv.slots(ItemType::Exchange).len());
    assert_eq!(64, inv.slots(ItemType::Extra).len());
    inv.slots_mut(ItemType::Extra)[63] = slot(0x7001, 9, 2);
    assert_eq!(2, inv.slots(ItemType::Extra)[63].amount());
}

#[test]
fn classifier_partitions_identifier_bands() {
    assert_eq!(ItemType::Cylinder, ItemType::get_by_item_id(0x0005));
    assert_eq!(ItemType::Gem, ItemType::get_by_item_id(0x1000));
    assert_eq!(ItemType::Collection, ItemType::get_by_item_id(0x2fff));
    assert_eq!(ItemType::Info, ItemType::get_by_item_id(0x3000));
    assert_eq!(ItemType::Accessory, ItemType::get_by_item_id(0x4abc));
    assert_eq!(ItemType::Precious, ItemType::get_by_item_id(0x5000));
    assert_eq!(ItemType::Exchange, ItemType::get_by_item_id(0x6000));
    assert_eq!(ItemType::Extra, ItemType::get_by_item_id(0x7000));
    assert_eq!(ItemType::Extra, ItemType::get_by_item_id(0xffff));
}

#[test]
fn numeric_tags_name_item_types() {
    assert_eq!(Ok(ItemType::Cylinder), ItemType::try_from(1));
    assert_eq!(Ok(ItemType::Accessory), ItemType::try_from(5));
    assert_eq!(Ok(ItemType::Extra), ItemType::try_from(9));
    assert_eq!(Err(TypeFromIntError(0)), ItemType::try_from(0));
    assert_eq!(Err(TypeFromIntError(12)), ItemType::try_from(12));
}

#[test]
fn lang_ids_name_the_categories() {
    assert_eq!("cylinder", ItemType::Cylinder.lang_id());
    assert_eq!("gem", ItemType::Gem.lang_id());
    assert_eq!("collection", ItemType::Collection.lang_id());
    assert_eq!("collepedia", ItemType::Collectopedia.lang_id());
    assert_eq!("info", ItemType::Info.lang_id());
    assert_eq!("accessory", ItemType::Accessory.lang_id());
    assert_eq!("precious", ItemType::Precious.lang_id());
    assert_eq!("exchange", ItemType::Exchange.lang_id());
    assert_eq!("extra", ItemType::Extra.lang_id());
}

#[test]
fn crafted_accessory_needs_the_crafted_id_and_an_active_slot() {
    let crafted = slot(CRAFTED_ITEM_ID, 5, 1);
    assert!(crafted.is_crafted_accessory());
    let plain = slot(0x4001, 5, 1);
    assert!(!plain.is_crafted_accessory());
    let mut inactive = slot(CRAFTED_ITEM_ID, 5, 1);
    inactive.flags = 0;
    assert!(!inactive.is_valid());
    assert!(!inactive.is_crafted_accessory());
}

#[test]
fn dlc_manual_slot_round_trips() {
    let m = DlcManualSlot { item_id: 7, inventory_slot_index: 2, item_type: 5 };
    let mut buf = vec![0u8; 16];
    m.write_at(&mut buf, 4);
    let d = DlcManualSlot::read_at(&buf, 4);
    assert_eq!(m, d);
    assert_eq!(0, buf[3]);
    assert_eq!(0, buf[10]);
}
