//! Item records: the two wire layouts of a single item, arrays of items with
//! a guessed stride, and the inventory and warehouse packets built on them.

use vstd::prelude::*;
use crate::wire::{as_i32, clamp, fits, le16, le32, le64, le16_at, le32_at, le64_at, i32_from_bits, lemma_clamped_read, u64_or, view_opt, WireReader};
use crate::sniffer_protocol::packet::{
    item_views, InventoryUpdatePacket, InventoryUpdateView, ItemInfo, ItemInfoView, ItemListPacket,
    ItemListView, L2Packet, WarehouseListPacket, WarehouseListView, WarehouseType,
};

verus! {

/// Display name of an item type code.
pub open spec fn type_label(t: u16) -> Seq<char> {
    if t == 0 {
        "Weapon"@
    } else if t == 1 {
        "Armor"@
    } else if t == 2 {
        "Accessory"@
    } else if t == 3 {
        "Quest"@
    } else if t == 4 {
        "Currency"@
    } else if t == 5 {
        "EtcItem"@
    } else {
        "Item"@
    }
}

/// Display name of an item type code.
pub fn item_type_to_name(t: u16) -> (r: &'static str)
    ensures
        r@ == type_label(t),
{
    if t == 0 {
        "Weapon"
    } else if t == 1 {
        "Armor"
    } else if t == 2 {
        "Accessory"
    } else if t == 3 {
        "Quest"
    } else if t == 4 {
        "Currency"
    } else if t == 5 {
        "EtcItem"
    } else {
        "Item"
    }
}

/// Item count of the older layout: 64-bit when the record has room for it.
pub open spec fn legacy_count(b: Seq<u8>) -> u64 {
    if b.len() >= 26 { le64(b, 14) as u64 } else { le32(b, 14) as u64 }
}

/// Whether a record of at least 22 bytes reads as the older layout: a small
/// type code, a plausible item id and count, and an object id whose low half
/// is zero (or whose item id is small).
pub open spec fn is_legacy(b: Seq<u8>) -> bool {
    let l_item = le32(b, 6);
    let m_item = le32(b, 4) as u32;
    &&& le16(b, 0) <= 3
    &&& 0 < l_item < 5_000_000
    &&& 0 < legacy_count(b) < 100_000_000_000
    &&& ((m_item & 0xFFFF) == 0 || (m_item > 1_000_000 && l_item < 100_000))
}

/// Item type of the older layout, resolved from the type code, the item id
/// and the body slot.
pub open spec fn legacy_type(b: Seq<u8>) -> u16 {
    let t = le16(b, 0) as u16;
    let item = le32(b, 6);
    let slot = le32(b, 10) as u32;
    if t > 0 {
        t
    } else if item == 57 || item == 5575 || item == 5560 {
        4
    } else if slot & 0x4080 != 0 {
        0
    } else if slot & 0x37 != 0 {
        2
    } else if slot & 0x3F00 != 0 {
        1
    } else {
        5
    }
}

/// An item in the older layout.
pub open spec fn legacy_item(b: Seq<u8>) -> ItemInfoView {
    ItemInfoView {
        object_id: le32(b, 2) as u32,
        item_id: le32(b, 6) as u32,
        count: legacy_count(b),
        item_type: legacy_type(b),
        item_type_name: type_label(legacy_type(b)),
        equipped: le16(b, 20) != 0,
        slot: le32(b, 10) as u32,
        enchant_level: if b.len() >= 28 { le16(b, 26) as u16 } else { 0 },
        custom_type1: le16(b, 18) as u16,
        is_augmented: b.len() >= 34 && le32(b, 30) != 0,
        mana: if b.len() >= 38 { as_i32(le32(b, 34)) as i32 } else { -1i32 },
        durability: if b.len() >= 42 { as_i32(le32(b, 38)) as i32 } else { -1i32 },
    }
}

/// Item count of the newer layout: 64-bit when the record has room for it.
pub open spec fn modern_count(b: Seq<u8>) -> u64 {
    if b.len() >= 20 { le64(b, 12) as u64 } else { le32(b, 12) as u64 }
}

/// Whether the newer layout holds a plausible item id and count.
pub open spec fn modern_valid(b: Seq<u8>) -> bool {
    &&& 0 < le32(b, 4) < 5_000_000
    &&& 0 < modern_count(b) < 100_000_000_000
}

/// Whether the newer-layout record says the item is worn.
pub open spec fn modern_equipped(b: Seq<u8>) -> bool {
    b.len() >= 26 && le16(b, 24) != 0
}

/// Item type of the newer layout, resolved from the type code, the item id,
/// the body part, or the slot of a worn item.
pub open spec fn modern_type(b: Seq<u8>) -> u16 {
    let raw = if b.len() >= 22 { le16(b, 20) as u16 } else { 0u16 };
    let item = le32(b, 4);
    let slot = le32(b, 8) as u32;
    let body = if b.len() >= 30 { le32(b, 26) as u32 } else { 0u32 };
    if raw > 0 {
        raw
    } else if item == 57 || item == 5575 || item == 5560 || item == 37000 || item == 40000 {
        4
    } else if body != 0 {
        if body & 0x4080 != 0 {
            0
        } else if body & 0x700037 != 0 {
            2
        } else if body & 0x3BF00 != 0 {
            1
        } else {
            0
        }
    } else if slot > 0 && modern_equipped(b) {
        if slot & 0x4080 != 0 {
            0
        } else if slot & 0x37 != 0 {
            2
        } else {
            1
        }
    } else {
        5
    }
}

/// An item in the newer layout.
pub open spec fn modern_item(b: Seq<u8>) -> ItemInfoView {
    let c1 = if b.len() >= 24 { le16(b, 22) as u16 } else { 0u16 };
    let c2 = if b.len() >= 34 { le16(b, 32) as u16 } else { 0u16 };
    ItemInfoView {
        object_id: le32(b, 0) as u32,
        item_id: le32(b, 4) as u32,
        count: modern_count(b),
        item_type: modern_type(b),
        item_type_name: type_label(modern_type(b)),
        equipped: modern_equipped(b),
        slot: le32(b, 8) as u32,
        enchant_level: if b.len() >= 32 { le16(b, 30) as u16 } else { 0 },
        custom_type1: c1 | c2,
        is_augmented: b.len() >= 38 && le32(b, 34) != 0,
        mana: if b.len() >= 42 { as_i32(le32(b, 38)) as i32 } else { -1i32 },
        durability: if b.len() >= 46 { as_i32(le32(b, 42)) as i32 } else { -1i32 },
    }
}

/// A record that fits neither layout: ids and slot of the newer layout, a
/// count of 1 unless it is plausible, and everything else at defaults.
pub open spec fn fallback_item(b: Seq<u8>) -> ItemInfoView {
    let c = modern_count(b);
    ItemInfoView {
        object_id: le32(b, 0) as u32,
        item_id: le32(b, 4) as u32,
        count: if 0 < c < 100_000_000_000 { c } else { 1 },
        item_type: 0,
        item_type_name: type_label(0),
        equipped: false,
        slot: le32(b, 8) as u32,
        enchant_level: 0,
        custom_type1: 0,
        is_augmented: false,
        mana: -1i32,
        durability: -1i32,
    }
}

/// One item record: nothing under 16 bytes, else the older layout when it
/// reads as one, else the newer layout, else a fallback.
pub open spec fn single_item(b: Seq<u8>) -> Option<ItemInfoView> {
    if b.len() < 16 {
        None
    } else if b.len() >= 22 && is_legacy(b) {
        Some(legacy_item(b))
    } else if modern_valid(b) {
        Some(modern_item(b))
    } else {
        Some(fallback_item(b))
    }
}

/// An item value with its type name filled in.
fn make_item(
    object_id: u32,
    item_id: u32,
    count: u64,
    item_type: u16,
    equipped: bool,
    slot: u32,
    enchant_level: u16,
    custom_type1: u16,
    is_augmented: bool,
    mana: i32,
    durability: i32,
) -> (r: ItemInfo)
    ensures
        r@ == (ItemInfoView {
            object_id,
            item_id,
            count,
            item_type,
            item_type_name: type_label(item_type),
            equipped,
            slot,
            enchant_level,
            custom_type1,
            is_augmented,
            mana,
            durability,
        }),
{
    let name = item_type_to_name(item_type).to_owned();
    ItemInfo {
        object_id,
        item_id,
        count,
        item_type,
        item_type_name: name,
        equipped,
        slot,
        enchant_level,
        custom_type1,
        is_augmented,
        mana,
        durability,
    }
}

impl L2Packet {
    /// Parses one item record.
    pub(crate) fn parse_single_item(b: &[u8]) -> (res: Option<ItemInfo>)
        ensures
            view_opt(res) == single_item(b@),
    {
        let n = b.len();
        if n < 16 {
            return None;
        }
        if n >= 22 {
            let l_type = le16_at(b, 0);
            let l_obj = le32_at(b, 2);
            let l_item = le32_at(b, 6);
            let l_slot = le32_at(b, 10);
            let l_count: u64 = if n >= 26 { le64_at(b, 14) } else { le32_at(b, 14) as u64 };
            let m_item_raw = le32_at(b, 4);
            let is_legacy = l_type <= 3 && l_item > 0 && l_item < 5_000_000 && l_count > 0
                && l_count < 100_000_000_000 && ((m_item_raw & 0xFFFF) == 0 || (m_item_raw
                > 1_000_000 && l_item < 100_000));
            if is_legacy {
                let custom_type1 = le16_at(b, 18);
                let equipped = le16_at(b, 20) != 0;
                let enchant_level = if n >= 28 { le16_at(b, 26) } else { 0 };
                let is_augmented = if n >= 34 { le32_at(b, 30) != 0 } else { false };
                let mana = if n >= 38 { i32_from_bits(le32_at(b, 34)) } else { -1 };
                let durability = if n >= 42 { i32_from_bits(le32_at(b, 38)) } else { -1 };
                let item_type: u16 = if l_type > 0 {
                    l_type
                } else if l_item == 57 || l_item == 5575 || l_item == 5560 {
                    4
                } else if (l_slot & 0x4080) != 0 {
                    0
                } else if (l_slot & 0x37) != 0 {
                    2
                } else if (l_slot & 0x3F00) != 0 {
                    1
                } else {
                    5
                };
                let it = make_item(
                    l_obj,
                    l_item,
                    l_count,
                    item_type,
                    equipped,
                    l_slot,
                    enchant_level,
                    custom_type1,
                    is_augmented,
                    mana,
                    durability,
                );
                return Some(it);
            }
        }
        let m_obj = le32_at(b, 0);
        let m_item = le32_at(b, 4);
        let m_slot = le32_at(b, 8);
        let m_count: u64 = if n >= 20 { le64_at(b, 12) } else { le32_at(b, 12) as u64 };
        let modern_valid = m_item > 0 && m_item < 5_000_000 && m_count > 0 && m_count
            < 100_000_000_000;
        if modern_valid {
            let item_type_raw: u16 = if n >= 22 { le16_at(b, 20) } else { 0 };
            let custom_type1: u16 = if n >= 24 { le16_at(b, 22) } else { 0 };
            let equipped = if n >= 26 { le16_at(b, 24) != 0 } else { false };
            let body_part: u32 = if n >= 30 { le32_at(b, 26) } else { 0 };
            let enchant_level: u16 = if n >= 32 { le16_at(b, 30) } else { 0 };
            let custom_type2: u16 = if n >= 34 { le16_at(b, 32) } else { 0 };
            let is_augmented = if n >= 38 { le32_at(b, 34) != 0 } else { false };
            let mana = if n >= 42 { i32_from_bits(le32_at(b, 38)) } else { -1 };
            let durability = if n >= 46 { i32_from_bits(le32_at(b, 42)) } else { -1 };
            let item_type: u16 = if item_type_raw > 0 {
                item_type_raw
            } else if m_item == 57 || m_item == 5575 || m_item == 5560 || m_item == 37000
                || m_item == 40000 {
                4
            } else if body_part != 0 {
                if (body_part & 0x4080) != 0 {
                    0
                } else if (body_part & 0x700037) != 0 {
                    2
                } else if (body_part & 0x3BF00) != 0 {
                    1
                } else {
                    0
                }
            } else if m_slot > 0 && equipped {
                if (m_slot & 0x4080) != 0 {
                    0
                } else if (m_slot & 0x37) != 0 {
                    2
                } else {
                    1
                }
            } else {
                5
            };
            let it = make_item(
                m_obj,
                m_item,
                m_count,
                item_type,
                equipped,
                m_slot,
                enchant_level,
                custom_type1 | custom_type2,
                is_augmented,
                mana,
                durability,
            );
            return Some(it);
        }
        let count = if m_count > 0 && m_count < 100_000_000_000 { m_count } else { 1 };
        Some(make_item(m_obj, m_item, count, 0, false, m_slot, 0, 0, false, -1, -1))
    }
}


/// Record width used for an array of `count` items in `len` bytes: the even
/// share when it is between 18 and 128 bytes, else 56.
pub open spec fn item_stride(len: int, count: int) -> int {
    if 18 <= len / count <= 128 { len / count } else { 56 }
}

/// The records among the first `k` slots of an item array that parse, each
/// slot cut at the stride (or at the end of the buffer).
pub open spec fn items_upto(b: Seq<u8>, stride: int, k: nat) -> Seq<ItemInfoView>
    decreases k,
{
    if k == 0 {
        seq![]
    } else {
        let prev = items_upto(b, stride, (k - 1) as nat);
        let start = (k - 1) * stride;
        let end = if start + stride < b.len() { start + stride } else { b.len() as int };
        if start >= b.len() {
            prev
        } else {
            match single_item(b.subrange(start, end)) {
                Some(it) => prev.push(it),
                None => prev,
            }
        }
    }
}

/// An array of `count` item records.
pub open spec fn item_array(b: Seq<u8>, count: int) -> Seq<ItemInfoView> {
    if count == 0 || b.len() == 0 {
        seq![]
    } else {
        items_upto(b, item_stride(b.len() as int, count), count as nat)
    }
}

/// Whether `cnt` items plausibly fill `rem` bytes: evenly, or at 32 to 96
/// bytes each.
pub open spec fn plausible_count(rem: int, cnt: int) -> bool {
    0 < cnt <= 500 && rem >= cnt && (rem % cnt == 0 || (32 <= rem / cnt <= 96))
}

/// The header layout of an inventory list: window flag, item count and where
/// the records start. A 16-bit count after two flag bytes is preferred, then
/// after one flag byte, and the latter is the fallback.
pub open spec fn item_list_header(b: Seq<u8>) -> (bool, int, int) {
    if b.len() >= 4 && plausible_count(b.len() - 4, le16(b, 2)) {
        (b[0] != 0, le16(b, 2), 4)
    } else {
        (b[0] != 0, le16(b, 1), 3)
    }
}

/// An inventory list payload.
pub open spec fn item_list_at(b: Seq<u8>) -> Option<ItemListView> {
    if b.len() < 3 {
        None
    } else {
        let h = item_list_header(b);
        if h.1 > 500 {
            None
        } else {
            Some(ItemListView { show_window: h.0, items: item_array(b.skip(h.2), h.1) })
        }
    }
}

/// An inventory change payload: a 16-bit count (at most 500) and records.
pub open spec fn inventory_update_at(b: Seq<u8>) -> Option<InventoryUpdateView> {
    if b.len() < 2 || le16(b, 0) > 500 {
        None
    } else {
        Some(InventoryUpdateView { items: item_array(b.skip(2), le16(b, 0)) })
    }
}

/// Warehouse kind named by the wire value.
pub open spec fn warehouse_type_of(raw: int) -> Option<WarehouseType> {
    if raw == 1 {
        Some(WarehouseType::Private)
    } else if raw == 2 {
        Some(WarehouseType::Clan)
    } else if raw == 3 {
        Some(WarehouseType::Castle)
    } else if raw == 4 {
        Some(WarehouseType::Freight)
    } else if raw == 5 {
        Some(WarehouseType::Package)
    } else {
        None
    }
}

/// A warehouse payload: kind, the owner's adena (withdraw lists only, at most
/// 10^11), a 16-bit count (default 0, at most 500) and records.
pub open spec fn warehouse_list_at(b: Seq<u8>, opcode: u8) -> Option<WarehouseListView> {
    let adena = if opcode == 0x42 { u64_or(b, 2, 0) } else { 0 };
    let cpos = if opcode == 0x42 { clamp(b, 10) } else { clamp(b, 2) };
    let count = if fits(b, cpos, 2) { le16(b, cpos) } else { 0 };
    let ipos = if fits(b, cpos, 2) { cpos + 2 } else { b.len() as int };
    if !fits(b, 0, 2) || warehouse_type_of(le16(b, 0)) is None {
        None
    } else if adena > 100_000_000_000 || count > 500 {
        None
    } else {
        Some(
            WarehouseListView {
                wh_type: warehouse_type_of(le16(b, 0))->0,
                player_adena: adena as u64,
                items: item_array(b.skip(ipos), count),
            },
        )
    }
}

impl L2Packet {
    /// Parses `count` item records packed in `payload`.
    pub(crate) fn parse_item_array(payload: &[u8], count: usize) -> (res: Vec<ItemInfo>)
        ensures
            item_views(res@) == item_array(payload@, count as int),
    {
        let mut items: Vec<ItemInfo> = Vec::new();
        let n = payload.len();
        if count == 0 || n == 0 {
            assert(item_views(items@) =~= Seq::<ItemInfoView>::empty());
            return items;
        }
        let calculated = n / count;
        let stride: usize = if calculated >= 18 && calculated <= 128 { calculated } else { 56 };
        let ghost b = payload@;
        let mut i: usize = 0;
        let mut start: usize = 0;
        assert(item_views(items@) =~= Seq::<ItemInfoView>::empty());
        while i < count
            invariant
                b == payload@,
                n == b.len(),
                0 < count,
                stride == item_stride(n as int, count as int),
                18 <= stride <= 128,
                i <= count,
                start == i * stride,
                start <= n,
                item_views(items@) == items_upto(b, stride as int, i as nat),
            decreases count - i,
        {
            if start >= n {
                proof { lemma_items_stop(b, stride as int, i as nat, count as nat); }
                assert(item_views(items@) == items_upto(b, stride as int, count as nat));
                return items;
            }
            let end = if n - start > stride { start + stride } else { n };
            let piece = &payload[start..end];
            let ghost before = items@;
            match Self::parse_single_item(piece) {
                Some(it) => {
                    items.push(it);
                    assert(item_views(items@) =~= item_views(before).push(it@));
                },
                None => {},
            }
            assert(start + stride == (i + 1) * stride) by (nonlinear_arith)
                requires start == i * stride;
            if n - start < stride {
                proof { lemma_items_stop(b, stride as int, (i + 1) as nat, count as nat); }
                return items;
            }
            start = start + stride;
            i = i + 1;
        }
        items
    }

    /// Parses an inventory list payload.
    pub(crate) fn parse_item_list(payload: &[u8]) -> (res: Option<ItemListPacket>)
        ensures
            view_opt(res) == item_list_at(payload@),
    {
        let n = payload.len();
        if n < 3 {
            return None;
        }
        let mut show_window = true;
        let mut best_count: usize = 0;
        let mut best_offset: usize = 3;
        if n >= 4 {
            let cnt_b = le16_at(payload, 2) as usize;
            if cnt_b > 0 && cnt_b <= 500 {
                let remaining = n - 4;
                if remaining >= cnt_b && (remaining % cnt_b == 0 || (remaining / cnt_b >= 32
                    && remaining / cnt_b <= 96)) {
                    show_window = payload[0] != 0;
                    best_count = cnt_b;
                    best_offset = 4;
                }
            }
        }
        if best_count == 0 {
            let cnt_a = le16_at(payload, 1) as usize;
            if cnt_a > 0 && cnt_a <= 500 {
                let remaining = n - 3;
                if remaining >= cnt_a && (remaining % cnt_a == 0 || (remaining / cnt_a >= 32
                    && remaining / cnt_a <= 96)) {
                    show_window = payload[0] != 0;
                    best_count = cnt_a;
                    best_offset = 3;
                }
            }
        }
        if best_count == 0 {
            show_window = payload[0] != 0;
            best_count = le16_at(payload, 1) as usize;
            best_offset = 3;
        }
        assert(item_list_header(payload@) == (show_window, best_count as int, best_offset as int));
        if best_count > 500 {
            return None;
        }
        let items = Self::parse_item_array(&payload[best_offset..n], best_count);
        assert(payload@.subrange(best_offset as int, n as int) =~= payload@.skip(best_offset as int));
        Some(ItemListPacket { show_window, items })
    }

    /// Parses an inventory change payload.
    pub(crate) fn parse_inventory_update(payload: &[u8]) -> (res: Option<InventoryUpdatePacket>)
        ensures
            view_opt(res) == inventory_update_at(payload@),
    {
        let n = payload.len();
        if n < 2 {
            return None;
        }
        let count = le16_at(payload, 0) as usize;
        if count > 500 {
            return None;
        }
        let items = Self::parse_item_array(&payload[2..n], count);
        assert(payload@.subrange(2, n as int) =~= payload@.skip(2));
        Some(InventoryUpdatePacket { items })
    }

    /// Parses a warehouse payload; `opcode` tells deposit from withdraw lists.
    pub(crate) fn parse_warehouse_list(payload: &[u8], opcode: u8) -> (res: Option<WarehouseListPacket>)
        ensures
            view_opt(res) == warehouse_list_at(payload@, opcode),
    {
        let ghost b = payload@;
        let mut r = WireReader::new(payload);
        proof { lemma_clamped_read(b, 0, 2); }
        let raw_type = r.u16_or(0);
        let wh_type = if raw_type == 1 {
            WarehouseType::Private
        } else if raw_type == 2 {
            WarehouseType::Clan
        } else if raw_type == 3 {
            WarehouseType::Castle
        } else if raw_type == 4 {
            WarehouseType::Freight
        } else if raw_type == 5 {
            WarehouseType::Package
        } else {
            return None;
        };
        let player_adena: u64 = if opcode == 0x42 {
            proof { lemma_clamped_read(b, 2, 8); }
            r.u64_or(0)
        } else {
            0
        };
        if player_adena > 100_000_000_000 {
            return None;
        }
        let count: usize = match r.read_u16() {
            Some(c) => c as usize,
            None => 0,
        };
        if count > 500 {
            return None;
        }
        let pos = r.pos;
        let n = payload.len();
        let items = Self::parse_item_array(&payload[pos..n], count);
        assert(b.subrange(pos as int, n as int) =~= b.skip(pos as int));
        Some(WarehouseListPacket { wh_type, player_adena, items })
    }
}

/// Once a slot starts past the end, no later slot adds an item.
proof fn lemma_items_stop(b: Seq<u8>, stride: int, i: nat, k: nat)
    requires
        stride > 0,
        i <= k,
        i * stride >= b.len(),
    ensures
        items_upto(b, stride, k) == items_upto(b, stride, i),
    decreases k - i,
{
    if k > i {
        lemma_items_stop(b, stride, i, (k - 1) as nat);
        assert((k - 1) * stride >= i * stride) by (nonlinear_arith)
            requires k - 1 >= i, stride > 0;
    }
}

} // verus!
