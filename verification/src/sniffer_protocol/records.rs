//! Fixed-layout record lists: status updates, skills, effects, stores,
//! market listings and movement.

use vstd::prelude::*;
use crate::wire::{
    after, as_i32, clamp, fits, i32_or, le16, le32, lemma_clamped_read, u16_or, u32_or, u64_or,
    u8_or, view_opt, WireReader,
};
use crate::text::{read_utf16z, text_or_empty, utf16z_read};
use crate::sniffer_protocol::packet::{
    AbnormalStatusUpdatePacket, AbnormalStatusUpdateView, BuffEffect, CommissionItem,
    CommissionItemView, CommissionListPacket, CommissionListView, EinhasadProduct,
    EinhasadStorePacket, EinhasadStoreView, L2Packet, MagicEffectIconsPacket,
    MagicEffectIconsView, MoveToLocationPacket, PrivateStoreItem, PrivateStorePacket,
    PrivateStoreType, PrivateStoreView, SkillEntry, SkillListPacket, SkillListView,
    StatusUpdateAttribute, StatusUpdatePacket, StatusUpdateView, WorldExchangeItem,
    WorldExchangeItemView, WorldExchangeListPacket, WorldExchangeListView,
};

verus! {

// ---------------------------------------------------------------- status update

/// The attributes of a status update whose count field is at `p`.
pub open spec fn status_attrs(s: Seq<u8>, p: int, n: nat) -> Seq<StatusUpdateAttribute> {
    Seq::new(
        n,
        |i: int|
            StatusUpdateAttribute {
                attr_id: le32(s, p + 4 + 8 * i) as u32,
                value: le32(s, p + 8 + 8 * i) as u32,
            },
    )
}

/// A status update at `p`: object id and count, then `count` pairs of
/// attribute id and value; more than `limit` attributes, or a short buffer, is
/// refused.
pub open spec fn status_update_at(s: Seq<u8>, p: int, limit: int) -> Option<StatusUpdateView> {
    if !fits(s, p, 8) {
        None
    } else if le32(s, p + 4) > limit {
        None
    } else if !fits(s, p + 8, 8 * le32(s, p + 4)) {
        None
    } else {
        Some(
            StatusUpdateView {
                object_id: le32(s, p) as u32,
                attributes: status_attrs(s, p + 4, le32(s, p + 4) as nat),
            },
        )
    }
}

impl L2Packet {
    /// Parses a status update (at most 200 attributes).
    pub(crate) fn parse_status_update(r: &mut WireReader) -> (res: Option<StatusUpdatePacket>)
        requires
            old(r).wf(),
        ensures
            view_opt(res) == status_update_at(old(r).data@, old(r).pos as int, 200),
    {
        let ghost s = r.data@;
        let ghost p = r.pos as int;
        let object_id = match r.read_u32() {
            Some(v) => v,
            None => { return None; },
        };
        let count = match r.read_u32() {
            Some(v) => v,
            None => { return None; },
        };
        if count > 200 {
            return None;
        }
        let mut attributes: Vec<StatusUpdateAttribute> = Vec::new();
        let mut i: u32 = 0;
        while i < count
            invariant
                r.wf(),
                r.data@ == s,
                s == old(r).data@,
                p == old(r).pos,
                0 <= p,
                fits(s, p, 8),
                count == le32(s, p + 4),
                count <= 200,
                i <= count,
                r.pos == p + 8 + 8 * i,
                attributes@ =~= status_attrs(s, p + 4, i as nat),
            decreases count - i,
        {
            let attr_id = match r.read_u32() {
                Some(v) => v,
                None => { return None; },
            };
            let value = match r.read_u32() {
                Some(v) => v,
                None => { return None; },
            };
            attributes.push(StatusUpdateAttribute { attr_id, value });
            i = i + 1;
        }
        Some(StatusUpdatePacket { object_id, attributes })
    }
}

// ---------------------------------------------------------------- skills

/// The skill record at `q`: passive flag, level (default 1), skill id, a
/// disabled byte and the enchant type; missing fields take defaults.
pub open spec fn skill_at(s: Seq<u8>, q: int) -> SkillEntry {
    SkillEntry {
        skill_id: u32_or(s, q + 8, 0) as u32,
        level: u32_or(s, q + 4, 1) as u32,
        sub_level: 0,
        is_passive: u32_or(s, q, 0) != 0,
        is_disabled: u8_or(s, q + 12, 0) != 0,
        enchant_type: u32_or(s, q + 13, 0) as u32,
    }
}

/// The first `k` skill records after the count at `p`, keeping those with a
/// non-zero skill id.
pub open spec fn skills_upto(s: Seq<u8>, p: int, k: nat) -> Seq<SkillEntry>
    decreases k,
{
    if k == 0 {
        seq![]
    } else {
        let prev = skills_upto(s, p, (k - 1) as nat);
        let e = skill_at(s, p + 4 + 17 * (k - 1));
        if e.skill_id > 0 { prev.push(e) } else { prev }
    }
}

/// A skill list at `p`: a count (at most 2000) and that many records.
pub open spec fn skill_list_at(s: Seq<u8>, p: int) -> Option<SkillListView> {
    if !fits(s, p, 4) || le32(s, p) > 2000 {
        None
    } else {
        Some(SkillListView { skills: skills_upto(s, p, le32(s, p) as nat) })
    }
}

impl L2Packet {
    /// Parses a skill list.
    pub(crate) fn parse_skill_list(r: &mut WireReader) -> (res: Option<SkillListPacket>)
        requires
            old(r).wf(),
        ensures
            view_opt(res) == skill_list_at(old(r).data@, old(r).pos as int),
    {
        let ghost s = r.data@;
        let ghost p = r.pos as int;
        let count = match r.read_u32() {
            Some(v) => v,
            None => { return None; },
        };
        if count > 2000 {
            return None;
        }
        let mut skills: Vec<SkillEntry> = Vec::new();
        let mut i: u32 = 0;
        while i < count
            invariant
                r.wf(),
                r.data@ == s,
                s == old(r).data@,
                p == old(r).pos,
                0 <= p,
                count <= 2000,
                i <= count,
                r.pos == clamp(s, p + 4 + 17 * i),
                skills@ == skills_upto(s, p, i as nat),
            decreases count - i,
        {
            let ghost q = p + 4 + 17 * i;
            proof { lemma_clamped_read(s, q, 4); }
            let is_passive = r.u32_or(0) != 0;
            proof { lemma_clamped_read(s, q + 4, 4); }
            let level = r.u32_or(1);
            proof { lemma_clamped_read(s, q + 8, 4); }
            let skill_id = r.u32_or(0);
            proof { lemma_clamped_read(s, q + 12, 1); }
            let is_disabled = r.u8_or(0) != 0;
            proof { lemma_clamped_read(s, q + 13, 4); }
            let enchant_type = r.u32_or(0);
            let e = SkillEntry { skill_id, level, sub_level: 0, is_passive, is_disabled, enchant_type };
            assert(e == skill_at(s, q));
            if skill_id > 0 {
                skills.push(e);
            }
            i = i + 1;
        }
        Some(SkillListPacket { skills })
    }
}

// ---------------------------------------------------------------- effects

/// The older effect record at `q`: skill id, a 16-bit level (default 1) and
/// the remaining seconds.
pub open spec fn icon_at(s: Seq<u8>, q: int) -> BuffEffect {
    BuffEffect {
        skill_id: le32(s, q) as u32,
        level: u16_or(s, q + 4, 1) as u32,
        sub_level: 0,
        duration_secs: u32_or(s, q + 6, 0) as u32,
        abnormal_type: 0,
        is_debuff: false,
    }
}

/// The newer effect record at `q`: skill id, 16-bit level (default 1),
/// sub-level, abnormal type and remaining seconds; types from 100 on are
/// debuffs.
pub open spec fn abnormal_at(s: Seq<u8>, q: int) -> BuffEffect {
    BuffEffect {
        skill_id: le32(s, q) as u32,
        level: u16_or(s, q + 4, 1) as u32,
        sub_level: u32_or(s, q + 6, 0) as u32,
        duration_secs: u32_or(s, q + 14, 0) as u32,
        abnormal_type: u32_or(s, q + 10, 0) as u32,
        is_debuff: u32_or(s, q + 10, 0) >= 100,
    }
}

/// An effect list at `p`: a 16-bit count (at most 200) and records of
/// `width` bytes, each of which must hold at least its skill id.
pub open spec fn effects_fit(s: Seq<u8>, p: int, width: int) -> bool {
    &&& fits(s, p, 2)
    &&& le16(s, p) <= 200
    &&& (le16(s, p) == 0 || fits(s, p + 2 + width * (le16(s, p) - 1), 4))
}

/// Older effect list at `p`.
pub open spec fn magic_effect_icons_at(s: Seq<u8>, p: int) -> Option<MagicEffectIconsView> {
    if effects_fit(s, p, 10) {
        Some(
            MagicEffectIconsView {
                buffs: Seq::new(le16(s, p) as nat, |i: int| icon_at(s, p + 2 + 10 * i)),
            },
        )
    } else {
        None
    }
}

/// Newer effect list at `p`.
pub open spec fn abnormal_status_at(s: Seq<u8>, p: int) -> Option<AbnormalStatusUpdateView> {
    if effects_fit(s, p, 18) {
        Some(
            AbnormalStatusUpdateView {
                buffs: Seq::new(le16(s, p) as nat, |i: int| abnormal_at(s, p + 2 + 18 * i)),
            },
        )
    } else {
        None
    }
}

impl L2Packet {
    /// Parses the older effect list layout.
    pub(crate) fn parse_magic_effect_icons(r: &mut WireReader) -> (res: Option<MagicEffectIconsPacket>)
        requires
            old(r).wf(),
        ensures
            view_opt(res) == magic_effect_icons_at(old(r).data@, old(r).pos as int),
    {
        let ghost s = r.data@;
        let ghost p = r.pos as int;
        let count = match r.read_u16() {
            Some(v) => v,
            None => { return None; },
        };
        if count > 200 {
            return None;
        }
        let mut buffs: Vec<BuffEffect> = Vec::new();
        let mut i: u16 = 0;
        while i < count
            invariant
                r.wf(),
                r.data@ == s,
                s == old(r).data@,
                p == old(r).pos,
                0 <= p,
                fits(s, p, 2),
                count == le16(s, p),
                count <= 200,
                i <= count,
                r.pos == clamp(s, p + 2 + 10 * i),
                i > 0 ==> fits(s, p + 2 + 10 * (i - 1), 4),
                buffs@ =~= Seq::new(i as nat, |j: int| icon_at(s, p + 2 + 10 * j)),
            decreases count - i,
        {
            let ghost q = p + 2 + 10 * i;
            proof { lemma_clamped_read(s, q, 4); }
            let skill_id = match r.read_u32() {
                Some(v) => v,
                None => {
                    proof {
                        if fits(s, p + 2 + 10 * (count - 1), 4) {
                            assert(fits(s, q, 4));
                        }
                    }
                    return None;
                },
            };
            proof { lemma_clamped_read(s, q + 4, 2); }
            let level = r.u16_or(1) as u32;
            proof { lemma_clamped_read(s, q + 6, 4); }
            let duration_secs = r.u32_or(0);
            let e = BuffEffect {
                skill_id,
                level,
                sub_level: 0,
                duration_secs,
                abnormal_type: 0,
                is_debuff: false,
            };
            assert(e == icon_at(s, q));
            buffs.push(e);
            i = i + 1;
        }
        Some(MagicEffectIconsPacket { buffs })
    }

    /// Parses the newer effect list layout.
    pub(crate) fn parse_abnormal_status_update(r: &mut WireReader) -> (res: Option<AbnormalStatusUpdatePacket>)
        requires
            old(r).wf(),
        ensures
            view_opt(res) == abnormal_status_at(old(r).data@, old(r).pos as int),
    {
        let ghost s = r.data@;
        let ghost p = r.pos as int;
        let count = match r.read_u16() {
            Some(v) => v,
            None => { return None; },
        };
        if count > 200 {
            return None;
        }
        let mut buffs: Vec<BuffEffect> = Vec::new();
        let mut i: u16 = 0;
        while i < count
            invariant
                r.wf(),
                r.data@ == s,
                s == old(r).data@,
                p == old(r).pos,
                0 <= p,
                fits(s, p, 2),
                count == le16(s, p),
                count <= 200,
                i <= count,
                r.pos == clamp(s, p + 2 + 18 * i),
                i > 0 ==> fits(s, p + 2 + 18 * (i - 1), 4),
                buffs@ =~= Seq::new(i as nat, |j: int| abnormal_at(s, p + 2 + 18 * j)),
            decreases count - i,
        {
            let ghost q = p + 2 + 18 * i;
            proof { lemma_clamped_read(s, q, 4); }
            let skill_id = match r.read_u32() {
                Some(v) => v,
                None => {
                    proof {
                        if fits(s, p + 2 + 18 * (count - 1), 4) {
                            assert(fits(s, q, 4));
                        }
                    }
                    return None;
                },
            };
            proof { lemma_clamped_read(s, q + 4, 2); }
            let level = r.u16_or(1) as u32;
            proof { lemma_clamped_read(s, q + 6, 4); }
            let sub_level = r.u32_or(0);
            proof { lemma_clamped_read(s, q + 10, 4); }
            let abnormal_type = r.u32_or(0);
            proof { lemma_clamped_read(s, q + 14, 4); }
            let duration_secs = r.u32_or(0);
            let e = BuffEffect {
                skill_id,
                level,
                sub_level,
                duration_secs,
                abnormal_type,
                is_debuff: abnormal_type >= 100,
            };
            assert(e == abnormal_at(s, q));
            buffs.push(e);
            i = i + 1;
        }
        Some(AbnormalStatusUpdatePacket { buffs })
    }
}


// ---------------------------------------------------------------- private stores

/// Store kind named by the wire value, or `default` for any other value.
pub open spec fn store_type_of(raw: int, default: PrivateStoreType) -> PrivateStoreType {
    if raw == 1 {
        PrivateStoreType::Sell
    } else if raw == 3 {
        PrivateStoreType::Buy
    } else if raw == 8 {
        PrivateStoreType::PackageSell
    } else {
        default
    }
}

/// The store record at `q`: object id, item id, count (default 1), price and
/// enchant level.
pub open spec fn store_item_at(s: Seq<u8>, q: int) -> PrivateStoreItem {
    PrivateStoreItem {
        item_object_id: u32_or(s, q, 0) as u32,
        item_id: u32_or(s, q + 4, 0) as u32,
        count: u64_or(s, q + 8, 1) as u64,
        price: u64_or(s, q + 16, 0) as u64,
        enchant_level: u16_or(s, q + 24, 0) as u16,
    }
}

/// Where the store title ends for a store packet at `p`.
pub open spec fn store_title_end(s: Seq<u8>, p: int) -> int {
    utf16z_read(s, clamp(s, p + 16), true).1
}

/// A player store at `p`: seller id, store kind, the owner's adena (unused),
/// a title, a count (at most 500) and the records.
pub open spec fn private_store_at(s: Seq<u8>, p: int, default: PrivateStoreType) -> Option<PrivateStoreView> {
    let e = store_title_end(s, p);
    if !fits(s, p, 4) || !fits(s, e, 4) || le32(s, e) > 500 {
        None
    } else {
        Some(
            PrivateStoreView {
                seller_object_id: le32(s, p) as u32,
                store_type: store_type_of(u32_or(s, p + 4, 0), default),
                store_title: text_or_empty(utf16z_read(s, clamp(s, p + 16), true).0),
                items: Seq::new(le32(s, e) as nat, |i: int| store_item_at(s, e + 4 + 26 * i)),
            },
        )
    }
}

impl L2Packet {
    /// Parses a player store listing; `default_type` is the kind implied by
    /// the opcode.
    pub(crate) fn parse_private_store(r: &mut WireReader, default_type: PrivateStoreType) -> (res: Option<PrivateStorePacket>)
        requires
            old(r).wf(),
        ensures
            view_opt(res) == private_store_at(old(r).data@, old(r).pos as int, default_type),
    {
        let ghost s = r.data@;
        let ghost p = r.pos as int;
        let seller_object_id = match r.read_u32() {
            Some(v) => v,
            None => { return None; },
        };
        proof { lemma_clamped_read(s, p + 4, 4); }
        let raw_type = r.u32_or(0);
        let store_type = if raw_type == 1 {
            PrivateStoreType::Sell
        } else if raw_type == 3 {
            PrivateStoreType::Buy
        } else if raw_type == 8 {
            PrivateStoreType::PackageSell
        } else {
            default_type
        };
        proof { lemma_clamped_read(s, p + 8, 8); }
        let _player_adena = r.u64_or(0);
        let store_title = match read_utf16z(r, true) {
            Ok(t) => t,
            Err(_) => String::new(),
        };
        let ghost e = r.pos as int;
        let count = match r.read_u32() {
            Some(v) => v,
            None => { return None; },
        };
        if count > 500 {
            return None;
        }
        let mut items: Vec<PrivateStoreItem> = Vec::new();
        let mut i: u32 = 0;
        while i < count
            invariant
                r.wf(),
                r.data@ == s,
                0 <= e,
                count <= 500,
                i <= count,
                r.pos == clamp(s, e + 4 + 26 * i),
                items@ =~= Seq::new(i as nat, |j: int| store_item_at(s, e + 4 + 26 * j)),
            decreases count - i,
        {
            let ghost q = e + 4 + 26 * i;
            proof { lemma_clamped_read(s, q, 4); }
            let item_object_id = r.u32_or(0);
            proof { lemma_clamped_read(s, q + 4, 4); }
            let item_id = r.u32_or(0);
            proof { lemma_clamped_read(s, q + 8, 8); }
            let cnt = r.u64_or(1);
            proof { lemma_clamped_read(s, q + 16, 8); }
            let price = r.u64_or(0);
            proof { lemma_clamped_read(s, q + 24, 2); }
            let enchant_level = r.u16_or(0);
            let it = PrivateStoreItem { item_object_id, item_id, count: cnt, price, enchant_level };
            assert(it == store_item_at(s, q));
            items.push(it);
            i = i + 1;
        }
        Some(PrivateStorePacket { seller_object_id, store_type, store_title, items })
    }
}

// ---------------------------------------------------------------- commission

/// `u64::saturating_mul`.
pub open spec fn sat_mul(a: u64, b: u64) -> u64 {
    if a * b > u64::MAX { u64::MAX } else { (a * b) as u64 }
}

/// The auction listing at `q` and where it ends: listing id, object id, item
/// id, count (default 1), unit price, days, end time, enchant level and the
/// seller's name; the total is the saturated product of price and count.
pub open spec fn commission_item_at(s: Seq<u8>, q: int) -> (CommissionItemView, int) {
    let name = utf16z_read(s, clamp(s, q + 42), true);
    (
        CommissionItemView {
            commission_id: u64_or(s, q, 0) as u64,
            item_object_id: u32_or(s, q + 8, 0) as u32,
            item_id: u32_or(s, q + 12, 0) as u32,
            count: u64_or(s, q + 16, 1) as u64,
            price_per_unit: u64_or(s, q + 24, 0) as u64,
            total_price: sat_mul(u64_or(s, q + 24, 0) as u64, u64_or(s, q + 16, 1) as u64),
            enchant_level: u16_or(s, q + 40, 0) as u16,
            seller_name: text_or_empty(name.0),
            duration_days: u32_or(s, q + 32, 0) as u32,
            end_time_epoch_sec: u32_or(s, q + 36, 0) as u64,
        },
        name.1,
    )
}

/// The first `k` auction listings starting at `q`, and where they end.
pub open spec fn commission_items(s: Seq<u8>, q: int, k: nat) -> (Seq<CommissionItemView>, int)
    decreases k,
{
    if k == 0 {
        (seq![], q)
    } else {
        let prev = commission_items(s, q, (k - 1) as nat);
        let it = commission_item_at(s, prev.1);
        (prev.0.push(it.0), it.1)
    }
}

/// Auction listings at `p`: a list kind (unused), a count (at most 500) and
/// the listings.
pub open spec fn commission_list_at(s: Seq<u8>, p: int) -> Option<CommissionListView> {
    if !fits(s, p + 4, 4) || le32(s, p + 4) > 500 {
        None
    } else {
        Some(CommissionListView { items: commission_items(s, p + 8, le32(s, p + 4) as nat).0 })
    }
}

impl L2Packet {
    /// Parses auction house listings.
    pub(crate) fn parse_commission_list(r: &mut WireReader) -> (res: Option<CommissionListPacket>)
        requires
            old(r).wf(),
        ensures
            view_opt(res) == commission_list_at(old(r).data@, old(r).pos as int),
    {
        let ghost s = r.data@;
        let ghost p = r.pos as int;
        proof { lemma_clamped_read(s, p, 4); }
        let _list_type = r.u32_or(0);
        proof { lemma_clamped_read(s, p + 4, 4); }
        let count = match r.read_u32() {
            Some(v) => v,
            None => { return None; },
        };
        if count > 500 {
            return None;
        }
        let mut items: Vec<CommissionItem> = Vec::new();
        let mut i: u32 = 0;
        while i < count
            invariant
                r.wf(),
                r.data@ == s,
                0 <= p,
                count <= 500,
                i <= count,
                r.pos == commission_items(s, p + 8, i as nat).1,
                items@.map_values(|x: CommissionItem| x@) =~= commission_items(s, p + 8, i as nat).0,
            decreases count - i,
        {
            let ghost q = r.pos as int;
            proof { lemma_clamped_read(s, q, 8); }
            let commission_id = r.u64_or(0);
            proof { lemma_clamped_read(s, q + 8, 4); }
            let item_object_id = r.u32_or(0);
            proof { lemma_clamped_read(s, q + 12, 4); }
            let item_id = r.u32_or(0);
            proof { lemma_clamped_read(s, q + 16, 8); }
            let cnt = r.u64_or(1);
            proof { lemma_clamped_read(s, q + 24, 8); }
            let price_per_unit = r.u64_or(0);
            let total_price = match price_per_unit.checked_mul(cnt) {
                Some(v) => v,
                None => u64::MAX,
            };
            proof { lemma_clamped_read(s, q + 32, 4); }
            let duration_days = r.u32_or(0);
            proof { lemma_clamped_read(s, q + 36, 4); }
            let end_time_epoch_sec = r.u32_or(0) as u64;
            proof { lemma_clamped_read(s, q + 40, 2); }
            let enchant_level = r.u16_or(0);
            let seller_name = match read_utf16z(r, true) {
                Ok(t) => t,
                Err(_) => String::new(),
            };
            let it = CommissionItem {
                commission_id,
                item_object_id,
                item_id,
                count: cnt,
                price_per_unit,
                total_price,
                enchant_level,
                seller_name,
                duration_days,
                end_time_epoch_sec,
            };
            assert(it@ == commission_item_at(s, q).0);
            let ghost before = items@;
            items.push(it);
            assert(items@.map_values(|x: CommissionItem| x@) =~= before.map_values(|x: CommissionItem| x@).push(it@));
            i = i + 1;
        }
        Some(CommissionListPacket { items })
    }
}

// ---------------------------------------------------------------- world exchange

/// The world exchange listing at `q` and where it ends: listing id, item id,
/// count (default 1), prices in adena and in L-coins, enchant level, end time
/// and the seller's name.
pub open spec fn exchange_item_at(s: Seq<u8>, q: int) -> (WorldExchangeItemView, int) {
    let name = utf16z_read(s, clamp(s, q + 46), true);
    (
        WorldExchangeItemView {
            listing_id: u64_or(s, q, 0) as u64,
            item_id: u32_or(s, q + 8, 0) as u32,
            count: u64_or(s, q + 12, 1) as u64,
            price_adena: u64_or(s, q + 20, 0) as u64,
            price_lcoin: u64_or(s, q + 28, 0) as u64,
            enchant_level: u16_or(s, q + 36, 0) as u16,
            seller_name: text_or_empty(name.0),
            end_time_epoch_sec: u64_or(s, q + 38, 0) as u64,
        },
        name.1,
    )
}

/// The first `k` world exchange listings starting at `q`, and where they end.
pub open spec fn exchange_items(s: Seq<u8>, q: int, k: nat) -> (Seq<WorldExchangeItemView>, int)
    decreases k,
{
    if k == 0 {
        (seq![], q)
    } else {
        let prev = exchange_items(s, q, (k - 1) as nat);
        let it = exchange_item_at(s, prev.1);
        (prev.0.push(it.0), it.1)
    }
}

/// World exchange listings at `p`: a count (at most 500) and the listings.
pub open spec fn world_exchange_at(s: Seq<u8>, p: int) -> Option<WorldExchangeListView> {
    if !fits(s, p, 4) || le32(s, p) > 500 {
        None
    } else {
        Some(WorldExchangeListView { items: exchange_items(s, p + 4, le32(s, p) as nat).0 })
    }
}

impl L2Packet {
    /// Parses world exchange listings.
    pub(crate) fn parse_world_exchange_list(r: &mut WireReader) -> (res: Option<WorldExchangeListPacket>)
        requires
            old(r).wf(),
        ensures
            view_opt(res) == world_exchange_at(old(r).data@, old(r).pos as int),
    {
        let ghost s = r.data@;
        let ghost p = r.pos as int;
        let count = match r.read_u32() {
            Some(v) => v,
            None => { return None; },
        };
        if count > 500 {
            return None;
        }
        let mut items: Vec<WorldExchangeItem> = Vec::new();
        let mut i: u32 = 0;
        while i < count
            invariant
                r.wf(),
                r.data@ == s,
                0 <= p,
                count <= 500,
                i <= count,
                r.pos == exchange_items(s, p + 4, i as nat).1,
                items@.map_values(|x: WorldExchangeItem| x@) =~= exchange_items(s, p + 4, i as nat).0,
            decreases count - i,
        {
            let ghost q = r.pos as int;
            proof { lemma_clamped_read(s, q, 8); }
            let listing_id = r.u64_or(0);
            proof { lemma_clamped_read(s, q + 8, 4); }
            let item_id = r.u32_or(0);
            proof { lemma_clamped_read(s, q + 12, 8); }
            let cnt = r.u64_or(1);
            proof { lemma_clamped_read(s, q + 20, 8); }
            let price_adena = r.u64_or(0);
            proof { lemma_clamped_read(s, q + 28, 8); }
            let price_lcoin = r.u64_or(0);
            proof { lemma_clamped_read(s, q + 36, 2); }
            let enchant_level = r.u16_or(0);
            proof { lemma_clamped_read(s, q + 38, 8); }
            let end_time_epoch_sec = r.u64_or(0);
            let seller_name = match read_utf16z(r, true) {
                Ok(t) => t,
                Err(_) => String::new(),
            };
            let it = WorldExchangeItem {
                listing_id,
                item_id,
                count: cnt,
                price_adena,
                price_lcoin,
                enchant_level,
                seller_name,
                end_time_epoch_sec,
            };
            assert(it@ == exchange_item_at(s, q).0);
            let ghost before = items@;
            items.push(it);
            assert(items@.map_values(|x: WorldExchangeItem| x@) =~= before.map_values(|x: WorldExchangeItem| x@).push(it@));
            i = i + 1;
        }
        Some(WorldExchangeListPacket { items })
    }
}

// ---------------------------------------------------------------- gold coin store

/// The store offering at `q`: product id, item id, item count (default 1),
/// price, daily limit and times bought.
pub open spec fn product_at(s: Seq<u8>, q: int) -> EinhasadProduct {
    EinhasadProduct {
        product_id: u32_or(s, q, 0) as u32,
        item_id: u32_or(s, q + 4, 0) as u32,
        item_count: u32_or(s, q + 8, 1) as u32,
        price_gold_coins: u32_or(s, q + 12, 0) as u32,
        daily_limit: u32_or(s, q + 16, 0) as u32,
        buy_count: u32_or(s, q + 20, 0) as u32,
    }
}

/// Gold coin store offerings at `p`: a count (at most 500) and the records.
pub open spec fn einhasad_store_at(s: Seq<u8>, p: int) -> Option<EinhasadStoreView> {
    if !fits(s, p, 4) || le32(s, p) > 500 {
        None
    } else {
        Some(EinhasadStoreView { products: Seq::new(le32(s, p) as nat, |i: int| product_at(s, p + 4 + 24 * i)) })
    }
}

impl L2Packet {
    /// Parses gold coin store offerings.
    pub(crate) fn parse_einhasad_store(r: &mut WireReader) -> (res: Option<EinhasadStorePacket>)
        requires
            old(r).wf(),
        ensures
            view_opt(res) == einhasad_store_at(old(r).data@, old(r).pos as int),
    {
        let ghost s = r.data@;
        let ghost p = r.pos as int;
        let count = match r.read_u32() {
            Some(v) => v,
            None => { return None; },
        };
        if count > 500 {
            return None;
        }
        let mut products: Vec<EinhasadProduct> = Vec::new();
        let mut i: u32 = 0;
        while i < count
            invariant
                r.wf(),
                r.data@ == s,
                0 <= p,
                count <= 500,
                i <= count,
                r.pos == clamp(s, p + 4 + 24 * i),
                products@ =~= Seq::new(i as nat, |j: int| product_at(s, p + 4 + 24 * j)),
            decreases count - i,
        {
            let ghost q = p + 4 + 24 * i;
            proof { lemma_clamped_read(s, q, 4); }
            let product_id = r.u32_or(0);
            proof { lemma_clamped_read(s, q + 4, 4); }
            let item_id = r.u32_or(0);
            proof { lemma_clamped_read(s, q + 8, 4); }
            let item_count = r.u32_or(1);
            proof { lemma_clamped_read(s, q + 12, 4); }
            let price_gold_coins = r.u32_or(0);
            proof { lemma_clamped_read(s, q + 16, 4); }
            let daily_limit = r.u32_or(0);
            proof { lemma_clamped_read(s, q + 20, 4); }
            let buy_count = r.u32_or(0);
            let it = EinhasadProduct { product_id, item_id, item_count, price_gold_coins, daily_limit, buy_count };
            assert(it == product_at(s, q));
            products.push(it);
            i = i + 1;
        }
        Some(EinhasadStorePacket { products })
    }
}

// ---------------------------------------------------------------- movement

/// A movement at `p`: object id and target coordinates are required, the
/// origin defaults to zeros.
pub open spec fn move_to_location_at(s: Seq<u8>, p: int) -> Option<MoveToLocationPacket> {
    if !fits(s, p, 16) {
        None
    } else {
        Some(
            MoveToLocationPacket {
                object_id: le32(s, p) as u32,
                target_x: as_i32(le32(s, p + 4)) as i32,
                target_y: as_i32(le32(s, p + 8)) as i32,
                target_z: as_i32(le32(s, p + 12)) as i32,
                origin_x: i32_or(s, p + 16, 0) as i32,
                origin_y: i32_or(s, p + 20, 0) as i32,
                origin_z: i32_or(s, p + 24, 0) as i32,
            },
        )
    }
}

impl L2Packet {
    /// Parses a movement.
    pub(crate) fn parse_move_to_location(r: &mut WireReader) -> (res: Option<MoveToLocationPacket>)
        requires
            old(r).wf(),
        ensures
            res == move_to_location_at(old(r).data@, old(r).pos as int),
    {
        let ghost s = r.data@;
        let ghost p = r.pos as int;
        let object_id = match r.read_u32() {
            Some(v) => v,
            None => { return None; },
        };
        let target_x = match r.read_i32() {
            Some(v) => v,
            None => { return None; },
        };
        let target_y = match r.read_i32() {
            Some(v) => v,
            None => { return None; },
        };
        let target_z = match r.read_i32() {
            Some(v) => v,
            None => { return None; },
        };
        proof { lemma_clamped_read(s, p + 16, 4); }
        let origin_x = r.i32_or(0);
        proof { lemma_clamped_read(s, p + 20, 4); }
        let origin_y = r.i32_or(0);
        proof { lemma_clamped_read(s, p + 24, 4); }
        let origin_z = r.i32_or(0);
        Some(MoveToLocationPacket { object_id, target_x, target_y, target_z, origin_x, origin_y, origin_z })
    }
}

} // verus!
