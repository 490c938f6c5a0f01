//! Characters, accounts and market listings as the tracker keeps them.

use vstd::prelude::*;
pub use crate::sniffer_protocol::packet::{
    BuffEffect, CharSelectSlot, CharSelectSlotView, CommissionItem, CommissionItemView, EinhasadProduct,
    ItemInfo as InventoryItem, ItemInfoView, PrivateStoreItem, PrivateStoreType, SkillEntry, WarehouseType,
    WorldExchangeItem, WorldExchangeItemView,
};

verus! {

/// A position in the world.
#[derive(Debug, Clone, Copy, Default, PartialEq, Eq, Structural)]
pub struct Location {
    pub x: i32,
    pub y: i32,
    pub z: i32,
    pub heading: i32,
}

/// Hit, mana and combat points.
#[derive(Debug, Clone, Copy, Default, PartialEq, Eq, Structural)]
pub struct Vitals {
    pub cur_hp: u32,
    pub max_hp: u32,
    pub cur_mp: u32,
    pub max_mp: u32,
    pub cur_cp: u32,
    pub max_cp: u32,
}

/// Combat statistics.
#[derive(Debug, Clone, Copy, Default, PartialEq, Eq, Structural)]
pub struct Stats {
    pub p_atk: u32,
    pub p_def: u32,
    pub m_atk: u32,
    pub m_def: u32,
    pub p_atk_spd: u32,
    pub m_atk_spd: u32,
    pub run_spd: u32,
    pub walk_spd: u32,
}

/// A tracked player character.
#[derive(Debug, Default)]
pub struct Character {
    pub object_id: u32,
    pub account_name: Option<String>,
    pub name: String,
    pub title: String,
    pub class_id: u32,
    pub level: u32,
    pub exp: u64,
    pub sp: u32,
    pub karma: u32,
    pub pk_kills: u32,
    pub pvp_kills: u32,
    pub location: Location,
    pub vitals: Vitals,
    pub stats: Stats,
    pub skills: Vec<SkillEntry>,
    pub buffs: Vec<BuffEffect>,
    pub inventory: Vec<InventoryItem>,
    pub warehouse: Vec<InventoryItem>,
    pub client_addr: Option<String>,
    pub last_updated_epoch_ms: u64,
}

/// Abstract value of a [`Character`].
pub struct CharacterView {
    pub object_id: u32,
    pub account_name: Option<Seq<char>>,
    pub name: Seq<char>,
    pub title: Seq<char>,
    pub class_id: u32,
    pub level: u32,
    pub exp: u64,
    pub sp: u32,
    pub karma: u32,
    pub pk_kills: u32,
    pub pvp_kills: u32,
    pub location: Location,
    pub vitals: Vitals,
    pub stats: Stats,
    pub skills: Seq<SkillEntry>,
    pub buffs: Seq<BuffEffect>,
    pub inventory: Seq<ItemInfoView>,
    pub warehouse: Seq<ItemInfoView>,
    pub client_addr: Option<Seq<char>>,
    pub last_updated_epoch_ms: u64,
}

/// View of optional text.
pub open spec fn text_opt(o: Option<String>) -> Option<Seq<char>> {
    match o {
        Some(s) => Some(s@),
        None => None,
    }
}

/// Views of a sequence of values.
pub open spec fn views<T: View>(v: Seq<T>) -> Seq<T::V> {
    v.map_values(|x: T| x@)
}

impl View for Character {
    type V = CharacterView;

    open spec fn view(&self) -> CharacterView {
        CharacterView {
            object_id: self.object_id,
            account_name: text_opt(self.account_name),
            name: self.name@,
            title: self.title@,
            class_id: self.class_id,
            level: self.level,
            exp: self.exp,
            sp: self.sp,
            karma: self.karma,
            pk_kills: self.pk_kills,
            pvp_kills: self.pvp_kills,
            location: self.location,
            vitals: self.vitals,
            stats: self.stats,
            skills: self.skills@,
            buffs: self.buffs@,
            inventory: views(self.inventory@),
            warehouse: views(self.warehouse@),
            client_addr: text_opt(self.client_addr),
            last_updated_epoch_ms: self.last_updated_epoch_ms,
        }
    }
}

/// The character a first sighting of `object_id` starts from: every other
/// field zero, empty or absent.
pub open spec fn blank_character(object_id: u32) -> CharacterView {
    CharacterView {
        object_id,
        account_name: None,
        name: seq![],
        title: seq![],
        class_id: 0,
        level: 0,
        exp: 0,
        sp: 0,
        karma: 0,
        pk_kills: 0,
        pvp_kills: 0,
        location: Location { x: 0, y: 0, z: 0, heading: 0 },
        vitals: Vitals { cur_hp: 0, max_hp: 0, cur_mp: 0, max_mp: 0, cur_cp: 0, max_cp: 0 },
        stats: Stats { p_atk: 0, p_def: 0, m_atk: 0, m_def: 0, p_atk_spd: 0, m_atk_spd: 0, run_spd: 0, walk_spd: 0 },
        skills: seq![],
        buffs: seq![],
        inventory: seq![],
        warehouse: seq![],
        client_addr: None,
        last_updated_epoch_ms: 0,
    }
}

/// A game account seen on the wire.
#[derive(Debug, Default)]
pub struct AccountSession {
    pub account_name: String,
    pub client_addr: String,
    pub character_roster: Vec<CharSelectSlot>,
    pub active_character: Option<String>,
    pub last_seen_epoch_ms: u64,
}

/// Abstract value of an [`AccountSession`].
pub struct AccountView {
    pub account_name: Seq<char>,
    pub client_addr: Seq<char>,
    pub character_roster: Seq<CharSelectSlotView>,
    pub active_character: Option<Seq<char>>,
    pub last_seen_epoch_ms: u64,
}

impl View for AccountSession {
    type V = AccountView;

    open spec fn view(&self) -> AccountView {
        AccountView {
            account_name: self.account_name@,
            client_addr: self.client_addr@,
            character_roster: views(self.character_roster@),
            active_character: text_opt(self.active_character),
            last_seen_epoch_ms: self.last_seen_epoch_ms,
        }
    }
}

/// A player's store as last seen.
#[derive(Debug, Default)]
pub struct PrivateStoreSession {
    pub seller_object_id: u32,
    pub seller_name: Option<String>,
    pub store_type: PrivateStoreType,
    pub store_title: String,
    pub items: Vec<PrivateStoreItem>,
    pub last_seen_epoch_ms: u64,
}

/// Abstract value of a [`PrivateStoreSession`].
pub struct StoreView {
    pub seller_object_id: u32,
    pub seller_name: Option<Seq<char>>,
    pub store_type: PrivateStoreType,
    pub store_title: Seq<char>,
    pub items: Seq<PrivateStoreItem>,
    pub last_seen_epoch_ms: u64,
}

impl View for PrivateStoreSession {
    type V = StoreView;

    open spec fn view(&self) -> StoreView {
        StoreView {
            seller_object_id: self.seller_object_id,
            seller_name: text_opt(self.seller_name),
            store_type: self.store_type,
            store_title: self.store_title@,
            items: self.items@,
            last_seen_epoch_ms: self.last_seen_epoch_ms,
        }
    }
}

/// All market listings.
#[derive(Debug, Default)]
pub struct MarketState {
    pub private_stores: Vec<PrivateStoreSession>,
    pub commission_items: Vec<CommissionItem>,
    pub world_exchange_items: Vec<WorldExchangeItem>,
    pub einhasad_products: Vec<EinhasadProduct>,
}

/// Abstract value of a [`MarketState`].
pub struct MarketView {
    pub private_stores: Seq<StoreView>,
    pub commission_items: Seq<CommissionItemView>,
    pub world_exchange_items: Seq<WorldExchangeItemView>,
    pub einhasad_products: Seq<EinhasadProduct>,
}

impl View for MarketState {
    type V = MarketView;

    open spec fn view(&self) -> MarketView {
        MarketView {
            private_stores: views(self.private_stores@),
            commission_items: views(self.commission_items@),
            world_exchange_items: views(self.world_exchange_items@),
            einhasad_products: self.einhasad_products@,
        }
    }
}

// ---------------------------------------------------------------- copies

/// Values that can be copied with the same abstract value.
pub trait Duplicate: View + Sized {
    /// A copy with the same abstract value.
    fn duplicate(&self) -> (r: Self)
        ensures
            r@ == self@,
    ;
}

/// A copy of optional text.
pub fn copy_text_opt(o: &Option<String>) -> (r: Option<String>)
    ensures
        text_opt(r) == text_opt(*o),
{
    match o {
        Some(s) => Some(s.clone()),
        None => None,
    }
}

/// A copy of every value of a vector.
pub fn duplicate_all<T: Duplicate>(v: &Vec<T>) -> (r: Vec<T>)
    ensures
        views(r@) == views(v@),
{
    let mut r: Vec<T> = Vec::new();
    let mut i: usize = 0;
    while i < v.len()
        invariant
            i <= v@.len(),
            views(r@) =~= views(v@.take(i as int)),
        decreases v@.len() - i,
    {
        let x = v[i].duplicate();
        let ghost before = r@;
        r.push(x);
        assert(views(r@) =~= views(before).push(x@));
        assert(v@.take(i + 1) =~= v@.take(i as int).push(v@[i as int]));
        assert(views(v@.take(i + 1)) =~= views(v@.take(i as int)).push(v@[i as int]@));
        i = i + 1;
    }
    assert(v@.take(i as int) =~= v@);
    r
}

/// A copy of a vector of plain values.
pub fn copy_plain<T: Copy>(v: &Vec<T>) -> (r: Vec<T>)
    ensures
        r@ == v@,
{
    let mut r: Vec<T> = Vec::new();
    let mut i: usize = 0;
    while i < v.len()
        invariant
            i <= v@.len(),
            r@ =~= v@.take(i as int),
        decreases v@.len() - i,
    {
        let x = v[i];
        r.push(x);
        assert(v@.take(i + 1) =~= v@.take(i as int).push(v@[i as int]));
        i = i + 1;
    }
    assert(v@.take(i as int) =~= v@);
    r
}

impl Duplicate for InventoryItem {
    fn duplicate(&self) -> (r: Self) {
        InventoryItem {
            object_id: self.object_id,
            item_id: self.item_id,
            count: self.count,
            item_type: self.item_type,
            item_type_name: self.item_type_name.clone(),
            equipped: self.equipped,
            slot: self.slot,
            enchant_level: self.enchant_level,
            custom_type1: self.custom_type1,
            is_augmented: self.is_augmented,
            mana: self.mana,
            durability: self.durability,
        }
    }
}

impl Duplicate for CharSelectSlot {
    fn duplicate(&self) -> (r: Self) {
        CharSelectSlot {
            name: self.name.clone(),
            title: self.title.clone(),
            char_id: self.char_id,
            level: self.level,
            class_id: self.class_id,
            cur_hp_bits: self.cur_hp_bits,
            max_hp_bits: self.max_hp_bits,
            cur_mp_bits: self.cur_mp_bits,
            max_mp_bits: self.max_mp_bits,
            sp: self.sp,
            exp: self.exp,
            exp_fraction_bits: self.exp_fraction_bits,
            reputation: self.reputation,
            pk_kills: self.pk_kills,
            pvp_kills: self.pvp_kills,
            vitality: self.vitality,
            last_access: self.last_access,
        }
    }
}

impl Duplicate for CommissionItem {
    fn duplicate(&self) -> (r: Self) {
        CommissionItem {
            commission_id: self.commission_id,
            item_object_id: self.item_object_id,
            item_id: self.item_id,
            count: self.count,
            price_per_unit: self.price_per_unit,
            total_price: self.total_price,
            enchant_level: self.enchant_level,
            seller_name: self.seller_name.clone(),
            duration_days: self.duration_days,
            end_time_epoch_sec: self.end_time_epoch_sec,
        }
    }
}

impl Duplicate for WorldExchangeItem {
    fn duplicate(&self) -> (r: Self) {
        WorldExchangeItem {
            listing_id: self.listing_id,
            item_id: self.item_id,
            count: self.count,
            price_adena: self.price_adena,
            price_lcoin: self.price_lcoin,
            enchant_level: self.enchant_level,
            seller_name: self.seller_name.clone(),
            end_time_epoch_sec: self.end_time_epoch_sec,
        }
    }
}

impl Duplicate for Character {
    fn duplicate(&self) -> (r: Self) {
        Character {
            object_id: self.object_id,
            account_name: copy_text_opt(&self.account_name),
            name: self.name.clone(),
            title: self.title.clone(),
            class_id: self.class_id,
            level: self.level,
            exp: self.exp,
            sp: self.sp,
            karma: self.karma,
            pk_kills: self.pk_kills,
            pvp_kills: self.pvp_kills,
            location: self.location,
            vitals: self.vitals,
            stats: self.stats,
            skills: copy_plain(&self.skills),
            buffs: copy_plain(&self.buffs),
            inventory: duplicate_all(&self.inventory),
            warehouse: duplicate_all(&self.warehouse),
            client_addr: copy_text_opt(&self.client_addr),
            last_updated_epoch_ms: self.last_updated_epoch_ms,
        }
    }
}

impl Duplicate for AccountSession {
    fn duplicate(&self) -> (r: Self) {
        AccountSession {
            account_name: self.account_name.clone(),
            client_addr: self.client_addr.clone(),
            character_roster: duplicate_all(&self.character_roster),
            active_character: copy_text_opt(&self.active_character),
            last_seen_epoch_ms: self.last_seen_epoch_ms,
        }
    }
}

impl Duplicate for PrivateStoreSession {
    fn duplicate(&self) -> (r: Self) {
        PrivateStoreSession {
            seller_object_id: self.seller_object_id,
            seller_name: copy_text_opt(&self.seller_name),
            store_type: self.store_type,
            store_title: self.store_title.clone(),
            items: copy_plain(&self.items),
            last_seen_epoch_ms: self.last_seen_epoch_ms,
        }
    }
}

} // verus!
