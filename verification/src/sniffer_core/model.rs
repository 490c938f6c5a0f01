//! Domain records of the sniffer's state: characters, accounts and market
//! listings, with conversions from the decoded packets.

use vstd::prelude::*;
pub use crate::service::model::{copy_plain, copy_text_opt, duplicate_all, text_opt, views, Duplicate};

verus! {

/// Kind of warehouse.
#[derive(Debug, Clone, Copy, PartialEq, Eq, Structural)]
pub enum WarehouseType {
    Private,
    Clan,
    Castle,
    Freight,
    Package,
}

impl Default for WarehouseType {
    fn default() -> (r: Self)
        ensures
            r == WarehouseType::Private,
    {
        WarehouseType::Private
    }
}

/// The warehouse kind of a decoded packet's kind.
pub open spec fn warehouse_type_of(w: crate::sniffer_protocol::packet::WarehouseType) -> WarehouseType {
    match w {
        crate::sniffer_protocol::packet::WarehouseType::Private => WarehouseType::Private,
        crate::sniffer_protocol::packet::WarehouseType::Clan => WarehouseType::Clan,
        crate::sniffer_protocol::packet::WarehouseType::Castle => WarehouseType::Castle,
        crate::sniffer_protocol::packet::WarehouseType::Freight => WarehouseType::Freight,
        crate::sniffer_protocol::packet::WarehouseType::Package => WarehouseType::Package,
    }
}

impl From<crate::sniffer_protocol::packet::WarehouseType> for WarehouseType {
    fn from(w: crate::sniffer_protocol::packet::WarehouseType) -> (r: Self) {
        match w {
            crate::sniffer_protocol::packet::WarehouseType::Private => WarehouseType::Private,
            crate::sniffer_protocol::packet::WarehouseType::Clan => WarehouseType::Clan,
            crate::sniffer_protocol::packet::WarehouseType::Castle => WarehouseType::Castle,
            crate::sniffer_protocol::packet::WarehouseType::Freight => WarehouseType::Freight,
            crate::sniffer_protocol::packet::WarehouseType::Package => WarehouseType::Package,
        }
    }
}

impl vstd::std_specs::convert::FromSpecImpl<crate::sniffer_protocol::packet::WarehouseType> for WarehouseType {
    open spec fn obeys_from_spec() -> bool {
        true
    }

    open spec fn from_spec(w: crate::sniffer_protocol::packet::WarehouseType) -> WarehouseType {
        warehouse_type_of(w)
    }
}

/// Kind of player store.
#[derive(Debug, Clone, Copy, PartialEq, Eq, Structural)]
pub enum PrivateStoreType {
    Sell,
    Buy,
    PackageSell,
    Manufacture,
}

impl Default for PrivateStoreType {
    fn default() -> (r: Self)
        ensures
            r == PrivateStoreType::Sell,
    {
        PrivateStoreType::Sell
    }
}

/// The store kind of a decoded packet's kind.
pub open spec fn store_type_of(p: crate::sniffer_protocol::packet::PrivateStoreType) -> PrivateStoreType {
    match p {
        crate::sniffer_protocol::packet::PrivateStoreType::Sell => PrivateStoreType::Sell,
        crate::sniffer_protocol::packet::PrivateStoreType::Buy => PrivateStoreType::Buy,
        crate::sniffer_protocol::packet::PrivateStoreType::PackageSell => PrivateStoreType::PackageSell,
        crate::sniffer_protocol::packet::PrivateStoreType::Manufacture => PrivateStoreType::Manufacture,
    }
}

impl From<crate::sniffer_protocol::packet::PrivateStoreType> for PrivateStoreType {
    fn from(p: crate::sniffer_protocol::packet::PrivateStoreType) -> (r: Self) {
        match p {
            crate::sniffer_protocol::packet::PrivateStoreType::Sell => PrivateStoreType::Sell,
            crate::sniffer_protocol::packet::PrivateStoreType::Buy => PrivateStoreType::Buy,
            crate::sniffer_protocol::packet::PrivateStoreType::PackageSell => PrivateStoreType::PackageSell,
            crate::sniffer_protocol::packet::PrivateStoreType::Manufacture => PrivateStoreType::Manufacture,
        }
    }
}

impl vstd::std_specs::convert::FromSpecImpl<crate::sniffer_protocol::packet::PrivateStoreType> for PrivateStoreType {
    open spec fn obeys_from_spec() -> bool {
        true
    }

    open spec fn from_spec(p: crate::sniffer_protocol::packet::PrivateStoreType) -> PrivateStoreType {
        store_type_of(p)
    }
}

/// One character of an account's roster; hit points, mana points and the
/// experience fraction are kept as the bit patterns of their doubles.
#[derive(Debug, Clone, PartialEq, Eq, Default)]
pub struct CharSelectSlot {
    pub name: String,
    pub title: String,
    pub char_id: u32,
    pub level: u32,
    pub class_id: u32,
    pub cur_hp_bits: u64,
    pub max_hp_bits: u64,
    pub cur_mp_bits: u64,
    pub max_mp_bits: u64,
    pub sp: u64,
    pub exp: u64,
    pub exp_fraction_bits: u64,
    pub reputation: i32,
    pub pk_kills: u32,
    pub pvp_kills: u32,
    pub vitality: u32,
    pub last_access: u32,
}

/// Abstract value of a [`CharSelectSlot`].
pub struct CharSelectSlotView {
    pub name: Seq<char>,
    pub title: Seq<char>,
    pub char_id: u32,
    pub level: u32,
    pub class_id: u32,
    pub cur_hp_bits: u64,
    pub max_hp_bits: u64,
    pub cur_mp_bits: u64,
    pub max_mp_bits: u64,
    pub sp: u64,
    pub exp: u64,
    pub exp_fraction_bits: u64,
    pub reputation: i32,
    pub pk_kills: u32,
    pub pvp_kills: u32,
    pub vitality: u32,
    pub last_access: u32,
}

impl View for CharSelectSlot {
    type V = CharSelectSlotView;

    open spec fn view(&self) -> CharSelectSlotView {
        CharSelectSlotView {
            name: self.name@,
            title: self.title@,
            char_id: self.char_id,
            level: self.level,
            class_id: self.class_id,
            cur_hp_bits: self.cur_hp_bits,
            max_hp_bits: self.max_hp_bits,
            cur_mp_bits: self.cur_mp_bits,
            max_mp_bits: self.max_mp_bits,
            sp: self.sp,
            exp: self.exp,
            exp_fraction_bits: self.exp_fraction_bits,
            reputation: self.reputation,
            pk_kills: self.pk_kills,
            pvp_kills: self.pvp_kills,
            vitality: self.vitality,
            last_access: self.last_access,
        }
    }
}

impl From<crate::sniffer_protocol::packet::CharSelectSlot> for CharSelectSlot {
    fn from(s: crate::sniffer_protocol::packet::CharSelectSlot) -> (r: Self) {
        CharSelectSlot {
            name: s.name,
            title: s.title,
            char_id: s.char_id,
            level: s.level,
            class_id: s.class_id,
            cur_hp_bits: s.cur_hp_bits,
            max_hp_bits: s.max_hp_bits,
            cur_mp_bits: s.cur_mp_bits,
            max_mp_bits: s.max_mp_bits,
            sp: s.sp,
            exp: s.exp,
            exp_fraction_bits: s.exp_fraction_bits,
            reputation: s.reputation,
            pk_kills: s.pk_kills,
            pvp_kills: s.pvp_kills,
            vitality: s.vitality,
            last_access: s.last_access,
        }
    }
}

impl vstd::std_specs::convert::FromSpecImpl<crate::sniffer_protocol::packet::CharSelectSlot> for CharSelectSlot {
    open spec fn obeys_from_spec() -> bool {
        true
    }

    open spec fn from_spec(s: crate::sniffer_protocol::packet::CharSelectSlot) -> CharSelectSlot {
        CharSelectSlot {
            name: s.name,
            title: s.title,
            char_id: s.char_id,
            level: s.level,
            class_id: s.class_id,
            cur_hp_bits: s.cur_hp_bits,
            max_hp_bits: s.max_hp_bits,
            cur_mp_bits: s.cur_mp_bits,
            max_mp_bits: s.max_mp_bits,
            sp: s.sp,
            exp: s.exp,
            exp_fraction_bits: s.exp_fraction_bits,
            reputation: s.reputation,
            pk_kills: s.pk_kills,
            pvp_kills: s.pvp_kills,
            vitality: s.vitality,
            last_access: s.last_access,
        }
    }
}

/// One inventory or warehouse item.
#[derive(Debug, Clone, PartialEq, Eq, Default)]
pub struct InventoryItem {
    pub object_id: u32,
    pub item_id: u32,
    pub count: u64,
    pub item_type: u16,
    pub item_type_name: String,
    pub equipped: bool,
    pub slot: u32,
    pub enchant_level: u16,
    pub custom_type1: u16,
    pub is_augmented: bool,
    pub mana: i32,
    pub durability: i32,
}

/// Abstract value of a [`InventoryItem`].
pub struct InventoryItemView {
    pub object_id: u32,
    pub item_id: u32,
    pub count: u64,
    pub item_type: u16,
    pub item_type_name: Seq<char>,
    pub equipped: bool,
    pub slot: u32,
    pub enchant_level: u16,
    pub custom_type1: u16,
    pub is_augmented: bool,
    pub mana: i32,
    pub durability: i32,
}

impl View for InventoryItem {
    type V = InventoryItemView;

    open spec fn view(&self) -> InventoryItemView {
        InventoryItemView {
            object_id: self.object_id,
            item_id: self.item_id,
            count: self.count,
            item_type: self.item_type,
            item_type_name: self.item_type_name@,
            equipped: self.equipped,
            slot: self.slot,
            enchant_level: self.enchant_level,
            custom_type1: self.custom_type1,
            is_augmented: self.is_augmented,
            mana: self.mana,
            durability: self.durability,
        }
    }
}

impl From<crate::sniffer_protocol::packet::ItemInfo> for InventoryItem {
    fn from(s: crate::sniffer_protocol::packet::ItemInfo) -> (r: Self) {
        InventoryItem {
            object_id: s.object_id,
            item_id: s.item_id,
            count: s.count,
            item_type: s.item_type,
            item_type_name: s.item_type_name,
            equipped: s.equipped,
            slot: s.slot,
            enchant_level: s.enchant_level,
            custom_type1: s.custom_type1,
            is_augmented: s.is_augmented,
            mana: s.mana,
            durability: s.durability,
        }
    }
}

impl vstd::std_specs::convert::FromSpecImpl<crate::sniffer_protocol::packet::ItemInfo> for InventoryItem {
    open spec fn obeys_from_spec() -> bool {
        true
    }

    open spec fn from_spec(s: crate::sniffer_protocol::packet::ItemInfo) -> InventoryItem {
        InventoryItem {
            object_id: s.object_id,
            item_id: s.item_id,
            count: s.count,
            item_type: s.item_type,
            item_type_name: s.item_type_name,
            equipped: s.equipped,
            slot: s.slot,
            enchant_level: s.enchant_level,
            custom_type1: s.custom_type1,
            is_augmented: s.is_augmented,
            mana: s.mana,
            durability: s.durability,
        }
    }
}

/// One learned skill.
#[derive(Debug, Clone, Copy, PartialEq, Eq, Default)]
pub struct SkillEntry {
    pub skill_id: u32,
    pub level: u32,
    pub sub_level: u32,
    pub is_passive: bool,
    pub is_disabled: bool,
    pub enchant_type: u32,
}

impl From<crate::sniffer_protocol::packet::SkillEntry> for SkillEntry {
    fn from(s: crate::sniffer_protocol::packet::SkillEntry) -> (r: Self) {
        SkillEntry {
            skill_id: s.skill_id,
            level: s.level,
            sub_level: s.sub_level,
            is_passive: s.is_passive,
            is_disabled: s.is_disabled,
            enchant_type: s.enchant_type,
        }
    }
}

impl vstd::std_specs::convert::FromSpecImpl<crate::sniffer_protocol::packet::SkillEntry> for SkillEntry {
    open spec fn obeys_from_spec() -> bool {
        true
    }

    open spec fn from_spec(s: crate::sniffer_protocol::packet::SkillEntry) -> SkillEntry {
        SkillEntry {
            skill_id: s.skill_id,
            level: s.level,
            sub_level: s.sub_level,
            is_passive: s.is_passive,
            is_disabled: s.is_disabled,
            enchant_type: s.enchant_type,
        }
    }
}

/// One active effect.
#[derive(Debug, Clone, Copy, PartialEq, Eq, Default)]
pub struct BuffEffect {
    pub skill_id: u32,
    pub level: u32,
    pub sub_level: u32,
    pub duration_secs: u32,
    pub abnormal_type: u32,
    pub is_debuff: bool,
}

impl From<crate::sniffer_protocol::packet::BuffEffect> for BuffEffect {
    fn from(s: crate::sniffer_protocol::packet::BuffEffect) -> (r: Self) {
        BuffEffect {
            skill_id: s.skill_id,
            level: s.level,
            sub_level: s.sub_level,
            duration_secs: s.duration_secs,
            abnormal_type: s.abnormal_type,
            is_debuff: s.is_debuff,
        }
    }
}

impl vstd::std_specs::convert::FromSpecImpl<crate::sniffer_protocol::packet::BuffEffect> for BuffEffect {
    open spec fn obeys_from_spec() -> bool {
        true
    }

    open spec fn from_spec(s: crate::sniffer_protocol::packet::BuffEffect) -> BuffEffect {
        BuffEffect {
            skill_id: s.skill_id,
            level: s.level,
            sub_level: s.sub_level,
            duration_secs: s.duration_secs,
            abnormal_type: s.abnormal_type,
            is_debuff: s.is_debuff,
        }
    }
}

/// One item offered in a player's store.
#[derive(Debug, Clone, Copy, PartialEq, Eq, Default)]
pub struct PrivateStoreItem {
    pub item_object_id: u32,
    pub item_id: u32,
    pub count: u64,
    pub price: u64,
    pub enchant_level: u16,
}

impl From<crate::sniffer_protocol::packet::PrivateStoreItem> for PrivateStoreItem {
    fn from(s: crate::sniffer_protocol::packet::PrivateStoreItem) -> (r: Self) {
        PrivateStoreItem {
            item_object_id: s.item_object_id,
            item_id: s.item_id,
            count: s.count,
            price: s.price,
            enchant_level: s.enchant_level,
        }
    }
}

impl vstd::std_specs::convert::FromSpecImpl<crate::sniffer_protocol::packet::PrivateStoreItem> for PrivateStoreItem {
    open spec fn obeys_from_spec() -> bool {
        true
    }

    open spec fn from_spec(s: crate::sniffer_protocol::packet::PrivateStoreItem) -> PrivateStoreItem {
        PrivateStoreItem {
            item_object_id: s.item_object_id,
            item_id: s.item_id,
            count: s.count,
            price: s.price,
            enchant_level: s.enchant_level,
        }
    }
}

/// One auction house listing.
#[derive(Debug, Clone, PartialEq, Eq, Default)]
pub struct CommissionItem {
    pub commission_id: u64,
    pub item_object_id: u32,
    pub item_id: u32,
    pub count: u64,
    pub price_per_unit: u64,
    pub total_price: u64,
    pub enchant_level: u16,
    pub seller_name: String,
    pub duration_days: u32,
    pub end_time_epoch_sec: u64,
}

/// Abstract value of a [`CommissionItem`].
pub struct CommissionItemView {
    pub commission_id: u64,
    pub item_object_id: u32,
    pub item_id: u32,
    pub count: u64,
    pub price_per_unit: u64,
    pub total_price: u64,
    pub enchant_level: u16,
    pub seller_name: Seq<char>,
    pub duration_days: u32,
    pub end_time_epoch_sec: u64,
}

impl View for CommissionItem {
    type V = CommissionItemView;

    open spec fn view(&self) -> CommissionItemView {
        CommissionItemView {
            commission_id: self.commission_id,
            item_object_id: self.item_object_id,
            item_id: self.item_id,
            count: self.count,
            price_per_unit: self.price_per_unit,
            total_price: self.total_price,
            enchant_level: self.enchant_level,
            seller_name: self.seller_name@,
            duration_days: self.duration_days,
            end_time_epoch_sec: self.end_time_epoch_sec,
        }
    }
}

impl From<crate::sniffer_protocol::packet::CommissionItem> for CommissionItem {
    fn from(s: crate::sniffer_protocol::packet::CommissionItem) -> (r: Self) {
        CommissionItem {
            commission_id: s.commission_id,
            item_object_id: s.item_object_id,
            item_id: s.item_id,
            count: s.count,
            price_per_unit: s.price_per_unit,
            total_price: s.total_price,
            enchant_level: s.enchant_level,
            seller_name: s.seller_name,
            duration_days: s.duration_days,
            end_time_epoch_sec: s.end_time_epoch_sec,
        }
    }
}

impl vstd::std_specs::convert::FromSpecImpl<crate::sniffer_protocol::packet::CommissionItem> for CommissionItem {
    open spec fn obeys_from_spec() -> bool {
        true
    }

    open spec fn from_spec(s: crate::sniffer_protocol::packet::CommissionItem) -> CommissionItem {
        CommissionItem {
            commission_id: s.commission_id,
            item_object_id: s.item_object_id,
            item_id: s.item_id,
            count: s.count,
            price_per_unit: s.price_per_unit,
            total_price: s.total_price,
            enchant_level: s.enchant_level,
            seller_name: s.seller_name,
            duration_days: s.duration_days,
            end_time_epoch_sec: s.end_time_epoch_sec,
        }
    }
}

/// One world exchange listing.
#[derive(Debug, Clone, PartialEq, Eq, Default)]
pub struct WorldExchangeItem {
    pub listing_id: u64,
    pub item_id: u32,
    pub count: u64,
    pub price_adena: u64,
    pub price_lcoin: u64,
    pub enchant_level: u16,
    pub seller_name: String,
    pub end_time_epoch_sec: u64,
}

/// Abstract value of a [`WorldExchangeItem`].
pub struct WorldExchangeItemView {
    pub listing_id: u64,
    pub item_id: u32,
    pub count: u64,
    pub price_adena: u64,
    pub price_lcoin: u64,
    pub enchant_level: u16,
    pub seller_name: Seq<char>,
    pub end_time_epoch_sec: u64,
}

impl View for WorldExchangeItem {
    type V = WorldExchangeItemView;

    open spec fn view(&self) -> WorldExchangeItemView {
        WorldExchangeItemView {
            listing_id: self.listing_id,
            item_id: self.item_id,
            count: self.count,
            price_adena: self.price_adena,
            price_lcoin: self.price_lcoin,
            enchant_level: self.enchant_level,
            seller_name: self.seller_name@,
            end_time_epoch_sec: self.end_time_epoch_sec,
        }
    }
}

impl From<crate::sniffer_protocol::packet::WorldExchangeItem> for WorldExchangeItem {
    fn from(s: crate::sniffer_protocol::packet::WorldExchangeItem) -> (r: Self) {
        WorldExchangeItem {
            listing_id: s.listing_id,
            item_id: s.item_id,
            count: s.count,
            price_adena: s.price_adena,
            price_lcoin: s.price_lcoin,
            enchant_level: s.enchant_level,
            seller_name: s.seller_name,
            end_time_epoch_sec: s.end_time_epoch_sec,
        }
    }
}

impl vstd::std_specs::convert::FromSpecImpl<crate::sniffer_protocol::packet::WorldExchangeItem> for WorldExchangeItem {
    open spec fn obeys_from_spec() -> bool {
        true
    }

    open spec fn from_spec(s: crate::sniffer_protocol::packet::WorldExchangeItem) -> WorldExchangeItem {
        WorldExchangeItem {
            listing_id: s.listing_id,
            item_id: s.item_id,
            count: s.count,
            price_adena: s.price_adena,
            price_lcoin: s.price_lcoin,
            enchant_level: s.enchant_level,
            seller_name: s.seller_name,
            end_time_epoch_sec: s.end_time_epoch_sec,
        }
    }
}

/// One offering of the gold coin store.
#[derive(Debug, Clone, Copy, PartialEq, Eq, Default)]
pub struct EinhasadProduct {
    pub product_id: u32,
    pub item_id: u32,
    pub item_count: u32,
    pub price_gold_coins: u32,
    pub daily_limit: u32,
    pub buy_count: u32,
}

impl From<crate::sniffer_protocol::packet::EinhasadProduct> for EinhasadProduct {
    fn from(s: crate::sniffer_protocol::packet::EinhasadProduct) -> (r: Self) {
        EinhasadProduct {
            product_id: s.product_id,
            item_id: s.item_id,
            item_count: s.item_count,
            price_gold_coins: s.price_gold_coins,
            daily_limit: s.daily_limit,
            buy_count: s.buy_count,
        }
    }
}

impl vstd::std_specs::convert::FromSpecImpl<crate::sniffer_protocol::packet::EinhasadProduct> for EinhasadProduct {
    open spec fn obeys_from_spec() -> bool {
        true
    }

    open spec fn from_spec(s: crate::sniffer_protocol::packet::EinhasadProduct) -> EinhasadProduct {
        EinhasadProduct {
            product_id: s.product_id,
            item_id: s.item_id,
            item_count: s.item_count,
            price_gold_coins: s.price_gold_coins,
            daily_limit: s.daily_limit,
            buy_count: s.buy_count,
        }
    }
}

/// A position in the world.
#[derive(Debug, Clone, Copy, Default, PartialEq, Eq, Structural)]
pub struct Location {
    pub x: i32,
    pub y: i32,
    pub z: i32,
    pub heading: i32,
}

/// Hit, mana and combat points.
#[derive(Debug, Clone, Copy, Default, PartialEq, Eq, Structural)]
pub struct Vitals {
    pub cur_hp: u32,
    pub max_hp: u32,
    pub cur_mp: u32,
    pub max_mp: u32,
    pub cur_cp: u32,
    pub max_cp: u32,
}

/// Combat statistics.
#[derive(Debug, Clone, Copy, Default, PartialEq, Eq, Structural)]
pub struct Stats {
    pub p_atk: u32,
    pub p_def: u32,
    pub m_atk: u32,
    pub m_def: u32,
    pub p_atk_spd: u32,
    pub m_atk_spd: u32,
    pub run_spd: u32,
    pub walk_spd: u32,
}

/// A tracked player character.
#[derive(Debug, Default)]
pub struct Character {
    pub object_id: u32,
    pub account_name: Option<String>,
    pub name: String,
    pub title: String,
    pub class_id: u32,
    pub level: u32,
    pub exp: u64,
    pub sp: u32,
    pub karma: u32,
    pub pk_kills: u32,
    pub pvp_kills: u32,
    pub location: Location,
    pub vitals: Vitals,
    pub stats: Stats,
    pub skills: Vec<SkillEntry>,
    pub buffs: Vec<BuffEffect>,
    pub inventory: Vec<InventoryItem>,
    pub warehouse: Vec<InventoryItem>,
    pub client_addr: Option<String>,
    pub last_updated_epoch_ms: u64,
}

/// Abstract value of a [`Character`].
pub struct CharacterView {
    pub object_id: u32,
    pub account_name: Option<Seq<char>>,
    pub name: Seq<char>,
    pub title: Seq<char>,
    pub class_id: u32,
    pub level: u32,
    pub exp: u64,
    pub sp: u32,
    pub karma: u32,
    pub pk_kills: u32,
    pub pvp_kills: u32,
    pub location: Location,
    pub vitals: Vitals,
    pub stats: Stats,
    pub skills: Seq<SkillEntry>,
    pub buffs: Seq<BuffEffect>,
    pub inventory: Seq<InventoryItemView>,
    pub warehouse: Seq<InventoryItemView>,
    pub client_addr: Option<Seq<char>>,
    pub last_updated_epoch_ms: u64,
}

impl View for Character {
    type V = CharacterView;

    open spec fn view(&self) -> CharacterView {
        CharacterView {
            object_id: self.object_id,
            account_name: text_opt(self.account_name),
            name: self.name@,
            title: self.title@,
            class_id: self.class_id,
            level: self.level,
            exp: self.exp,
            sp: self.sp,
            karma: self.karma,
            pk_kills: self.pk_kills,
            pvp_kills: self.pvp_kills,
            location: self.location,
            vitals: self.vitals,
            stats: self.stats,
            skills: self.skills@,
            buffs: self.buffs@,
            inventory: views(self.inventory@),
            warehouse: views(self.warehouse@),
            client_addr: text_opt(self.client_addr),
            last_updated_epoch_ms: self.last_updated_epoch_ms,
        }
    }
}

/// A game account seen on the wire.
#[derive(Debug, Default)]
pub struct AccountSession {
    pub account_name: String,
    pub client_addr: String,
    pub character_roster: Vec<CharSelectSlot>,
    pub active_character: Option<String>,
    pub last_seen_epoch_ms: u64,
}

/// Abstract value of an [`AccountSession`].
pub struct AccountView {
    pub account_name: Seq<char>,
    pub client_addr: Seq<char>,
    pub character_roster: Seq<CharSelectSlotView>,
    pub active_character: Option<Seq<char>>,
    pub last_seen_epoch_ms: u64,
}

impl View for AccountSession {
    type V = AccountView;

    open spec fn view(&self) -> AccountView {
        AccountView {
            account_name: self.account_name@,
            client_addr: self.client_addr@,
            character_roster: views(self.character_roster@),
            active_character: text_opt(self.active_character),
            last_seen_epoch_ms: self.last_seen_epoch_ms,
        }
    }
}

/// A player's store as last seen.
#[derive(Debug, Default)]
pub struct PrivateStoreSession {
    pub seller_object_id: u32,
    pub seller_name: Option<String>,
    pub store_type: PrivateStoreType,
    pub store_title: String,
    pub items: Vec<PrivateStoreItem>,
    pub last_seen_epoch_ms: u64,
}

/// All market listings.
#[derive(Debug, Default)]
pub struct MarketState {
    pub private_stores: Vec<PrivateStoreSession>,
    pub commission_items: Vec<CommissionItem>,
    pub world_exchange_items: Vec<WorldExchangeItem>,
    pub einhasad_products: Vec<EinhasadProduct>,
}

impl Duplicate for CharSelectSlot {
    fn duplicate(&self) -> (r: Self) {
        CharSelectSlot {
            name: self.name.clone(),
            title: self.title.clone(),
            char_id: self.char_id,
            level: self.level,
            class_id: self.class_id,
            cur_hp_bits: self.cur_hp_bits,
            max_hp_bits: self.max_hp_bits,
            cur_mp_bits: self.cur_mp_bits,
            max_mp_bits: self.max_mp_bits,
            sp: self.sp,
            exp: self.exp,
            exp_fraction_bits: self.exp_fraction_bits,
            reputation: self.reputation,
            pk_kills: self.pk_kills,
            pvp_kills: self.pvp_kills,
            vitality: self.vitality,
            last_access: self.last_access,
        }
    }
}

impl Duplicate for InventoryItem {
    fn duplicate(&self) -> (r: Self) {
        InventoryItem {
            object_id: self.object_id,
            item_id: self.item_id,
            count: self.count,
            item_type: self.item_type,
            item_type_name: self.item_type_name.clone(),
            equipped: self.equipped,
            slot: self.slot,
            enchant_level: self.enchant_level,
            custom_type1: self.custom_type1,
            is_augmented: self.is_augmented,
            mana: self.mana,
            durability: self.durability,
        }
    }
}

impl Duplicate for Character {
    fn duplicate(&self) -> (r: Self) {
        Character {
            object_id: self.object_id,
            account_name: copy_text_opt(&self.account_name),
            name: self.name.clone(),
            title: self.title.clone(),
            class_id: self.class_id,
            level: self.level,
            exp: self.exp,
            sp: self.sp,
            karma: self.karma,
            pk_kills: self.pk_kills,
            pvp_kills: self.pvp_kills,
            location: self.location,
            vitals: self.vitals,
            stats: self.stats,
            skills: copy_plain(&self.skills),
            buffs: copy_plain(&self.buffs),
            inventory: duplicate_all(&self.inventory),
            warehouse: duplicate_all(&self.warehouse),
            client_addr: copy_text_opt(&self.client_addr),
            last_updated_epoch_ms: self.last_updated_epoch_ms,
        }
    }
}

impl Duplicate for AccountSession {
    fn duplicate(&self) -> (r: Self) {
        AccountSession {
            account_name: self.account_name.clone(),
            client_addr: self.client_addr.clone(),
            character_roster: duplicate_all(&self.character_roster),
            active_character: copy_text_opt(&self.active_character),
            last_seen_epoch_ms: self.last_seen_epoch_ms,
        }
    }
}

} // verus!
