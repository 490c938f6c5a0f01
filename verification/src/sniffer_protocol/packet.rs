//! Parsed packet payloads, their abstract views, and the opcode dispatch.

use vstd::prelude::*;
use vstd::slice::slice_to_vec;
use crate::wire::{fits, le16, le16_at, le32, lemma_le32_reads_written, lemma_u32_pairs_bytes, u32_bytes, u32_pairs_bytes, WireReader};
use crate::text::{read_utf16z, read_utf8z, utf16z_read, utf8z_read, ReadError};
use crate::sniffer_protocol::records::{
    abnormal_status_at, status_attrs, commission_list_at, einhasad_store_at, magic_effect_icons_at,
    move_to_location_at, private_store_at, skill_list_at, status_update_at, world_exchange_at,
};
use crate::sniffer_protocol::items::{inventory_update_at, item_list_at, warehouse_list_at};
use crate::sniffer_protocol::login::{auth_login_at, char_select_info_at, char_selected_at};

verus! {

/// A client's login to the game server.
#[derive(Debug, Clone, PartialEq, Eq)]
pub struct AuthLoginPacket {
    pub account_name: String,
    pub session_key1: u32,
    pub session_key2: u32,
}

/// Abstract value of an [`AuthLoginPacket`].
pub struct AuthLoginView {
    pub account_name: Seq<char>,
    pub session_key1: u32,
    pub session_key2: u32,
}

impl View for AuthLoginPacket {
    type V = AuthLoginView;

    open spec fn view(&self) -> AuthLoginView {
        AuthLoginView {
            account_name: self.account_name@,
            session_key1: self.session_key1,
            session_key2: self.session_key2,
        }
    }
}

/// One character of the selection roster. Hit points, mana points and the
/// experience fraction travel as IEEE-754 doubles; they are kept here as their
/// bit patterns.
#[derive(Debug, Clone, PartialEq, Eq, Default)]
pub struct CharSelectSlot {
    pub name: String,
    pub title: String,
    pub char_id: u32,
    pub level: u32,
    pub class_id: u32,
    pub cur_hp_bits: u64,
    pub max_hp_bits: u64,
    pub cur_mp_bits: u64,
    pub max_mp_bits: u64,
    pub sp: u64,
    pub exp: u64,
    pub exp_fraction_bits: u64,
    pub reputation: i32,
    pub pk_kills: u32,
    pub pvp_kills: u32,
    pub vitality: u32,
    pub last_access: u32,
}

/// Abstract value of a [`CharSelectSlot`].
pub struct CharSelectSlotView {
    pub name: Seq<char>,
    pub title: Seq<char>,
    pub char_id: u32,
    pub level: u32,
    pub class_id: u32,
    pub cur_hp_bits: u64,
    pub max_hp_bits: u64,
    pub cur_mp_bits: u64,
    pub max_mp_bits: u64,
    pub sp: u64,
    pub exp: u64,
    pub exp_fraction_bits: u64,
    pub reputation: i32,
    pub pk_kills: u32,
    pub pvp_kills: u32,
    pub vitality: u32,
    pub last_access: u32,
}

impl View for CharSelectSlot {
    type V = CharSelectSlotView;

    open spec fn view(&self) -> CharSelectSlotView {
        CharSelectSlotView {
            name: self.name@,
            title: self.title@,
            char_id: self.char_id,
            level: self.level,
            class_id: self.class_id,
            cur_hp_bits: self.cur_hp_bits,
            max_hp_bits: self.max_hp_bits,
            cur_mp_bits: self.cur_mp_bits,
            max_mp_bits: self.max_mp_bits,
            sp: self.sp,
            exp: self.exp,
            exp_fraction_bits: self.exp_fraction_bits,
            reputation: self.reputation,
            pk_kills: self.pk_kills,
            pvp_kills: self.pvp_kills,
            vitality: self.vitality,
            last_access: self.last_access,
        }
    }
}

/// Views of a sequence of roster slots.
pub open spec fn slot_views(v: Seq<CharSelectSlot>) -> Seq<CharSelectSlotView> {
    v.map_values(|x: CharSelectSlot| x@)
}

/// The character selection roster of an account.
#[derive(Debug, Clone, PartialEq, Eq)]
pub struct CharSelectInfoPacket {
    pub account_name: String,
    pub character_slots: Vec<CharSelectSlot>,
}

/// Abstract value of a [`CharSelectInfoPacket`].
pub struct CharSelectInfoView {
    pub account_name: Seq<char>,
    pub character_slots: Seq<CharSelectSlotView>,
}

impl View for CharSelectInfoPacket {
    type V = CharSelectInfoView;

    open spec fn view(&self) -> CharSelectInfoView {
        CharSelectInfoView {
            account_name: self.account_name@,
            character_slots: slot_views(self.character_slots@),
        }
    }
}

/// The player's own character as the server describes it.
#[derive(Debug, Clone, PartialEq, Eq, Default)]
pub struct UserInfoPacket {
    pub object_id: u32,
    pub session_id: u32,
    pub name: String,
    pub title: String,
    pub class_id: u32,
    pub level: u32,
    pub exp: u64,
    pub x: i32,
    pub y: i32,
    pub z: i32,
    pub heading: i32,
    pub cur_hp: u32,
    pub max_hp: u32,
    pub cur_mp: u32,
    pub max_mp: u32,
    pub cur_cp: u32,
    pub max_cp: u32,
    pub sp: u32,
    pub cur_load: u32,
    pub max_load: u32,
    pub p_atk: u32,
    pub p_def: u32,
    pub m_atk: u32,
    pub m_def: u32,
    pub p_atk_spd: u32,
    pub m_atk_spd: u32,
    pub karma: u32,
    pub pk_kills: u32,
    pub pvp_kills: u32,
}

/// Abstract value of a [`UserInfoPacket`].
pub struct UserInfoView {
    pub object_id: u32,
    pub session_id: u32,
    pub name: Seq<char>,
    pub title: Seq<char>,
    pub class_id: u32,
    pub level: u32,
    pub exp: u64,
    pub x: i32,
    pub y: i32,
    pub z: i32,
    pub heading: i32,
    pub cur_hp: u32,
    pub max_hp: u32,
    pub cur_mp: u32,
    pub max_mp: u32,
    pub cur_cp: u32,
    pub max_cp: u32,
    pub sp: u32,
    pub cur_load: u32,
    pub max_load: u32,
    pub p_atk: u32,
    pub p_def: u32,
    pub m_atk: u32,
    pub m_def: u32,
    pub p_atk_spd: u32,
    pub m_atk_spd: u32,
    pub karma: u32,
    pub pk_kills: u32,
    pub pvp_kills: u32,
}

impl View for UserInfoPacket {
    type V = UserInfoView;

    open spec fn view(&self) -> UserInfoView {
        UserInfoView {
            object_id: self.object_id,
            session_id: self.session_id,
            name: self.name@,
            title: self.title@,
            class_id: self.class_id,
            level: self.level,
            exp: self.exp,
            x: self.x,
            y: self.y,
            z: self.z,
            heading: self.heading,
            cur_hp: self.cur_hp,
            max_hp: self.max_hp,
            cur_mp: self.cur_mp,
            max_mp: self.max_mp,
            cur_cp: self.cur_cp,
            max_cp: self.max_cp,
            sp: self.sp,
            cur_load: self.cur_load,
            max_load: self.max_load,
            p_atk: self.p_atk,
            p_def: self.p_def,
            m_atk: self.m_atk,
            m_def: self.m_def,
            p_atk_spd: self.p_atk_spd,
            m_atk_spd: self.m_atk_spd,
            karma: self.karma,
            pk_kills: self.pk_kills,
            pvp_kills: self.pvp_kills,
        }
    }
}

/// One attribute of a status update.
#[derive(Debug, Clone, Copy, PartialEq, Eq)]
pub struct StatusUpdateAttribute {
    pub attr_id: u32,
    pub value: u32,
}

/// Changed attributes of one object.
#[derive(Debug, Clone, PartialEq, Eq)]
pub struct StatusUpdatePacket {
    pub object_id: u32,
    pub attributes: Vec<StatusUpdateAttribute>,
}

/// Abstract value of a [`StatusUpdatePacket`].
pub struct StatusUpdateView {
    pub object_id: u32,
    pub attributes: Seq<StatusUpdateAttribute>,
}

impl View for StatusUpdatePacket {
    type V = StatusUpdateView;

    open spec fn view(&self) -> StatusUpdateView {
        StatusUpdateView { object_id: self.object_id, attributes: self.attributes@ }
    }
}

/// One inventory or warehouse item.
#[derive(Debug, Clone, PartialEq, Eq, Default)]
pub struct ItemInfo {
    pub object_id: u32,
    pub item_id: u32,
    pub count: u64,
    pub item_type: u16,
    pub item_type_name: String,
    pub equipped: bool,
    pub slot: u32,
    pub enchant_level: u16,
    pub custom_type1: u16,
    pub is_augmented: bool,
    pub mana: i32,
    pub durability: i32,
}

/// Abstract value of an [`ItemInfo`].
pub struct ItemInfoView {
    pub object_id: u32,
    pub item_id: u32,
    pub count: u64,
    pub item_type: u16,
    pub item_type_name: Seq<char>,
    pub equipped: bool,
    pub slot: u32,
    pub enchant_level: u16,
    pub custom_type1: u16,
    pub is_augmented: bool,
    pub mana: i32,
    pub durability: i32,
}

impl View for ItemInfo {
    type V = ItemInfoView;

    open spec fn view(&self) -> ItemInfoView {
        ItemInfoView {
            object_id: self.object_id,
            item_id: self.item_id,
            count: self.count,
            item_type: self.item_type,
            item_type_name: self.item_type_name@,
            equipped: self.equipped,
            slot: self.slot,
            enchant_level: self.enchant_level,
            custom_type1: self.custom_type1,
            is_augmented: self.is_augmented,
            mana: self.mana,
            durability: self.durability,
        }
    }
}

/// Views of a sequence of items.
pub open spec fn item_views(v: Seq<ItemInfo>) -> Seq<ItemInfoView> {
    v.map_values(|x: ItemInfo| x@)
}

/// The player's inventory.
#[derive(Debug, Clone, PartialEq, Eq)]
pub struct ItemListPacket {
    pub show_window: bool,
    pub items: Vec<ItemInfo>,
}

/// Abstract value of an [`ItemListPacket`].
pub struct ItemListView {
    pub show_window: bool,
    pub items: Seq<ItemInfoView>,
}

impl View for ItemListPacket {
    type V = ItemListView;

    open spec fn view(&self) -> ItemListView {
        ItemListView { show_window: self.show_window, items: item_views(self.items@) }
    }
}

/// Changed inventory items.
#[derive(Debug, Clone, PartialEq, Eq)]
pub struct InventoryUpdatePacket {
    pub items: Vec<ItemInfo>,
}

/// Abstract value of an [`InventoryUpdatePacket`].
pub struct InventoryUpdateView {
    pub items: Seq<ItemInfoView>,
}

impl View for InventoryUpdatePacket {
    type V = InventoryUpdateView;

    open spec fn view(&self) -> InventoryUpdateView {
        InventoryUpdateView { items: item_views(self.items@) }
    }
}

/// Which warehouse a list belongs to.
#[derive(Debug, Clone, Copy, PartialEq, Eq)]
pub enum WarehouseType {
    Private,
    Clan,
    Castle,
    Freight,
    Package,
}

impl Default for WarehouseType {
    fn default() -> (r: Self)
        ensures
            r == WarehouseType::Private,
    {
        WarehouseType::Private
    }
}

/// Contents of a warehouse.
#[derive(Debug, Clone, PartialEq, Eq)]
pub struct WarehouseListPacket {
    pub wh_type: WarehouseType,
    pub player_adena: u64,
    pub items: Vec<ItemInfo>,
}

/// Abstract value of a [`WarehouseListPacket`].
pub struct WarehouseListView {
    pub wh_type: WarehouseType,
    pub player_adena: u64,
    pub items: Seq<ItemInfoView>,
}

impl View for WarehouseListPacket {
    type V = WarehouseListView;

    open spec fn view(&self) -> WarehouseListView {
        WarehouseListView {
            wh_type: self.wh_type,
            player_adena: self.player_adena,
            items: item_views(self.items@),
        }
    }
}

/// One learned skill.
#[derive(Debug, Clone, Copy, PartialEq, Eq, Default)]
pub struct SkillEntry {
    pub skill_id: u32,
    pub level: u32,
    pub sub_level: u32,
    pub is_passive: bool,
    pub is_disabled: bool,
    pub enchant_type: u32,
}

/// The player's skills.
#[derive(Debug, Clone, PartialEq, Eq)]
pub struct SkillListPacket {
    pub skills: Vec<SkillEntry>,
}

/// Abstract value of a [`SkillListPacket`].
pub struct SkillListView {
    pub skills: Seq<SkillEntry>,
}

impl View for SkillListPacket {
    type V = SkillListView;

    open spec fn view(&self) -> SkillListView {
        SkillListView { skills: self.skills@ }
    }
}

/// One active effect.
#[derive(Debug, Clone, Copy, PartialEq, Eq, Default)]
pub struct BuffEffect {
    pub skill_id: u32,
    pub level: u32,
    pub sub_level: u32,
    pub duration_secs: u32,
    pub abnormal_type: u32,
    pub is_debuff: bool,
}

/// Active effects in the newer layout.
#[derive(Debug, Clone, PartialEq, Eq)]
pub struct AbnormalStatusUpdatePacket {
    pub buffs: Vec<BuffEffect>,
}

/// Abstract value of an [`AbnormalStatusUpdatePacket`].
pub struct AbnormalStatusUpdateView {
    pub buffs: Seq<BuffEffect>,
}

impl View for AbnormalStatusUpdatePacket {
    type V = AbnormalStatusUpdateView;

    open spec fn view(&self) -> AbnormalStatusUpdateView {
        AbnormalStatusUpdateView { buffs: self.buffs@ }
    }
}

/// Active effects in the older layout.
#[derive(Debug, Clone, PartialEq, Eq)]
pub struct MagicEffectIconsPacket {
    pub buffs: Vec<BuffEffect>,
}

/// Abstract value of a [`MagicEffectIconsPacket`].
pub struct MagicEffectIconsView {
    pub buffs: Seq<BuffEffect>,
}

impl View for MagicEffectIconsPacket {
    type V = MagicEffectIconsView;

    open spec fn view(&self) -> MagicEffectIconsView {
        MagicEffectIconsView { buffs: self.buffs@ }
    }
}

/// One item on offer in a player's store.
#[derive(Debug, Clone, Copy, PartialEq, Eq, Default)]
pub struct PrivateStoreItem {
    pub item_object_id: u32,
    pub item_id: u32,
    pub count: u64,
    pub price: u64,
    pub enchant_level: u16,
}

/// Kind of player store.
#[derive(Debug, Clone, Copy, PartialEq, Eq)]
pub enum PrivateStoreType {
    Sell,
    Buy,
    PackageSell,
    Manufacture,
}

impl Default for PrivateStoreType {
    fn default() -> (r: Self)
        ensures
            r == PrivateStoreType::Sell,
    {
        PrivateStoreType::Sell
    }
}

/// A player's store.
#[derive(Debug, Clone, PartialEq, Eq)]
pub struct PrivateStorePacket {
    pub seller_object_id: u32,
    pub store_type: PrivateStoreType,
    pub store_title: String,
    pub items: Vec<PrivateStoreItem>,
}

/// Abstract value of a [`PrivateStorePacket`].
pub struct PrivateStoreView {
    pub seller_object_id: u32,
    pub store_type: PrivateStoreType,
    pub store_title: Seq<char>,
    pub items: Seq<PrivateStoreItem>,
}

impl View for PrivateStorePacket {
    type V = PrivateStoreView;

    open spec fn view(&self) -> PrivateStoreView {
        PrivateStoreView {
            seller_object_id: self.seller_object_id,
            store_type: self.store_type,
            store_title: self.store_title@,
            items: self.items@,
        }
    }
}

/// One auction house listing.
#[derive(Debug, Clone, PartialEq, Eq)]
pub struct CommissionItem {
    pub commission_id: u64,
    pub item_object_id: u32,
    pub item_id: u32,
    pub count: u64,
    pub price_per_unit: u64,
    pub total_price: u64,
    pub enchant_level: u16,
    pub seller_name: String,
    pub duration_days: u32,
    pub end_time_epoch_sec: u64,
}

/// Abstract value of a [`CommissionItem`].
pub struct CommissionItemView {
    pub commission_id: u64,
    pub item_object_id: u32,
    pub item_id: u32,
    pub count: u64,
    pub price_per_unit: u64,
    pub total_price: u64,
    pub enchant_level: u16,
    pub seller_name: Seq<char>,
    pub duration_days: u32,
    pub end_time_epoch_sec: u64,
}

impl View for CommissionItem {
    type V = CommissionItemView;

    open spec fn view(&self) -> CommissionItemView {
        CommissionItemView {
            commission_id: self.commission_id,
            item_object_id: self.item_object_id,
            item_id: self.item_id,
            count: self.count,
            price_per_unit: self.price_per_unit,
            total_price: self.total_price,
            enchant_level: self.enchant_level,
            seller_name: self.seller_name@,
            duration_days: self.duration_days,
            end_time_epoch_sec: self.end_time_epoch_sec,
        }
    }
}

/// Auction house listings.
#[derive(Debug, Clone, PartialEq, Eq)]
pub struct CommissionListPacket {
    pub items: Vec<CommissionItem>,
}

/// Abstract value of a [`CommissionListPacket`].
pub struct CommissionListView {
    pub items: Seq<CommissionItemView>,
}

impl View for CommissionListPacket {
    type V = CommissionListView;

    open spec fn view(&self) -> CommissionListView {
        CommissionListView { items: self.items@.map_values(|x: CommissionItem| x@) }
    }
}

/// One world exchange listing.
#[derive(Debug, Clone, PartialEq, Eq)]
pub struct WorldExchangeItem {
    pub listing_id: u64,
    pub item_id: u32,
    pub count: u64,
    pub price_adena: u64,
    pub price_lcoin: u64,
    pub enchant_level: u16,
    pub seller_name: String,
    pub end_time_epoch_sec: u64,
}

/// Abstract value of a [`WorldExchangeItem`].
pub struct WorldExchangeItemView {
    pub listing_id: u64,
    pub item_id: u32,
    pub count: u64,
    pub price_adena: u64,
    pub price_lcoin: u64,
    pub enchant_level: u16,
    pub seller_name: Seq<char>,
    pub end_time_epoch_sec: u64,
}

impl View for WorldExchangeItem {
    type V = WorldExchangeItemView;

    open spec fn view(&self) -> WorldExchangeItemView {
        WorldExchangeItemView {
            listing_id: self.listing_id,
            item_id: self.item_id,
            count: self.count,
            price_adena: self.price_adena,
            price_lcoin: self.price_lcoin,
            enchant_level: self.enchant_level,
            seller_name: self.seller_name@,
            end_time_epoch_sec: self.end_time_epoch_sec,
        }
    }
}

/// World exchange listings.
#[derive(Debug, Clone, PartialEq, Eq)]
pub struct WorldExchangeListPacket {
    pub items: Vec<WorldExchangeItem>,
}

/// Abstract value of a [`WorldExchangeListPacket`].
pub struct WorldExchangeListView {
    pub items: Seq<WorldExchangeItemView>,
}

impl View for WorldExchangeListPacket {
    type V = WorldExchangeListView;

    open spec fn view(&self) -> WorldExchangeListView {
        WorldExchangeListView { items: self.items@.map_values(|x: WorldExchangeItem| x@) }
    }
}

/// One offering of the gold coin store.
#[derive(Debug, Clone, Copy, PartialEq, Eq, Default)]
pub struct EinhasadProduct {
    pub product_id: u32,
    pub item_id: u32,
    pub item_count: u32,
    pub price_gold_coins: u32,
    pub daily_limit: u32,
    pub buy_count: u32,
}

/// Gold coin store offerings.
#[derive(Debug, Clone, PartialEq, Eq)]
pub struct EinhasadStorePacket {
    pub products: Vec<EinhasadProduct>,
}

/// Abstract value of an [`EinhasadStorePacket`].
pub struct EinhasadStoreView {
    pub products: Seq<EinhasadProduct>,
}

impl View for EinhasadStorePacket {
    type V = EinhasadStoreView;

    open spec fn view(&self) -> EinhasadStoreView {
        EinhasadStoreView { products: self.products@ }
    }
}

/// Movement of an object toward a target.
#[derive(Debug, Clone, Copy, PartialEq, Eq, Default)]
pub struct MoveToLocationPacket {
    pub object_id: u32,
    pub target_x: i32,
    pub target_y: i32,
    pub target_z: i32,
    pub origin_x: i32,
    pub origin_y: i32,
    pub origin_z: i32,
}

/// A system message identifier.
#[derive(Debug, Clone, Copy, PartialEq, Eq, Default)]
pub struct SystemMessagePacket {
    pub message_id: u32,
}

/// A parsed packet, or the raw payload when it is not understood.
#[derive(Debug, Clone, PartialEq, Eq)]
pub enum L2Packet {
    AuthLogin(AuthLoginPacket),
    CharSelectInfo(CharSelectInfoPacket),
    UserInfo(UserInfoPacket),
    StatusUpdate(StatusUpdatePacket),
    ItemList(ItemListPacket),
    InventoryUpdate(InventoryUpdatePacket),
    WarehouseList(WarehouseListPacket),
    SkillList(SkillListPacket),
    AbnormalStatusUpdate(AbnormalStatusUpdatePacket),
    MagicEffectIcons(MagicEffectIconsPacket),
    PrivateStore(PrivateStorePacket),
    CommissionList(CommissionListPacket),
    WorldExchangeList(WorldExchangeListPacket),
    EinhasadStore(EinhasadStorePacket),
    MoveToLocation(MoveToLocationPacket),
    SystemMessage(SystemMessagePacket),
    Raw { opcode: u8, payload: Vec<u8> },
}

/// Abstract value of an [`L2Packet`].
pub enum PacketView {
    AuthLogin(AuthLoginView),
    CharSelectInfo(CharSelectInfoView),
    UserInfo(UserInfoView),
    StatusUpdate(StatusUpdateView),
    ItemList(ItemListView),
    InventoryUpdate(InventoryUpdateView),
    WarehouseList(WarehouseListView),
    SkillList(SkillListView),
    AbnormalStatusUpdate(AbnormalStatusUpdateView),
    MagicEffectIcons(MagicEffectIconsView),
    PrivateStore(PrivateStoreView),
    CommissionList(CommissionListView),
    WorldExchangeList(WorldExchangeListView),
    EinhasadStore(EinhasadStoreView),
    MoveToLocation(MoveToLocationPacket),
    SystemMessage(SystemMessagePacket),
    Raw { opcode: u8, payload: Seq<u8> },
}

impl View for L2Packet {
    type V = PacketView;

    open spec fn view(&self) -> PacketView {
        match self {
            L2Packet::AuthLogin(p) => PacketView::AuthLogin(p@),
            L2Packet::CharSelectInfo(p) => PacketView::CharSelectInfo(p@),
            L2Packet::UserInfo(p) => PacketView::UserInfo(p@),
            L2Packet::StatusUpdate(p) => PacketView::StatusUpdate(p@),
            L2Packet::ItemList(p) => PacketView::ItemList(p@),
            L2Packet::InventoryUpdate(p) => PacketView::InventoryUpdate(p@),
            L2Packet::WarehouseList(p) => PacketView::WarehouseList(p@),
            L2Packet::SkillList(p) => PacketView::SkillList(p@),
            L2Packet::AbnormalStatusUpdate(p) => PacketView::AbnormalStatusUpdate(p@),
            L2Packet::MagicEffectIcons(p) => PacketView::MagicEffectIcons(p@),
            L2Packet::PrivateStore(p) => PacketView::PrivateStore(p@),
            L2Packet::CommissionList(p) => PacketView::CommissionList(p@),
            L2Packet::WorldExchangeList(p) => PacketView::WorldExchangeList(p@),
            L2Packet::EinhasadStore(p) => PacketView::EinhasadStore(p@),
            L2Packet::MoveToLocation(p) => PacketView::MoveToLocation(*p),
            L2Packet::SystemMessage(p) => PacketView::SystemMessage(*p),
            L2Packet::Raw { opcode, payload } => PacketView::Raw { opcode: *opcode, payload: payload@ },
        }
    }
}


/// The raw form of a payload.
pub open spec fn raw_view(opcode: u8, s: Seq<u8>) -> PacketView {
    PacketView::Raw { opcode, payload: s }
}

/// An extended server payload (opcode 0xFE): a 16-bit sub-opcode selects
/// auction listings, world exchange listings or gold coin store offerings;
/// anything else, or a failed parse, stays raw.
pub open spec fn extended_view(s: Seq<u8>) -> PacketView {
    if !fits(s, 0, 2) {
        raw_view(0xfe, s)
    } else {
        let sub = le16(s, 0);
        if sub == 0x018f || sub == 0x00f4 {
            match commission_list_at(s, 2) {
                Some(v) => PacketView::CommissionList(v),
                None => raw_view(0xfe, s),
            }
        } else if sub == 0x021b {
            match world_exchange_at(s, 2) {
                Some(v) => PacketView::WorldExchangeList(v),
                None => raw_view(0xfe, s),
            }
        } else if sub == 0x0230 {
            match einhasad_store_at(s, 2) {
                Some(v) => PacketView::EinhasadStore(v),
                None => raw_view(0xfe, s),
            }
        } else {
            raw_view(0xfe, s)
        }
    }
}

/// The packet a server payload parses to, by opcode; payloads that are not
/// understood, or do not parse, stay raw.
pub open spec fn server_view(opcode: u8, s: Seq<u8>) -> PacketView {
    if opcode == 0x04 || opcode == 0x0b {
        match char_selected_at(s) {
            Some(v) => PacketView::UserInfo(v),
            None => raw_view(opcode, s),
        }
    } else if opcode == 0x09 || opcode == 0x1f || opcode == 0x13 || opcode == 0x71 {
        match char_select_info_at(s) {
            Some(v) => PacketView::CharSelectInfo(v),
            None => raw_view(opcode, s),
        }
    } else if opcode == 0x0e || opcode == 0x18 {
        match status_update_at(s, 0, 200) {
            Some(v) => PacketView::StatusUpdate(v),
            None => raw_view(opcode, s),
        }
    } else if opcode == 0x11 || opcode == 0x1b {
        match item_list_at(s) {
            Some(v) => PacketView::ItemList(v),
            None => raw_view(opcode, s),
        }
    } else if opcode == 0x21 || opcode == 0x27 {
        match inventory_update_at(s) {
            Some(v) => PacketView::InventoryUpdate(v),
            None => raw_view(opcode, s),
        }
    } else if opcode == 0x41 || opcode == 0x42 {
        match warehouse_list_at(s, opcode) {
            Some(v) => PacketView::WarehouseList(v),
            None => raw_view(opcode, s),
        }
    } else if opcode == 0x58 || opcode == 0x5f {
        match skill_list_at(s, 0) {
            Some(v) => PacketView::SkillList(v),
            None => raw_view(opcode, s),
        }
    } else if opcode == 0x7f {
        match magic_effect_icons_at(s, 0) {
            Some(v) => PacketView::MagicEffectIcons(v),
            None => raw_view(opcode, s),
        }
    } else if opcode == 0x85 {
        match abnormal_status_at(s, 0) {
            Some(v) => PacketView::AbnormalStatusUpdate(v),
            None => raw_view(opcode, s),
        }
    } else if opcode == 0x9b || opcode == 0xa1 {
        match private_store_at(s, 0, PrivateStoreType::Sell) {
            Some(v) => PacketView::PrivateStore(v),
            None => raw_view(opcode, s),
        }
    } else if opcode == 0xb8 || opcode == 0xbe {
        match private_store_at(s, 0, PrivateStoreType::Buy) {
            Some(v) => PacketView::PrivateStore(v),
            None => raw_view(opcode, s),
        }
    } else if opcode == 0xfe {
        extended_view(s)
    } else if opcode == 0x01 || opcode == 0x72 {
        match move_to_location_at(s, 0) {
            Some(v) => PacketView::MoveToLocation(v),
            None => raw_view(opcode, s),
        }
    } else {
        raw_view(opcode, s)
    }
}

/// Whether an extended client sub-opcode carries a login.
pub open spec fn client_login_subop(sub: int) -> bool {
    sub == 0x0240 || sub == 0x0008 || sub == 0x002b || sub == 0x0001
}

/// The packet a client payload parses to: logins under opcodes 0x08, 0x2B
/// and 0x00, or under the extended opcode 0xD0 with a login sub-opcode; all
/// else stays raw.
pub open spec fn client_view(opcode: u8, s: Seq<u8>) -> PacketView {
    if opcode == 0x08 || opcode == 0x2b || opcode == 0x00 {
        match auth_login_at(s) {
            Some(v) => PacketView::AuthLogin(v),
            None => raw_view(opcode, s),
        }
    } else if opcode == 0xd0 && s.len() >= 2 && client_login_subop(le16(s, 0)) {
        match auth_login_at(s.skip(2)) {
            Some(v) => PacketView::AuthLogin(v),
            None => raw_view(opcode, s),
        }
    } else {
        raw_view(opcode, s)
    }
}

/// The raw form of a payload.
fn raw_packet(opcode: u8, payload: &[u8]) -> (r: L2Packet)
    ensures
        r@ == raw_view(opcode, payload@),
{
    L2Packet::Raw { opcode, payload: slice_to_vec(payload) }
}

impl L2Packet {
    /// Parses a decrypted server payload given its opcode.
    pub fn parse(opcode: u8, payload: &[u8]) -> (r: L2Packet)
        ensures
            r@ == server_view(opcode, payload@),
    {
        if opcode == 0x04 || opcode == 0x0b {
            match Self::parse_char_selected_retail(payload) {
                Some(v) => L2Packet::UserInfo(v),
                None => raw_packet(opcode, payload),
            }
        } else if opcode == 0x09 || opcode == 0x1f || opcode == 0x13 || opcode == 0x71 {
            match Self::parse_char_select_info_retail(payload) {
                Some(v) => L2Packet::CharSelectInfo(v),
                None => raw_packet(opcode, payload),
            }
        } else if opcode == 0x0e || opcode == 0x18 {
            let mut r = WireReader::new(payload);
            match Self::parse_status_update(&mut r) {
                Some(v) => L2Packet::StatusUpdate(v),
                None => raw_packet(opcode, payload),
            }
        } else if opcode == 0x11 || opcode == 0x1b {
            match Self::parse_item_list(payload) {
                Some(v) => L2Packet::ItemList(v),
                None => raw_packet(opcode, payload),
            }
        } else if opcode == 0x21 || opcode == 0x27 {
            match Self::parse_inventory_update(payload) {
                Some(v) => L2Packet::InventoryUpdate(v),
                None => raw_packet(opcode, payload),
            }
        } else if opcode == 0x41 || opcode == 0x42 {
            match Self::parse_warehouse_list(payload, opcode) {
                Some(v) => L2Packet::WarehouseList(v),
                None => raw_packet(opcode, payload),
            }
        } else if opcode == 0x58 || opcode == 0x5f {
            let mut r = WireReader::new(payload);
            match Self::parse_skill_list(&mut r) {
                Some(v) => L2Packet::SkillList(v),
                None => raw_packet(opcode, payload),
            }
        } else if opcode == 0x7f {
            let mut r = WireReader::new(payload);
            match Self::parse_magic_effect_icons(&mut r) {
                Some(v) => L2Packet::MagicEffectIcons(v),
                None => raw_packet(opcode, payload),
            }
        } else if opcode == 0x85 {
            let mut r = WireReader::new(payload);
            match Self::parse_abnormal_status_update(&mut r) {
                Some(v) => L2Packet::AbnormalStatusUpdate(v),
                None => raw_packet(opcode, payload),
            }
        } else if opcode == 0x9b || opcode == 0xa1 {
            let mut r = WireReader::new(payload);
            match Self::parse_private_store(&mut r, PrivateStoreType::Sell) {
                Some(v) => L2Packet::PrivateStore(v),
                None => raw_packet(opcode, payload),
            }
        } else if opcode == 0xb8 || opcode == 0xbe {
            let mut r = WireReader::new(payload);
            match Self::parse_private_store(&mut r, PrivateStoreType::Buy) {
                Some(v) => L2Packet::PrivateStore(v),
                None => raw_packet(opcode, payload),
            }
        } else if opcode == 0xfe {
            Self::parse_extended(payload)
        } else if opcode == 0x01 || opcode == 0x72 {
            let mut r = WireReader::new(payload);
            match Self::parse_move_to_location(&mut r) {
                Some(v) => L2Packet::MoveToLocation(v),
                None => raw_packet(opcode, payload),
            }
        } else {
            raw_packet(opcode, payload)
        }
    }

    /// Parses an extended server payload (opcode 0xFE).
    pub(crate) fn parse_extended(payload: &[u8]) -> (r: L2Packet)
        ensures
            r@ == extended_view(payload@),
    {
        let mut r = WireReader::new(payload);
        let sub_op = match r.read_u16() {
            Some(op) => op,
            None => { return raw_packet(0xfe, payload); },
        };
        if sub_op == 0x018f || sub_op == 0x00f4 {
            match Self::parse_commission_list(&mut r) {
                Some(v) => L2Packet::CommissionList(v),
                None => raw_packet(0xfe, payload),
            }
        } else if sub_op == 0x021b {
            match Self::parse_world_exchange_list(&mut r) {
                Some(v) => L2Packet::WorldExchangeList(v),
                None => raw_packet(0xfe, payload),
            }
        } else if sub_op == 0x0230 {
            match Self::parse_einhasad_store(&mut r) {
                Some(v) => L2Packet::EinhasadStore(v),
                None => raw_packet(0xfe, payload),
            }
        } else {
            raw_packet(0xfe, payload)
        }
    }

    /// Parses a decrypted client payload given its opcode.
    pub fn parse_client(opcode: u8, payload: &[u8]) -> (r: L2Packet)
        ensures
            r@ == client_view(opcode, payload@),
    {
        if opcode == 0x08 || opcode == 0x2b || opcode == 0x00 {
            if let Some(auth) = Self::parse_auth_login(payload) {
                return L2Packet::AuthLogin(auth);
            }
        } else if opcode == 0xd0 {
            let n = payload.len();
            if n >= 2 {
                let sub_op = le16_at(payload, 0);
                if sub_op == 0x0240 || sub_op == 0x0008 || sub_op == 0x002b || sub_op == 0x0001 {
                    let rest = &payload[2..n];
                    assert(rest@ =~= payload@.skip(2));
                    if let Some(auth) = Self::parse_auth_login(rest) {
                        return L2Packet::AuthLogin(auth);
                    }
                }
            }
        }
        raw_packet(opcode, payload)
    }
}


/// Reads a zero-terminated UTF-16LE string at the reader's position; a
/// string cut short by the end of the buffer ends there, and nothing at all
/// before the end is an error. More than 1024 characters is refused.
pub fn read_l2_string(r: &mut WireReader) -> (res: Result<String, ReadError>)
    requires
        old(r).wf(),
    ensures
        final(r).wf(),
        final(r).data@ == old(r).data@,
        ({
            let sp = utf16z_read(old(r).data@, old(r).pos as int, true);
            &&& final(r).pos == sp.1
            &&& match res {
                Ok(t) => sp.0 == Ok::<Seq<char>, ReadError>(t@),
                Err(e) => sp.0 == Err::<Seq<char>, ReadError>(e),
            }
        }),
{
    read_utf16z(r, true)
}

/// Reads a zero-terminated 8-bit string that must be UTF-8 at the reader's
/// position; a string cut short by the end of the buffer ends there, and
/// nothing at all before the end is an error. More than 1024 bytes is refused.
pub fn read_ascii_string(r: &mut WireReader) -> (res: Result<String, ReadError>)
    requires
        old(r).wf(),
    ensures
        final(r).wf(),
        final(r).data@ == old(r).data@,
        ({
            let sp = utf8z_read(old(r).data@, old(r).pos as int, true);
            &&& final(r).pos == sp.1
            &&& match res {
                Ok(t) => sp.0 == Ok::<Seq<char>, ReadError>(t@),
                Err(e) => sp.0 == Err::<Seq<char>, ReadError>(e),
            }
        }),
{
    read_utf8z(r, true)
}

/// The (id, value) pairs of status attributes, in order.
pub open spec fn attribute_pairs(attrs: Seq<StatusUpdateAttribute>) -> Seq<(u32, u32)> {
    Seq::new(attrs.len(), |i: int| (attrs[i].attr_id, attrs[i].value))
}

/// A status update reads back what was written: an object id, a count and
/// that many (attribute id, value) pairs, each value little-endian, parse
/// under either status opcode as that object with those attributes in
/// order, whatever follows.
pub proof fn lemma_status_update_roundtrip(opcode: u8, object_id: u32, attrs: Seq<StatusUpdateAttribute>, rest: Seq<u8>)
    requires
        opcode == 0x0e || opcode == 0x18,
        attrs.len() <= 200,
    ensures
        server_view(opcode, u32_bytes(object_id) + u32_bytes(attrs.len() as u32) + u32_pairs_bytes(attribute_pairs(attrs)) + rest)
            == PacketView::StatusUpdate(StatusUpdateView { object_id, attributes: attrs }),
{
    lemma_status_update_written(object_id, attrs, rest);
}

/// The status update fields of written pairs read back as written.
proof fn lemma_status_update_written(object_id: u32, attrs: Seq<StatusUpdateAttribute>, rest: Seq<u8>)
    requires
        attrs.len() <= 200,
    ensures
        status_update_at(u32_bytes(object_id) + u32_bytes(attrs.len() as u32) + u32_pairs_bytes(attribute_pairs(attrs)) + rest, 0, 200)
            == Some(StatusUpdateView { object_id, attributes: attrs }),
{
    let pairs = attribute_pairs(attrs);
    let n = attrs.len();
    let s = u32_bytes(object_id) + u32_bytes(n as u32) + u32_pairs_bytes(pairs) + rest;
    lemma_u32_pairs_bytes(pairs);
    assert forall|j: int| 0 <= j < 4 implies s[0 + j] == #[trigger] u32_bytes(object_id)[j] by {}
    lemma_le32_reads_written(s, 0, object_id);
    assert forall|j: int| 0 <= j < 4 implies s[4 + j] == #[trigger] u32_bytes(n as u32)[j] by {}
    lemma_le32_reads_written(s, 4, n as u32);
    assert forall|i: int| 0 <= i < n implies le32(s, 8 + 8 * i) == attrs[i].attr_id && le32(s, 12 + 8 * i) == attrs[i].value by {
        assert forall|j: int| 0 <= j < 4 implies s[8 + 8 * i + j] == #[trigger] u32_bytes(attrs[i].attr_id)[j] by {
            assert(s[8 + 8 * i + j] == u32_pairs_bytes(pairs)[8 * i + j]);
        }
        lemma_le32_reads_written(s, 8 + 8 * i, attrs[i].attr_id);
        assert forall|j: int| 0 <= j < 4 implies s[12 + 8 * i + j] == #[trigger] u32_bytes(attrs[i].value)[j] by {
            assert(u32_pairs_bytes(pairs)[8 * i + j] == u32_bytes(pairs[i].0)[j]);
            assert(s[12 + 8 * i + j] == u32_pairs_bytes(pairs)[8 * i + 4 + j]);
        }
        lemma_le32_reads_written(s, 12 + 8 * i, attrs[i].value);
    }
    assert(status_attrs(s, 4, n as nat) =~= attrs);
}

} // verus!
