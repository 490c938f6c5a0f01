//! Notifications the tracker publishes as its state changes.

use vstd::prelude::*;
use crate::endpoint::Endpoint;
use crate::service::model::{
    views, BuffEffect, CharSelectSlot, CharSelectSlotView, Character, CharacterView, CommissionItem,
    CommissionItemView, EinhasadProduct, InventoryItem, ItemInfoView, Location, PrivateStoreSession, SkillEntry,
    StoreView, Vitals, WarehouseType, WorldExchangeItem, WorldExchangeItemView,
};

verus! {

/// A change of tracked state.
#[derive(Debug)]
pub enum CompanionEvent {
    ClientConnected { client_addr: Endpoint, server_addr: Endpoint },
    ClientDisconnected { client_addr: Endpoint, reason: String },
    AccountDetected { client_addr: Option<Endpoint>, account_name: String },
    AccountRosterLoaded { client_addr: Option<Endpoint>, account_name: String, characters: Vec<CharSelectSlot> },
    CharacterLoaded { client_addr: Option<Endpoint>, character: Character },
    VitalsChanged { client_addr: Option<Endpoint>, object_id: u32, vitals: Vitals },
    LocationChanged { client_addr: Option<Endpoint>, object_id: u32, location: Location },
    ExpGained { client_addr: Option<Endpoint>, object_id: u32, exp: u64, sp: u32 },
    SkillsUpdated { client_addr: Option<Endpoint>, object_id: u32, skills: Vec<SkillEntry> },
    BuffsUpdated { client_addr: Option<Endpoint>, object_id: u32, buffs: Vec<BuffEffect> },
    InventoryLoaded { client_addr: Option<Endpoint>, object_id: u32, items: Vec<InventoryItem> },
    WarehouseLoaded {
        client_addr: Option<Endpoint>,
        object_id: u32,
        wh_type: WarehouseType,
        player_adena: u64,
        items: Vec<InventoryItem>,
    },
    PrivateStoreUpdated { client_addr: Option<Endpoint>, store: PrivateStoreSession },
    CommissionMarketUpdated { items: Vec<CommissionItem> },
    WorldExchangeUpdated { items: Vec<WorldExchangeItem> },
    EinhasadStoreUpdated { products: Vec<EinhasadProduct> },
    ItemUpdated { client_addr: Option<Endpoint>, object_id: u32, item_id: u32, count: u64 },
    RawPacketReceived { client_addr: Option<Endpoint>, opcode: u8, length: usize },
}

/// Abstract value of a [`CompanionEvent`].
pub enum EventView {
    ClientConnected { client_addr: Endpoint, server_addr: Endpoint },
    ClientDisconnected { client_addr: Endpoint, reason: Seq<char> },
    AccountDetected { client_addr: Option<Endpoint>, account_name: Seq<char> },
    AccountRosterLoaded { client_addr: Option<Endpoint>, account_name: Seq<char>, characters: Seq<CharSelectSlotView> },
    CharacterLoaded { client_addr: Option<Endpoint>, character: CharacterView },
    VitalsChanged { client_addr: Option<Endpoint>, object_id: u32, vitals: Vitals },
    LocationChanged { client_addr: Option<Endpoint>, object_id: u32, location: Location },
    ExpGained { client_addr: Option<Endpoint>, object_id: u32, exp: u64, sp: u32 },
    SkillsUpdated { client_addr: Option<Endpoint>, object_id: u32, skills: Seq<SkillEntry> },
    BuffsUpdated { client_addr: Option<Endpoint>, object_id: u32, buffs: Seq<BuffEffect> },
    InventoryLoaded { client_addr: Option<Endpoint>, object_id: u32, items: Seq<ItemInfoView> },
    WarehouseLoaded {
        client_addr: Option<Endpoint>,
        object_id: u32,
        wh_type: WarehouseType,
        player_adena: u64,
        items: Seq<ItemInfoView>,
    },
    PrivateStoreUpdated { client_addr: Option<Endpoint>, store: StoreView },
    CommissionMarketUpdated { items: Seq<CommissionItemView> },
    WorldExchangeUpdated { items: Seq<WorldExchangeItemView> },
    EinhasadStoreUpdated { products: Seq<EinhasadProduct> },
    ItemUpdated { client_addr: Option<Endpoint>, object_id: u32, item_id: u32, count: u64 },
    RawPacketReceived { client_addr: Option<Endpoint>, opcode: u8, length: usize },
}

impl View for CompanionEvent {
    type V = EventView;

    open spec fn view(&self) -> EventView {
        match self {
            CompanionEvent::ClientConnected { client_addr, server_addr } => EventView::ClientConnected {
                client_addr: *client_addr,
                server_addr: *server_addr,
            },
            CompanionEvent::ClientDisconnected { client_addr, reason } => EventView::ClientDisconnected {
                client_addr: *client_addr,
                reason: reason@,
            },
            CompanionEvent::AccountDetected { client_addr, account_name } => EventView::AccountDetected {
                client_addr: *client_addr,
                account_name: account_name@,
            },
            CompanionEvent::AccountRosterLoaded { client_addr, account_name, characters } =>
                EventView::AccountRosterLoaded {
                    client_addr: *client_addr,
                    account_name: account_name@,
                    characters: views(characters@),
                },
            CompanionEvent::CharacterLoaded { client_addr, character } => EventView::CharacterLoaded {
                client_addr: *client_addr,
                character: character@,
            },
            CompanionEvent::VitalsChanged { client_addr, object_id, vitals } => EventView::VitalsChanged {
                client_addr: *client_addr,
                object_id: *object_id,
                vitals: *vitals,
            },
            CompanionEvent::LocationChanged { client_addr, object_id, location } => EventView::LocationChanged {
                client_addr: *client_addr,
                object_id: *object_id,
                location: *location,
            },
            CompanionEvent::ExpGained { client_addr, object_id, exp, sp } => EventView::ExpGained {
                client_addr: *client_addr,
                object_id: *object_id,
                exp: *exp,
                sp: *sp,
            },
            CompanionEvent::SkillsUpdated { client_addr, object_id, skills } => EventView::SkillsUpdated {
                client_addr: *client_addr,
                object_id: *object_id,
                skills: skills@,
            },
            CompanionEvent::BuffsUpdated { client_addr, object_id, buffs } => EventView::BuffsUpdated {
                client_addr: *client_addr,
                object_id: *object_id,
                buffs: buffs@,
            },
            CompanionEvent::InventoryLoaded { client_addr, object_id, items } => EventView::InventoryLoaded {
                client_addr: *client_addr,
                object_id: *object_id,
                items: views(items@),
            },
            CompanionEvent::WarehouseLoaded { client_addr, object_id, wh_type, player_adena, items } =>
                EventView::WarehouseLoaded {
                    client_addr: *client_addr,
                    object_id: *object_id,
                    wh_type: *wh_type,
                    player_adena: *player_adena,
                    items: views(items@),
                },
            CompanionEvent::PrivateStoreUpdated { client_addr, store } => EventView::PrivateStoreUpdated {
                client_addr: *client_addr,
                store: store@,
            },
            CompanionEvent::CommissionMarketUpdated { items } => EventView::CommissionMarketUpdated {
                items: views(items@),
            },
            CompanionEvent::WorldExchangeUpdated { items } => EventView::WorldExchangeUpdated {
                items: views(items@),
            },
            CompanionEvent::EinhasadStoreUpdated { products } => EventView::EinhasadStoreUpdated {
                products: products@,
            },
            CompanionEvent::ItemUpdated { client_addr, object_id, item_id, count } => EventView::ItemUpdated {
                client_addr: *client_addr,
                object_id: *object_id,
                item_id: *item_id,
                count: *count,
            },
            CompanionEvent::RawPacketReceived { client_addr, opcode, length } => EventView::RawPacketReceived {
                client_addr: *client_addr,
                opcode: *opcode,
                length: *length,
            },
        }
    }
}


/// The vitals a vitals notification carries, when it concerns `object_id`
/// (any object when none is given); nothing for other notifications.
pub open spec fn vitals_of(e: EventView, object_id: Option<u32>) -> Option<Vitals> {
    match e {
        EventView::VitalsChanged { object_id: ev_obj, vitals, .. } => match object_id {
            Some(target) => if target == ev_obj { Some(vitals) } else { None },
            None => Some(vitals),
        },
        _ => None,
    }
}

/// Picks the vitals out of a notification for a live vitals feed of one
/// character (or of all characters).
pub fn character_vitals(event: &CompanionEvent, object_id: Option<u32>) -> (r: Option<Vitals>)
    ensures
        r == vitals_of(event@, object_id),
{
    match event {
        CompanionEvent::VitalsChanged { object_id: ev_obj, vitals, .. } => match object_id {
            Some(target) => if target == *ev_obj { Some(*vitals) } else { None },
            None => Some(*vitals),
        },
        _ => None,
    }
}

} // verus!
