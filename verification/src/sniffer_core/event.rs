//! Notifications the sniffer's tracker publishes as its state changes.

use vstd::prelude::*;
use crate::endpoint::Endpoint;
use crate::sniffer_core::model::{
    views, BuffEffect, CharSelectSlot, CharSelectSlotView, Character, CharacterView, CommissionItem,
    EinhasadProduct, InventoryItem, Location, PrivateStoreSession, SkillEntry, Vitals, WarehouseType,
    WorldExchangeItem,
};

verus! {

/// A change of tracked state.
#[derive(Debug)]
pub enum SnifferEvent {
    ClientConnected { client_addr: Endpoint, server_addr: Endpoint },
    ClientDisconnected { client_addr: Endpoint, reason: String },
    AccountDetected { client_addr: Option<Endpoint>, account_name: String },
    AccountRosterLoaded { client_addr: Option<Endpoint>, account_name: String, characters: Vec<CharSelectSlot> },
    CharacterLoaded { client_addr: Option<Endpoint>, character: Character },
    VitalsChanged { client_addr: Option<Endpoint>, object_id: u32, vitals: Vitals },
    LocationChanged { client_addr: Option<Endpoint>, object_id: u32, location: Location },
    ExpGained { client_addr: Option<Endpoint>, object_id: u32, exp: u64, sp: u32 },
    SkillsUpdated { client_addr: Option<Endpoint>, object_id: u32, skills: Vec<SkillEntry> },
    BuffsUpdated { client_addr: Option<Endpoint>, object_id: u32, buffs: Vec<BuffEffect> },
    InventoryLoaded { client_addr: Option<Endpoint>, object_id: u32, items: Vec<InventoryItem> },
    WarehouseLoaded {
        client_addr: Option<Endpoint>,
        object_id: u32,
        wh_type: WarehouseType,
        player_adena: u64,
        items: Vec<InventoryItem>,
    },
    PrivateStoreUpdated { client_addr: Option<Endpoint>, store: PrivateStoreSession },
    CommissionMarketUpdated { items: Vec<CommissionItem> },
    WorldExchangeUpdated { items: Vec<WorldExchangeItem> },
    EinhasadStoreUpdated { products: Vec<EinhasadProduct> },
    ItemUpdated { client_addr: Option<Endpoint>, object_id: u32, item_id: u32, count: u64 },
    RawPacketReceived { client_addr: Option<Endpoint>, opcode: u8, length: usize },
}

/// What the tracker announces, as abstract values; the market and item
/// notifications, which the tracker never sends, are summarised by kind.
pub enum SnifferEventView {
    ClientConnected { client_addr: Endpoint, server_addr: Endpoint },
    ClientDisconnected { client_addr: Endpoint, reason: Seq<char> },
    AccountDetected { client_addr: Option<Endpoint>, account_name: Seq<char> },
    AccountRosterLoaded { client_addr: Option<Endpoint>, account_name: Seq<char>, characters: Seq<CharSelectSlotView> },
    CharacterLoaded { client_addr: Option<Endpoint>, character: CharacterView },
    VitalsChanged { client_addr: Option<Endpoint>, object_id: u32, vitals: Vitals },
    LocationChanged { client_addr: Option<Endpoint>, object_id: u32, location: Location },
    RawPacketReceived { client_addr: Option<Endpoint>, opcode: u8, length: usize },
    Other,
}

impl View for SnifferEvent {
    type V = SnifferEventView;

    open spec fn view(&self) -> SnifferEventView {
        match self {
            SnifferEvent::ClientConnected { client_addr, server_addr } => SnifferEventView::ClientConnected {
                client_addr: *client_addr,
                server_addr: *server_addr,
            },
            SnifferEvent::ClientDisconnected { client_addr, reason } => SnifferEventView::ClientDisconnected {
                client_addr: *client_addr,
                reason: reason@,
            },
            SnifferEvent::AccountDetected { client_addr, account_name } => SnifferEventView::AccountDetected {
                client_addr: *client_addr,
                account_name: account_name@,
            },
            SnifferEvent::AccountRosterLoaded { client_addr, account_name, characters } =>
                SnifferEventView::AccountRosterLoaded {
                    client_addr: *client_addr,
                    account_name: account_name@,
                    characters: views(characters@),
                },
            SnifferEvent::CharacterLoaded { client_addr, character } => SnifferEventView::CharacterLoaded {
                client_addr: *client_addr,
                character: character@,
            },
            SnifferEvent::VitalsChanged { client_addr, object_id, vitals } => SnifferEventView::VitalsChanged {
                client_addr: *client_addr,
                object_id: *object_id,
                vitals: *vitals,
            },
            SnifferEvent::LocationChanged { client_addr, object_id, location } => SnifferEventView::LocationChanged {
                client_addr: *client_addr,
                object_id: *object_id,
                location: *location,
            },
            SnifferEvent::RawPacketReceived { client_addr, opcode, length } => SnifferEventView::RawPacketReceived {
                client_addr: *client_addr,
                opcode: *opcode,
                length: *length,
            },
            _ => SnifferEventView::Other,
        }
    }
}

} // verus!
