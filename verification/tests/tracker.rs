use l2companion::endpoint::Endpoint;
use l2companion::service::event::{character_vitals, CompanionEvent};
use l2companion::service::state::CharacterTracker;
use l2companion::sniffer_core::event::SnifferEvent;
use l2companion::sniffer_core::state::CharacterTracker as SnifferTracker;
use l2companion::sniffer_protocol::packet::{
    AuthLoginPacket, CharSelectInfoPacket, CharSelectSlot, CommissionItem, CommissionListPacket, InventoryUpdatePacket,
    ItemInfo, ItemListPacket, L2Packet, MoveToLocationPacket, PrivateStorePacket, PrivateStoreType, SkillEntry,
    SkillListPacket, StatusUpdateAttribute, StatusUpdatePacket, UserInfoPacket,
};

fn client1() -> Endpoint {
    Endpoint::new(192, 168, 1, 50, 60001)
}

fn login(name: &str) -> L2Packet {
    L2Packet::AuthLogin(AuthLoginPacket { account_name: name.to_string(), session_key1: 12345, session_key2: 67890 })
}

fn roster(account: &str) -> L2Packet {
    let slot = CharSelectSlot {
        name: "HeroKnight".to_string(),
        char_id: 1001,
        level: 85,
        class_id: 90,
        cur_hp_bits: 6000.0f64.to_bits(),
        max_hp_bits: 6000.0f64.to_bits(),
        ..Default::default()
    };
    L2Packet::CharSelectInfo(CharSelectInfoPacket { account_name: account.to_string(), character_slots: vec![slot] })
}

fn hero() -> UserInfoPacket {
    UserInfoPacket {
        object_id: 1001,
        name: "HeroKnight".to_string(),
        level: 85,
        cur_hp: 6000,
        max_hp: 6000,
        ..Default::default()
    }
}

fn item(object_id: u32, item_id: u32, count: u64) -> ItemInfo {
    ItemInfo { object_id, item_id, count, ..Default::default() }
}

#[test]
fn state_test_multi_client_and_account_tracker() {
    let mut tracker = CharacterTracker::new();
    let client1 = client1();

    let ev1 = tracker.handle_packet_with_client(Some(client1), login("JasonAccount1"), 1);
    assert!(matches!(ev1[0], CompanionEvent::AccountDetected { .. }));

    let ev2 = tracker.handle_packet_with_client(Some(client1), roster("JasonAccount1"), 2);
    assert!(matches!(ev2[0], CompanionEvent::AccountRosterLoaded { .. }));

    tracker.handle_packet_with_client(Some(client1), L2Packet::UserInfo(hero()), 3);
    let c = tracker.get_character_by_client(client1).unwrap();
    assert_eq!(c.name, "HeroKnight");
    assert_eq!(c.account_name, Some("JasonAccount1".to_string()));

    let sl = SkillListPacket {
        skills: vec![SkillEntry {
            skill_id: 1069,
            level: 15,
            sub_level: 0,
            is_passive: false,
            is_disabled: false,
            enchant_type: 0,
        }],
    };
    tracker.handle_packet_with_client(Some(client1), L2Packet::SkillList(sl), 4);
    let skills = tracker.get_character_skills(1001);
    assert_eq!(skills.len(), 1);
    assert_eq!(skills[0].skill_id, 1069);

    let il = ItemListPacket { show_window: true, items: vec![item(2001, 57, 1000000)] };
    tracker.handle_packet_with_client(Some(client1), L2Packet::ItemList(il), 5);
    let inv = tracker.get_character_inventory(1001);
    assert_eq!(inv.len(), 1);
    assert_eq!(inv[0].item_id, 57);
}

#[test]
fn test_multi_client_and_account_tracker() {
    let mut tracker = SnifferTracker::new();
    let client1 = client1();

    let ev1 = tracker.handle_packet_with_client(Some(client1), login("JasonAccount1"), 1);
    assert!(matches!(ev1[0], SnifferEvent::AccountDetected { .. }));

    let ev2 = tracker.handle_packet_with_client(Some(client1), roster("JasonAccount1"), 2);
    assert!(matches!(ev2[0], SnifferEvent::AccountRosterLoaded { .. }));

    tracker.handle_packet_with_client(Some(client1), L2Packet::UserInfo(hero()), 3);
    let c = tracker.get_character_by_client(client1).unwrap();
    assert_eq!(c.name, "HeroKnight");
    assert_eq!(c.account_name, Some("JasonAccount1".to_string()));
}

#[test]
fn disconnect_forgets_the_client() {
    let mut tracker = CharacterTracker::new();
    tracker.handle_packet_with_client(Some(client1()), login("Acc"), 1);
    tracker.handle_packet_with_client(Some(client1()), L2Packet::UserInfo(hero()), 2);
    assert!(tracker.get_character_by_client(client1()).is_some());
    let ev = tracker.unregister_client_connection(client1(), "Connection closed (FIN)".to_string());
    assert!(matches!(&ev[0], CompanionEvent::ClientDisconnected { reason, .. } if reason == "Connection closed (FIN)"));
    assert!(tracker.get_character_by_client(client1()).is_none());
    assert_eq!(tracker.get_characters().len(), 1);

    let mut sniffer = SnifferTracker::new();
    sniffer.handle_packet_with_client(Some(client1()), L2Packet::UserInfo(hero()), 2);
    sniffer.unregister_client_connection(client1(), "gone".to_string());
    assert!(sniffer.get_character_by_client(client1()).is_none());
}

#[test]
fn repeated_login_on_same_client_is_silent() {
    let mut tracker = CharacterTracker::new();
    assert_eq!(tracker.handle_packet_with_client(Some(client1()), login("Acc"), 1).len(), 1);
    assert!(tracker.handle_packet_with_client(Some(client1()), login("Acc"), 2).is_empty());
    assert!(tracker.handle_packet_with_client(Some(client1()), login(""), 3).is_empty());
    let accounts = tracker.get_accounts();
    assert_eq!(accounts.len(), 1);
    assert_eq!(accounts[0].client_addr, "192.168.1.50:60001");
}

#[test]
fn invalid_user_info_is_ignored() {
    let mut tracker = CharacterTracker::new();
    let mut u = hero();
    u.level = 131;
    assert!(tracker.handle_packet_with_client(Some(client1()), L2Packet::UserInfo(u), 1).is_empty());
    let mut u = hero();
    u.object_id = 0;
    assert!(tracker.handle_packet(L2Packet::UserInfo(u), 1).is_empty());
    assert!(tracker.get_characters().is_empty());
}

#[test]
fn session_id_names_unknown_account() {
    let mut tracker = CharacterTracker::new();
    let mut u = hero();
    u.session_id = 4242;
    let ev = tracker.handle_packet_with_client(Some(client1()), L2Packet::UserInfo(u), 1);
    assert_eq!(ev.len(), 2);
    assert!(matches!(&ev[0], CompanionEvent::AccountDetected { account_name, .. } if account_name == "#4242"));
    let c = tracker.get_character_by_id(1001).unwrap();
    assert_eq!(c.account_name, Some("#4242".to_string()));
    assert_eq!(c.client_addr, Some("192.168.1.50:60001".to_string()));
}

#[test]
fn status_updates_apply_to_own_character_only() {
    let mut tracker = CharacterTracker::new();
    tracker.handle_packet_with_client(Some(client1()), L2Packet::UserInfo(hero()), 1);
    let upd = |id: u32| {
        L2Packet::StatusUpdate(StatusUpdatePacket {
            object_id: id,
            attributes: vec![
                StatusUpdateAttribute { attr_id: 9, value: 5000 },
                StatusUpdateAttribute { attr_id: 1, value: 86 },
                StatusUpdateAttribute { attr_id: 77, value: 1 },
            ],
        })
    };
    assert!(tracker.handle_packet_with_client(Some(client1()), upd(2002), 2).is_empty());
    let ev = tracker.handle_packet_with_client(Some(client1()), upd(1001), 3);
    assert!(matches!(&ev[0], CompanionEvent::VitalsChanged { vitals, .. } if vitals.cur_hp == 5000 && vitals.max_hp == 6000));
    let c = tracker.get_character_by_id(1001).unwrap();
    assert_eq!(c.level, 86);
    assert_eq!(c.last_updated_epoch_ms, 3);
}

#[test]
fn movement_keeps_heading() {
    let mut tracker = CharacterTracker::new();
    let mut u = hero();
    u.heading = 90;
    tracker.handle_packet(L2Packet::UserInfo(u), 1);
    let mv = MoveToLocationPacket { object_id: 1001, target_x: 5, target_y: 6, target_z: 7, ..Default::default() };
    let ev = tracker.handle_packet(L2Packet::MoveToLocation(mv), 2);
    assert_eq!(ev.len(), 1);
    let c = tracker.get_character_by_id(1001).unwrap();
    assert_eq!((c.location.x, c.location.y, c.location.z, c.location.heading), (5, 6, 7, 90));
}

#[test]
fn repeated_item_list_is_silent() {
    let mut tracker = CharacterTracker::new();
    tracker.handle_packet_with_client(Some(client1()), L2Packet::UserInfo(hero()), 1);
    let il = || L2Packet::ItemList(ItemListPacket { show_window: false, items: vec![item(1, 57, 10)] });
    assert_eq!(tracker.handle_packet_with_client(Some(client1()), il(), 2).len(), 1);
    assert!(tracker.handle_packet_with_client(Some(client1()), il(), 3).is_empty());
    let empty = L2Packet::ItemList(ItemListPacket { show_window: false, items: vec![] });
    assert!(tracker.handle_packet_with_client(Some(client1()), empty, 4).is_empty());
    assert_eq!(tracker.get_character_inventory(1001).len(), 1);
}

#[test]
fn inventory_update_merges_by_object() {
    let mut tracker = CharacterTracker::new();
    tracker.handle_packet(L2Packet::UserInfo(hero()), 1);
    let il = ItemListPacket { show_window: false, items: vec![item(1, 57, 10), item(2, 58, 1)] };
    tracker.handle_packet(L2Packet::ItemList(il), 2);
    let iu = InventoryUpdatePacket { items: vec![item(2, 58, 5), item(3, 59, 1)] };
    let ev = tracker.handle_packet(L2Packet::InventoryUpdate(iu), 3);
    assert_eq!(ev.len(), 1);
    let inv = tracker.get_character_inventory(1001);
    assert_eq!(inv.len(), 3);
    assert_eq!(inv[1].count, 5);
    assert_eq!(inv[2].item_id, 59);
}

#[test]
fn private_store_records_seller_name() {
    let mut tracker = CharacterTracker::new();
    tracker.handle_packet(L2Packet::UserInfo(hero()), 1);
    let ps = PrivateStorePacket {
        seller_object_id: 1001,
        store_type: PrivateStoreType::Buy,
        store_title: "WTB".to_string(),
        items: vec![],
    };
    tracker.handle_packet(L2Packet::PrivateStore(ps.clone()), 2);
    tracker.handle_packet(L2Packet::PrivateStore(ps), 3);
    let stores = tracker.get_private_stores();
    assert_eq!(stores.len(), 1);
    assert_eq!(stores[0].seller_name, Some("HeroKnight".to_string()));
    assert_eq!(stores[0].last_seen_epoch_ms, 3);
}

#[test]
fn market_listings_are_replaced() {
    let mut tracker = CharacterTracker::new();
    let listing = |id: u64| CommissionItem {
        commission_id: id,
        item_object_id: 1,
        item_id: 57,
        count: 1,
        price_per_unit: 10,
        total_price: 10,
        enchant_level: 0,
        seller_name: "S".to_string(),
        duration_days: 1,
        end_time_epoch_sec: 0,
    };
    tracker.handle_packet(L2Packet::CommissionList(CommissionListPacket { items: vec![listing(1), listing(2)] }), 1);
    tracker.handle_packet(L2Packet::CommissionList(CommissionListPacket { items: vec![listing(3)] }), 2);
    let m = tracker.get_market_state();
    assert_eq!(m.commission_items.len(), 1);
    assert_eq!(m.commission_items[0].commission_id, 3);
}

#[test]
fn raw_packets_are_reported_with_length() {
    let mut tracker = CharacterTracker::new();
    let ev = tracker.handle_packet(L2Packet::Raw { opcode: 0x99, payload: vec![1, 2, 3] }, 1);
    assert!(matches!(ev[0], CompanionEvent::RawPacketReceived { opcode: 0x99, length: 3, .. }));
    let mut sniffer = SnifferTracker::new();
    let ev = sniffer.handle_packet(L2Packet::Raw { opcode: 0x98, payload: vec![1] }, 1);
    assert!(matches!(ev[0], SnifferEvent::RawPacketReceived { opcode: 0x98, length: 1, .. }));
}

#[test]
fn accounts_report_matched_character() {
    let mut tracker = CharacterTracker::new();
    tracker.handle_packet(roster("Acc"), 1);
    tracker.handle_packet(L2Packet::UserInfo(hero()), 2);
    let accounts = tracker.get_accounts();
    assert_eq!(accounts.len(), 1);
    assert_eq!(accounts[0].account_name, "Acc");
    assert_eq!(accounts[0].active_character, Some("HeroKnight".to_string()));
}

#[test]
fn roster_without_name_uses_fallback_account() {
    let mut tracker = CharacterTracker::new();
    let ev = tracker.handle_packet(roster(""), 1);
    assert!(matches!(&ev[0], CompanionEvent::AccountRosterLoaded { account_name, .. } if account_name == "GameAccount"));
}

#[test]
fn character_lookup_by_name_ignores_case() {
    let mut tracker = CharacterTracker::new();
    tracker.handle_packet(L2Packet::UserInfo(hero()), 1);
    assert_eq!(tracker.get_character_by_name("heroknight").unwrap().object_id, 1001);
    assert!(tracker.get_character_by_name("nobody").is_none());
    assert!(tracker.get_character_skills(5).is_empty());
}

#[test]
fn vitals_feed_filters_by_character() {
    let mut tracker = CharacterTracker::new();
    tracker.handle_packet(L2Packet::UserInfo(hero()), 1);
    let upd = L2Packet::StatusUpdate(StatusUpdatePacket {
        object_id: 1001,
        attributes: vec![StatusUpdateAttribute { attr_id: 11, value: 300 }],
    });
    let ev = tracker.handle_packet(upd, 2);
    assert_eq!(character_vitals(&ev[0], Some(1001)).unwrap().cur_mp, 300);
    assert!(character_vitals(&ev[0], Some(7)).is_none());
    assert!(character_vitals(&ev[0], None).is_some());
    let raw = tracker.handle_packet(L2Packet::Raw { opcode: 1, payload: vec![] }, 3);
    assert!(character_vitals(&raw[0], None).is_none());
}

#[test]
fn character_query_prefers_id() {
    let mut tracker = CharacterTracker::new();
    tracker.handle_packet(L2Packet::UserInfo(hero()), 1);
    assert_eq!(tracker.find_character_query(Some(1001), Some("x")).unwrap().name, "HeroKnight");
    assert!(tracker.find_character_query(Some(5), Some("HeroKnight")).is_none());
    assert_eq!(tracker.find_character_query(None, Some("HEROKNIGHT")).unwrap().object_id, 1001);
    assert!(tracker.find_character_query(None, None).is_none());
}
